//! A model of how a POSIX shell reads one quoted word, and the proof that
//! wrapping a single-quote-escaped text in single quotes hands the shell
//! exactly the original text as one literal argument — no character of it
//! can open a new word or be interpreted.

use vstd::prelude::*;
use crate::text::escaped;
use crate::text::escaped_char;

verus! {

/// The shell reading one word built only of protected characters.
///
/// Inside single quotes every character but `'` is literal and `'` closes
/// the quoting. Outside quotes, `'` opens quoting and a backslash makes the
/// following character literal; any other unprotected character — a space
/// that would split the word, a metacharacter the shell would interpret —
/// makes the word unsafe, and the reading fails. `None` also covers an
/// unterminated quote or a trailing backslash.
pub open spec fn sq_word(s: Seq<char>, in_quote: bool) -> Option<Seq<char>>
    decreases s.len(),
{
    if s.len() == 0 {
        if in_quote {
            None
        } else {
            Some(Seq::empty())
        }
    } else if in_quote {
        if s[0] == '\'' {
            sq_word(s.skip(1), false)
        } else {
            match sq_word(s.skip(1), true) {
                Some(rest) => Some(seq![s[0]] + rest),
                None => None,
            }
        }
    } else {
        if s[0] == '\'' {
            sq_word(s.skip(1), true)
        } else if s[0] == '\\' && s.len() >= 2 {
            match sq_word(s.skip(2), false) {
                Some(rest) => Some(seq![s[1]] + rest),
                None => None,
            }
        } else {
            None
        }
    }
}

/// The escaped text wrapped in single quotes: the only way this crate
/// splices a caller-supplied string into a shell command.
pub open spec fn quoted(s: Seq<char>) -> Seq<char> {
    seq!['\''] + escaped(s) + seq!['\'']
}

proof fn lemma_sq_word_escaped(p: Seq<char>, tail: Seq<char>)
    ensures
        sq_word(escaped(p) + seq!['\''] + tail, true) == match sq_word(tail, false) {
            Some(rest) => Some(p + rest),
            None => None::<Seq<char>>,
        },
    decreases p.len(),
{
    let s = escaped(p) + seq!['\''] + tail;
    if p.len() == 0 {
        assert(escaped(p) =~= Seq::<char>::empty());
        assert(s =~= seq!['\''] + tail);
        assert(s[0] == '\'');
        assert(s.skip(1) =~= tail);
        match sq_word(tail, false) {
            Some(rest) => {
                assert(p + rest =~= rest);
            },
            None => {},
        }
    } else {
        let p1 = p.skip(1);
        assert(escaped(p) == escaped_char(p[0]) + escaped(p1));
        lemma_sq_word_escaped(p1, tail);
        if p[0] == '\'' {
            assert(escaped_char(p[0]) =~= seq!['\'', '\\', '\'', '\'']);
            assert(s[0] == '\'');
            let s1 = s.skip(1);
            assert(s1[0] == '\\');
            assert(s1.len() >= 2);
            assert(s1[1] == '\'');
            let s3 = s1.skip(2);
            assert(s3[0] == '\'');
            assert(s3.skip(1) =~= escaped(p1) + seq!['\''] + tail);
            assert(sq_word(s, true) == sq_word(s1, false));
            assert(sq_word(s3, false) == sq_word(s3.skip(1), true));
            assert(sq_word(s1, false) == match sq_word(s3, false) {
                Some(rest) => Some(seq!['\''] + rest),
                None => None::<Seq<char>>,
            });
            match sq_word(tail, false) {
                Some(rest) => {
                    assert(seq!['\''] + (p1 + rest) =~= p + rest);
                },
                None => {},
            }
        } else {
            assert(escaped_char(p[0]) =~= seq![p[0]]);
            assert(s[0] == p[0]);
            assert(s.skip(1) =~= escaped(p1) + seq!['\''] + tail);
            match sq_word(tail, false) {
                Some(rest) => {
                    assert(seq![p[0]] + (p1 + rest) =~= p + rest);
                },
                None => {},
            }
        }
    }
}

/// Appends `src` wrapped in single quotes with its own single quotes
/// escaped: the exec side of `quoted`.
pub fn push_quoted(out: &mut String, src: &str)
    ensures
        final(out)@ == old(out)@ + quoted(src@),
{
    crate::text::push_char(out, '\'');
    crate::text::push_escaped(out, src);
    crate::text::push_char(out, '\'');
    proof {
        assert(out@ =~= old(out)@ + quoted(src@));
    }
}

/// A string spliced into a command through `quoted` reaches the shell as one
/// literal argument, exactly the original text: escaping the single quotes
/// leaves no character of it outside quoting, so nothing in it — quotes,
/// spaces, metacharacters — can break out of the argument.
pub proof fn lemma_quoted_is_one_literal_word(p: Seq<char>)
    ensures
        sq_word(quoted(p), false) == Some(p),
{
    let s = quoted(p);
    assert(s[0] == '\'');
    assert(s.skip(1) =~= escaped(p) + seq!['\''] + Seq::<char>::empty());
    lemma_sq_word_escaped(p, Seq::empty());
    assert(sq_word(Seq::<char>::empty(), false) == Some(Seq::<char>::empty()));
    assert(p + Seq::<char>::empty() =~= p);
}

} // verus!
