//! Plain-text building blocks: the tunnel/credential key, single-quote
//! escaping for shell arguments, placeholder substitution in command
//! templates, and decimal rendering of port numbers.

use vstd::prelude::*;
use vstd::string::StrSliceExecFns;
use vstd::string::StringExecFns;

verus! {

/// The identity under which a tunnel or credential is tracked:
/// `username@host`.
pub open spec fn key_of(username: Seq<char>, host: Seq<char>) -> Seq<char> {
    username + "@"@ + host
}

/// Builds the `username@host` key.
pub fn key_for(username: &str, host: &str) -> (r: String)
    ensures
        r@ == key_of(username@, host@),
{
    let mut s = String::new();
    s.append(username);
    s.append("@");
    s.append(host);
    s
}

/// How one character stands inside a single-quoted shell word: a single
/// quote must close the quoting, appear backslash-escaped, and reopen it;
/// every other character stands for itself.
pub open spec fn escaped_char(c: char) -> Seq<char> {
    if c == '\'' {
        seq!['\'', '\\', '\'', '\'']
    } else {
        seq![c]
    }
}

/// The text `s` with every single quote replaced by the four-character
/// sequence `'\''`.
pub open spec fn escaped(s: Seq<char>) -> Seq<char>
    decreases s.len(),
{
    if s.len() == 0 {
        Seq::empty()
    } else {
        escaped_char(s[0]) + escaped(s.skip(1))
    }
}

proof fn lemma_escaped_push(s: Seq<char>, c: char)
    ensures
        escaped(s.push(c)) == escaped(s) + escaped_char(c),
    decreases s.len(),
{
    if s.len() == 0 {
        assert(s.push(c).skip(1) =~= Seq::<char>::empty());
        assert(s.push(c)[0] == c);
        assert(escaped(s.push(c)) == escaped_char(c) + escaped(Seq::<char>::empty()));
        assert(escaped_char(c) + Seq::<char>::empty() =~= escaped_char(c));
        assert(escaped(s) + escaped_char(c) =~= escaped_char(c));
    } else {
        assert(s.push(c).skip(1) =~= s.skip(1).push(c));
        lemma_escaped_push(s.skip(1), c);
        assert(escaped(s.push(c)) =~= escaped(s) + escaped_char(c));
    }
}

/// Relies on `String::push`: appends exactly the given character.
#[verifier::external_body]
pub(crate) fn push_char(s: &mut String, c: char)
    ensures
        final(s)@ == old(s)@.push(c),
{
    s.push(c);
}

/// Appends `src` to `out` with every single quote escaped as `'\''`.
pub fn push_escaped(out: &mut String, src: &str)
    ensures
        final(out)@ == old(out)@ + escaped(src@),
{
    let n = src.unicode_len();
    let mut i: usize = 0;
    while i < n
        invariant
            n == src@.len(),
            i <= n,
            out@ == old(out)@ + escaped(src@.subrange(0, i as int)),
        decreases n - i,
    {
        let c = src.get_char(i);
        if c == '\'' {
            push_char(out, '\'');
            push_char(out, '\\');
            push_char(out, '\'');
            push_char(out, '\'');
        } else {
            push_char(out, c);
        }
        proof {
            lemma_escaped_push(src@.subrange(0, i as int), src@[i as int]);
            assert(src@.subrange(0, i + 1 as int) =~= src@.subrange(0, i as int).push(
                src@[i as int],
            ));
            assert(out@ =~= old(out)@ + escaped(src@.subrange(0, i + 1 as int)));
        }
        i += 1;
    }
    proof {
        assert(src@.subrange(0, n as int) =~= src@);
    }
}

/// The text with every single quote escaped, as one central function: the
/// only quoting rule used when a string is spliced into a shell command.
pub fn escape_single_quotes(src: &str) -> (r: String)
    ensures
        r@ == escaped(src@),
{
    let mut s = String::new();
    push_escaped(&mut s, src);
    s
}

/// `t` with every occurrence of `pat` replaced by `val`, scanning left to
/// right over non-overlapping occurrences.
pub open spec fn replaced(t: Seq<char>, pat: Seq<char>, val: Seq<char>) -> Seq<char>
    decreases t.len(),
    when pat.len() > 0
{
    if t.len() == 0 {
        Seq::empty()
    } else if pat.len() <= t.len() && t.subrange(0, pat.len() as int) == pat {
        val + replaced(t.skip(pat.len() as int), pat, val)
    } else {
        seq![t[0]] + replaced(t.skip(1), pat, val)
    }
}

/// Whether `pat` occurs in `t` starting at position `i`.
fn matches_at(t: &str, pat: &str, i: usize) -> (b: bool)
    requires
        i + pat@.len() <= t@.len() <= usize::MAX,
    ensures
        b == (t@.subrange(i as int, i + pat@.len()) == pat@),
{
    let plen = pat.unicode_len();
    let mut j: usize = 0;
    while j < plen
        invariant
            plen == pat@.len(),
            i + plen <= t@.len() <= usize::MAX,
            j <= plen,
            forall|k: int| 0 <= k < j ==> t@[i + k] == pat@[k],
        decreases plen - j,
    {
        if t.get_char(i + j) != pat.get_char(j) {
            proof {
                assert(t@.subrange(i as int, i + pat@.len())[j as int] == t@[i + j]);
            }
            return false;
        }
        j += 1;
    }
    proof {
        assert(t@.subrange(i as int, i + pat@.len()) =~= pat@);
    }
    true
}

/// `t` with every occurrence of `pat` replaced by `val`: how a command
/// template takes its target.
pub fn replace_all(t: &str, pat: &str, val: &str) -> (r: String)
    requires
        pat@.len() > 0,
    ensures
        r@ == replaced(t@, pat@, val@),
{
    let n = t.unicode_len();
    let plen = pat.unicode_len();
    let mut r = String::new();
    let mut i: usize = 0;
    proof {
        assert(t@.skip(0) =~= t@);
        assert(r@ + replaced(t@, pat@, val@) =~= replaced(t@, pat@, val@));
    }
    while i < n
        invariant
            n == t@.len(),
            plen == pat@.len(),
            plen > 0,
            i <= n,
            r@ + replaced(t@.skip(i as int), pat@, val@) == replaced(t@, pat@, val@),
        decreases n - i,
    {
        let ghost tail = t@.skip(i as int);
        if plen <= n - i && matches_at(t, pat, i) {
            r.append(val);
            proof {
                assert(tail.subrange(0, plen as int) =~= t@.subrange(i as int, i + plen));
                assert(tail.skip(plen as int) =~= t@.skip(i + plen));
                assert(replaced(tail, pat@, val@) == val@ + replaced(
                    t@.skip(i + plen),
                    pat@,
                    val@,
                ));
                assert(r@ + replaced(t@.skip(i + plen), pat@, val@) =~= replaced(
                    t@,
                    pat@,
                    val@,
                ));
            }
            i += plen;
        } else {
            let c = t.get_char(i);
            push_char(&mut r, c);
            proof {
                if plen <= n - i {
                    assert(tail.subrange(0, plen as int) =~= t@.subrange(i as int, i + plen));
                }
                assert(tail[0] == t@[i as int]);
                assert(tail.skip(1) =~= t@.skip(i + 1));
                assert(replaced(tail, pat@, val@) == seq![t@[i as int]] + replaced(
                    t@.skip(i + 1),
                    pat@,
                    val@,
                ));
                assert(r@ + replaced(t@.skip(i + 1), pat@, val@) =~= replaced(t@, pat@, val@));
            }
            i += 1;
        }
    }
    proof {
        assert(t@.skip(n as int) =~= Seq::<char>::empty());
        assert(r@ =~= replaced(t@, pat@, val@));
    }
    r
}

/// The character for one decimal digit.
pub open spec fn digit_char(d: int) -> char {
    ((d + 48) as u8) as char
}

/// The decimal rendering of `n`, most significant digit first, no leading
/// zeros (a single `0` for zero).
pub open spec fn dec_rep(n: nat) -> Seq<char>
    decreases n,
{
    if n < 10 {
        seq![digit_char(n as int)]
    } else {
        dec_rep(n / 10) + seq![digit_char((n % 10) as int)]
    }
}

/// Appends the decimal rendering of `n`: how port numbers enter a command.
pub fn push_decimal(out: &mut String, n: u16)
    ensures
        final(out)@ == old(out)@ + dec_rep(n as nat),
    decreases n,
{
    if n < 10 {
        push_char(out, (48 + n as u8) as char);
        proof {
            assert(old(out)@.push(digit_char(n as int)) =~= old(out)@ + dec_rep(n as nat));
        }
    } else {
        push_decimal(out, n / 10);
        push_char(out, (48 + (n % 10) as u8) as char);
        proof {
            assert((old(out)@ + dec_rep((n / 10) as nat)).push(digit_char((n % 10) as int))
                =~= old(out)@ + dec_rep(n as nat));
        }
    }
}

} // verus!
