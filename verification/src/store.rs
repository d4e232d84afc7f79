//! A small mapping from string keys to values, each key held at most once:
//! the shape shared by the tunnel registry and the in-memory vault.

use vstd::prelude::*;

verus! {

struct Slot<V> {
    key: String,
    value: V,
}

/// A keyed store. Its view is the map from key text to value; `wf` says that
/// no key is held twice.
pub struct KeyedStore<V> {
    slots: Vec<Slot<V>>,
}

spec fn map_of<V>(slots: Seq<Slot<V>>) -> Map<Seq<char>, V>
    decreases slots.len(),
{
    if slots.len() == 0 {
        Map::empty()
    } else {
        map_of(slots.drop_last()).insert(slots.last().key@, slots.last().value)
    }
}

impl<V> View for KeyedStore<V> {
    type V = Map<Seq<char>, V>;

    closed spec fn view(&self) -> Map<Seq<char>, V> {
        map_of(self.slots@)
    }
}

spec fn unique_keys<V>(slots: Seq<Slot<V>>) -> bool {
    forall|i: int, j: int|
        0 <= i < j < slots.len() ==> slots[i].key@ != slots[j].key@
}

proof fn lemma_map_of_contains<V>(slots: Seq<Slot<V>>, k: Seq<char>)
    ensures
        map_of(slots).contains_key(k) <==> exists|i: int|
            0 <= i < slots.len() && slots[i].key@ == k,
    decreases slots.len(),
{
    if slots.len() > 0 {
        lemma_map_of_contains(slots.drop_last(), k);
        let last = slots.len() - 1;
        if slots[last].key@ == k {
            assert(0 <= last < slots.len() && slots[last].key@ == k);
        } else {
            if exists|i: int| 0 <= i < slots.drop_last().len() && slots.drop_last()[i].key@
                == k {
                let i = choose|i: int|
                    0 <= i < slots.drop_last().len() && slots.drop_last()[i].key@ == k;
                assert(slots[i].key@ == k);
            }
            if exists|i: int| 0 <= i < slots.len() && slots[i].key@ == k {
                let i = choose|i: int| 0 <= i < slots.len() && slots[i].key@ == k;
                assert(slots.drop_last()[i].key@ == k);
            }
        }
    }
}

proof fn lemma_map_of_index<V>(slots: Seq<Slot<V>>, i: int, k: Seq<char>)
    requires
        unique_keys(slots),
        0 <= i < slots.len(),
        slots[i].key@ == k,
    ensures
        map_of(slots).contains_key(k),
        map_of(slots)[k] == slots[i].value,
    decreases slots.len(),
{
    let last = slots.len() - 1;
    if i == last {
    } else {
        assert(slots[i].key@ != slots[last].key@);
        assert(slots.drop_last()[i].key@ == k);
        lemma_map_of_index(slots.drop_last(), i, k);
    }
}

proof fn lemma_map_of_remove<V>(slots: Seq<Slot<V>>, i: int, k: Seq<char>)
    requires
        unique_keys(slots),
        0 <= i < slots.len(),
        slots[i].key@ == k,
    ensures
        map_of(slots.remove(i)) == map_of(slots).remove(k),
    decreases slots.len(),
{
    let last = slots.len() - 1;
    slots.remove_ensures(i);
    if i == last {
        assert(slots.remove(i) =~= slots.drop_last());
        lemma_map_of_contains(slots.drop_last(), k);
        assert(forall|j: int|
            0 <= j < slots.drop_last().len() ==> slots.drop_last()[j].key@ != k);
        assert(!map_of(slots.drop_last()).contains_key(k));
        assert(map_of(slots.drop_last()).insert(k, slots[i].value).remove(k) =~= map_of(
            slots.drop_last(),
        ));
    } else {
        let shorter = slots.remove(i);
        assert(shorter.len() == slots.len() - 1);
        assert(shorter.last() == slots.last());
        assert(shorter.drop_last() =~= slots.drop_last().remove(i));
        assert(slots.drop_last()[i].key@ == k);
        lemma_map_of_remove(slots.drop_last(), i, k);
        let lk = slots.last().key@;
        let lv = slots.last().value;
        assert(lk != k);
        assert(map_of(shorter) == map_of(slots.drop_last()).remove(k).insert(lk, lv));
        assert(map_of(slots.drop_last()).remove(k).insert(lk, lv) =~= map_of(
            slots.drop_last(),
        ).insert(lk, lv).remove(k));
    }
}

impl<V> KeyedStore<V> {
    /// No key is held twice.
    pub closed spec fn wf(&self) -> bool {
        unique_keys(self.slots@)
    }

    /// An empty store.
    pub fn new() -> (s: Self)
        ensures
            s.wf(),
            s@ == Map::<Seq<char>, V>::empty(),
    {
        KeyedStore { slots: Vec::new() }
    }

    fn index_of(&self, key: &str) -> (r: Option<usize>)
        ensures
            match r {
                Some(i) => i < self.slots@.len() && self.slots@[i as int].key@ == key@,
                None => forall|i: int|
                    0 <= i < self.slots@.len() ==> self.slots@[i].key@ != key@,
            },
    {
        let k = key.to_owned();
        let n = self.slots.len();
        let mut i: usize = 0;
        while i < n
            invariant
                n == self.slots@.len(),
                i <= n,
                k@ == key@,
                forall|j: int| 0 <= j < i ==> self.slots@[j].key@ != key@,
            decreases n - i,
        {
            if self.slots[i].key == k {
                return Some(i);
            }
            i += 1;
        }
        None
    }

    /// Whether a value is held under `key`.
    pub fn contains(&self, key: &str) -> (b: bool)
        ensures
            b == self@.contains_key(key@),
    {
        proof {
            lemma_map_of_contains(self.slots@, key@);
        }
        match self.index_of(key) {
            Some(i) => {
                proof {
                    assert(0 <= i < self.slots@.len() && self.slots@[i as int].key@ == key@);
                }
                true
            },
            None => false,
        }
    }

    /// The value held under `key`, if any.
    pub fn get(&self, key: &str) -> (r: Option<&V>)
        requires
            self.wf(),
        ensures
            match r {
                Some(v) => self@.contains_key(key@) && *v == self@[key@],
                None => !self@.contains_key(key@),
            },
    {
        proof {
            lemma_map_of_contains(self.slots@, key@);
        }
        match self.index_of(key) {
            Some(i) => {
                proof {
                    lemma_map_of_index(self.slots@, i as int, key@);
                }
                Some(&self.slots[i].value)
            },
            None => None,
        }
    }

    /// Removes the value held under `key` and returns it.
    pub fn remove(&mut self, key: &str) -> (r: Option<V>)
        requires
            old(self).wf(),
        ensures
            final(self).wf(),
            final(self)@ == old(self)@.remove(key@),
            old(self)@.contains_key(key@) ==> r == Some(old(self)@[key@]),
            !old(self)@.contains_key(key@) ==> r == None::<V> && final(self)@ == old(self)@,
    {
        proof {
            lemma_map_of_contains(self.slots@, key@);
        }
        match self.index_of(key) {
            Some(i) => {
                let ghost pre = self.slots@;
                proof {
                    lemma_map_of_index(pre, i as int, key@);
                    lemma_map_of_remove(pre, i as int, key@);
                    pre.remove_ensures(i as int);
                }
                let slot = self.slots.remove(i);
                proof {
                    assert(unique_keys(self.slots@)) by {
                        assert forall|a: int, b: int|
                            0 <= a < b < self.slots@.len() implies self.slots@[a].key@
                            != self.slots@[b].key@ by {
                            let a0 = if a < i { a } else { a + 1 };
                            let b0 = if b < i { b } else { b + 1 };
                            assert(self.slots@[a] == pre[a0]);
                            assert(self.slots@[b] == pre[b0]);
                        }
                    }
                }
                Some(slot.value)
            },
            None => {
                proof {
                    assert(old(self)@.remove(key@) =~= old(self)@);
                }
                None
            },
        }
    }

    /// Stores `value` under `key`, replacing any value held there.
    pub fn insert(&mut self, key: &str, value: V)
        requires
            old(self).wf(),
        ensures
            final(self).wf(),
            final(self)@ == old(self)@.insert(key@, value),
    {
        let _ = self.remove(key);
        let ghost mid = self.slots@;
        proof {
            lemma_map_of_contains(mid, key@);
        }
        self.slots.push(Slot { key: key.to_owned(), value });
        proof {
            assert(self.slots@.drop_last() =~= mid);
            assert(self.slots@.last().key@ == key@);
            assert(map_of(self.slots@) == map_of(mid).insert(key@, value));
            assert(map_of(mid).insert(key@, value) =~= old(self)@.insert(key@, value));
            assert(forall|j: int| 0 <= j < mid.len() ==> mid[j].key@ != key@);
            assert(unique_keys(self.slots@)) by {
                assert forall|a: int, b: int|
                    0 <= a < b < self.slots@.len() implies self.slots@[a].key@
                    != self.slots@[b].key@ by {
                    if b < self.slots@.len() - 1 {
                        assert(self.slots@[a] == mid[a]);
                        assert(self.slots@[b] == mid[b]);
                    } else {
                        assert(self.slots@[a] == mid[a]);
                    }
                }
            }
        }
    }
}

} // verus!
