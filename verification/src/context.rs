//! Maps from keys to generated values.

use vstd::prelude::*;
use crate::text::{lemma_text_less_irreflexive, lemma_text_less_total, lemma_text_less_transitive, str_eq, str_less, text_less};
use crate::value::DataValue;

verus! {

/// A map from keys to values, such as the values generated so far, keyed by
/// the keys of their generators.
#[derive(Debug)]
pub struct DataValueMap {
    entries: Vec<(String, DataValue)>,
}

/// Whether the keys of `entries` are pairwise distinct.
pub open spec fn keys_distinct(entries: Seq<(String, DataValue)>) -> bool {
    forall|i: int, j: int|
        0 <= i < entries.len() && 0 <= j < entries.len() && i != j ==> entries[i].0@ != entries[j].0@
}

/// Whether some entry has key `k`.
pub open spec fn has_key(entries: Seq<(String, DataValue)>, k: Seq<char>) -> bool {
    exists|i: int| 0 <= i < entries.len() && entries[i].0@ == k
}

/// The position of the entry with key `k`.
pub open spec fn key_index(entries: Seq<(String, DataValue)>, k: Seq<char>) -> int {
    choose|i: int| 0 <= i < entries.len() && entries[i].0@ == k
}

/// The map that `entries` stand for.
pub open spec fn entries_map(entries: Seq<(String, DataValue)>) -> Map<Seq<char>, DataValue> {
    Map::new(|k: Seq<char>| has_key(entries, k), |k: Seq<char>| entries[key_index(entries, k)].1)
}

/// With distinct keys, the entry at `i` is the one that its key finds.
pub proof fn lemma_key_index(entries: Seq<(String, DataValue)>, i: int)
    requires
        keys_distinct(entries),
        0 <= i < entries.len(),
    ensures
        has_key(entries, entries[i].0@),
        key_index(entries, entries[i].0@) == i,
        entries_map(entries).contains_key(entries[i].0@),
        entries_map(entries)[entries[i].0@] == entries[i].1,
{
    assert(has_key(entries, entries[i].0@));
}

impl DataValueMap {
    /// The keys of the entries are distinct.
    #[verifier::type_invariant]
    pub open spec fn inv(&self) -> bool {
        keys_distinct(self.entry_seq())
    }

    /// The entries in insertion order.
    pub closed spec fn entry_seq(&self) -> Seq<(String, DataValue)> {
        self.entries@
    }

    /// The map from keys to values.
    pub open spec fn view(&self) -> Map<Seq<char>, DataValue> {
        entries_map(self.entry_seq())
    }

    /// The empty map.
    pub fn new() -> (r: Self)
        ensures
            r.view() == Map::<Seq<char>, DataValue>::empty(),
            r.entry_seq().len() == 0,
    {
        let r = DataValueMap { entries: Vec::new() };
        assert(r.view() =~= Map::<Seq<char>, DataValue>::empty());
        r
    }

    /// The number of entries.
    pub fn len(&self) -> (r: usize)
        ensures
            r == self.entry_seq().len(),
    {
        self.entries.len()
    }

    /// The position of the entry with key `key`.
    fn find(&self, key: &str) -> (r: Option<usize>)
        ensures
            match r {
                Some(i) => i < self.entry_seq().len() && self.entry_seq()[i as int].0@ == key@,
                None => !has_key(self.entry_seq(), key@),
            },
    {
        let mut i: usize = 0;
        while i < self.entries.len()
            invariant
                i <= self.entries@.len(),
                forall|j: int| 0 <= j < i ==> self.entries@[j].0@ != key@,
            decreases self.entries@.len() - i,
        {
            if str_eq(self.entries[i].0.as_str(), key) {
                return Some(i);
            }
            i = i + 1;
        }
        None
    }

    /// The value at `key`.
    pub fn get(&self, key: &str) -> (r: Option<&DataValue>)
        ensures
            match r {
                Some(v) => self.view().contains_key(key@) && self.view()[key@] == *v,
                None => !self.view().contains_key(key@),
            },
    {
        proof {
            use_type_invariant(self);
        }
        match self.find(key) {
            Some(i) => {
                proof {
                    lemma_key_index(self.entries@, i as int);
                }
                Some(&self.entries[i].1)
            },
            None => None,
        }
    }

    /// Whether the map has a value at `key`.
    pub fn contains_key(&self, key: &str) -> (r: bool)
        ensures
            r == self.view().contains_key(key@),
    {
        match self.get(key) {
            Some(_) => true,
            None => false,
        }
    }

    /// Sets the value at `key` to `value`, replacing any value there.
    pub fn insert(&mut self, key: String, value: DataValue)
        ensures
            final(self).view() == old(self).view().insert(key@, value),
    {
        proof {
            use_type_invariant(&*self);
        }
        let ghost old_entries = self.entries@;
        match self.find(key.as_str()) {
            Some(i) => {
                let ghost k = key@;
                let mut entries: Vec<(String, DataValue)> = Vec::new();
                std::mem::swap(&mut entries, &mut self.entries);
                entries.set(i, (key, value));
                let ghost new_entries = entries@;
                assert(keys_distinct(new_entries));
                self.entries = entries;
                proof {
                    assert forall|k2: Seq<char>| has_key(new_entries, k2) <==> has_key(old_entries, k2) by {
                        if has_key(old_entries, k2) {
                            let j = choose|j: int| 0 <= j < old_entries.len() && old_entries[j].0@ == k2;
                            assert(new_entries[j].0@ == k2);
                        }
                        if has_key(new_entries, k2) {
                            let j = choose|j: int| 0 <= j < new_entries.len() && new_entries[j].0@ == k2;
                            assert(old_entries[j].0@ == k2);
                        }
                    }
                    assert forall|k2: Seq<char>| has_key(new_entries, k2) implies entries_map(new_entries)[k2]
                        == old(self).view().insert(k, value)[k2] by {
                        let j = choose|j: int| 0 <= j < new_entries.len() && new_entries[j].0@ == k2;
                        lemma_key_index(new_entries, j);
                        if j != i {
                            lemma_key_index(old_entries, j);
                        }
                    }
                    assert(entries_map(new_entries) =~= old(self).view().insert(k, value));
                }
            },
            None => {
                let ghost k = key@;
                let mut entries: Vec<(String, DataValue)> = Vec::new();
                std::mem::swap(&mut entries, &mut self.entries);
                entries.push((key, value));
                let ghost new_entries = entries@;
                assert(keys_distinct(new_entries));
                self.entries = entries;
                proof {
                    assert forall|k2: Seq<char>| has_key(new_entries, k2) <==> (has_key(old_entries, k2) || k2 == k) by {
                        if has_key(old_entries, k2) {
                            let j = choose|j: int| 0 <= j < old_entries.len() && old_entries[j].0@ == k2;
                            assert(new_entries[j].0@ == k2);
                        }
                        if k2 == k {
                            assert(new_entries[old_entries.len() as int].0@ == k2);
                        }
                        if has_key(new_entries, k2) && k2 != k {
                            let j = choose|j: int| 0 <= j < new_entries.len() && new_entries[j].0@ == k2;
                            assert(old_entries[j].0@ == k2);
                        }
                    }
                    assert forall|k2: Seq<char>| has_key(new_entries, k2) implies entries_map(new_entries)[k2]
                        == old(self).view().insert(k, value)[k2] by {
                        let j = choose|j: int| 0 <= j < new_entries.len() && new_entries[j].0@ == k2;
                        lemma_key_index(new_entries, j);
                        if j < old_entries.len() {
                            lemma_key_index(old_entries, j);
                        }
                    }
                    assert(entries_map(new_entries) =~= old(self).view().insert(k, value));
                }
            },
        }
    }

    /// The key and value of the entry at `index`, in insertion order.
    pub fn entry_at(&self, index: usize) -> (r: (&String, &DataValue))
        requires
            index < self.entry_seq().len(),
        ensures
            *r.0 == self.entry_seq()[index as int].0,
            *r.1 == self.entry_seq()[index as int].1,
    {
        let e = &self.entries[index];
        (&e.0, &e.1)
    }

    /// A copy of this map.
    pub fn duplicate(&self) -> (r: Self)
        ensures
            r.view() == self.view(),
            r.entry_seq() == self.entry_seq(),
    {
        proof {
            use_type_invariant(self);
        }
        let mut entries: Vec<(String, DataValue)> = Vec::new();
        let mut i: usize = 0;
        while i < self.entries.len()
            invariant
                i <= self.entries@.len(),
                entries@ =~= self.entries@.take(i as int),
            decreases self.entries@.len() - i,
        {
            let e = &self.entries[i];
            entries.push((e.0.clone(), e.1.duplicate()));
            i = i + 1;
        }
        assert(entries@ =~= self.entries@);
        DataValueMap { entries }
    }
}

/// Whether `order` lists positions of `entries`, as many as there are
/// entries, whose keys come in increasing order.
pub open spec fn in_key_order(entries: Seq<(String, DataValue)>, order: Seq<usize>) -> bool {
    &&& order.len() == entries.len()
    &&& forall|i: int| 0 <= i < order.len() ==> (#[trigger] order[i] as int) < entries.len()
    &&& forall|i: int, j: int|
        #![trigger order[i], order[j]]
        0 <= i < j < order.len() ==> text_less(entries[order[i] as int].0@, entries[order[j] as int].0@)
}

impl DataValueMap {
    /// The positions of the entries, ordered by their keys.
    pub fn key_order(&self) -> (r: Vec<usize>)
        ensures
            in_key_order(self.entry_seq(), r@),
    {
        proof {
            use_type_invariant(self);
        }
        let ghost es = self.entries@;
        let n = self.entries.len();
        let mut rest: Vec<usize> = Vec::new();
        let mut k: usize = 0;
        while k < n
            invariant
                n == es.len(),
                k <= n,
                rest@.len() == k,
                forall|j: int| 0 <= j < k ==> rest@[j] == j,
            decreases n - k,
        {
            rest.push(k);
            k = k + 1;
        }
        let mut out: Vec<usize> = Vec::new();
        while rest.len() > 0
            invariant
                es == self.entries@,
                n == es.len(),
                keys_distinct(es),
                out@.len() + rest@.len() == n,
                forall|i: int| 0 <= i < out@.len() ==> (#[trigger] out@[i] as int) < n,
                forall|i: int| 0 <= i < rest@.len() ==> (#[trigger] rest@[i] as int) < n,
                forall|i: int, j: int| 0 <= i < j < rest@.len() ==> #[trigger] rest@[i] != #[trigger] rest@[j],
                forall|i: int, j: int|
                    #![trigger out@[i], out@[j]]
                    0 <= i < j < out@.len() ==> text_less(es[out@[i] as int].0@, es[out@[j] as int].0@),
                forall|i: int, j: int|
                    #![trigger out@[i], rest@[j]]
                    0 <= i < out@.len() && 0 <= j < rest@.len() ==> text_less(
                        es[out@[i] as int].0@,
                        es[rest@[j] as int].0@,
                    ),
            decreases rest@.len(),
        {
            let mut best: usize = 0;
            let mut i: usize = 1;
            proof {
                lemma_text_less_irreflexive(es[rest@[0] as int].0@);
            }
            while i < rest.len()
                invariant
                    es == self.entries@,
                    n == es.len(),
                    rest@.len() > 0,
                    forall|j: int| 0 <= j < rest@.len() ==> (#[trigger] rest@[j] as int) < n,
                    best < i <= rest@.len(),
                    forall|j: int|
                        0 <= j < i ==> !text_less(es[(#[trigger] rest@[j]) as int].0@, es[rest@[best as int] as int].0@),
                decreases rest@.len() - i,
            {
                let candidate = &self.entries[rest[i]];
                let current = &self.entries[rest[best]];
                if str_less(candidate.0.as_str(), current.0.as_str()) {
                    proof {
                        let ki = es[rest@[i as int] as int].0@;
                        let kb = es[rest@[best as int] as int].0@;
                        assert forall|j: int| 0 <= j < i + 1 implies !text_less(
                            es[(#[trigger] rest@[j]) as int].0@,
                            ki,
                        ) by {
                            if j == i {
                                lemma_text_less_irreflexive(ki);
                            } else if text_less(es[rest@[j] as int].0@, ki) {
                                lemma_text_less_transitive(es[rest@[j] as int].0@, ki, kb);
                            }
                        }
                    }
                    best = i;
                }
                i = i + 1;
            }
            let ghost before = rest@;
            let ghost out_before = out@;
            let p = rest.remove(best);
            proof {
                let kp = es[p as int].0@;
                assert forall|j: int| 0 <= j < rest@.len() implies text_less(kp, es[(#[trigger] rest@[j]) as int].0@) by {
                    let q = rest@[j];
                    let jj = if j < best { j } else { j + 1 };
                    assert(before[jj] == q);
                    assert(q != p);
                    assert(es[q as int].0@ != kp);
                    lemma_text_less_total(kp, es[q as int].0@);
                }
            }
            out.push(p);
            proof {
                assert forall|i: int, j: int| 0 <= i < j < out@.len() implies text_less(
                    es[(#[trigger] out@[i]) as int].0@,
                    es[(#[trigger] out@[j]) as int].0@,
                ) by {
                    if j == out@.len() - 1 {
                        assert(out@[j] == before[best as int]);
                        assert(out@[i] == out_before[i]);
                    }
                }
                assert forall|i: int, j: int| 0 <= i < out@.len() && 0 <= j < rest@.len() implies text_less(
                    es[(#[trigger] out@[i]) as int].0@,
                    es[(#[trigger] rest@[j]) as int].0@,
                ) by {
                    let jj = if j < best { j } else { j + 1 };
                    assert(before[jj] == rest@[j]);
                    if i < out@.len() - 1 {
                        assert(out@[i] == out_before[i]);
                    }
                }
                assert forall|i: int, j: int| 0 <= i < j < rest@.len() implies #[trigger] rest@[i] != #[trigger] rest@[j] by {
                    let ii = if i < best { i } else { i + 1 };
                    let jj = if j < best { j } else { j + 1 };
                    assert(before[ii] == rest@[i]);
                    assert(before[jj] == rest@[j]);
                }
            }
        }
        out
    }
}

/// A read gives back what the last write at its key wrote, and a write
/// leaves the other keys as they were.
pub proof fn law_read_after_write(m: Map<Seq<char>, DataValue>, k: Seq<char>, v: DataValue, other: Seq<char>)
    requires
        other != k,
    ensures
        m.insert(k, v).contains_key(k),
        m.insert(k, v)[k] == v,
        m.insert(k, v).contains_key(other) == m.contains_key(other),
        m.contains_key(other) ==> m.insert(k, v)[other] == m[other],
{
}

} // verus!
