//! A map keyed by strings that keeps its entries in ascending key order, as
//! an ordered map does: each key occurs once, and walking the entries visits
//! the keys from smallest to largest.
use vstd::prelude::*;

use crate::text::{
    compare_str, lemma_str_lt_irrefl, lemma_str_lt_total, lemma_str_lt_trans,
    owned, str_eq, str_lt,
};

verus! {

pub open spec fn sorted_keys(keys: Seq<Seq<char>>) -> bool {
    forall|i: int, j: int| 0 <= i < j < keys.len() ==> str_lt(#[trigger] keys[i], #[trigger] keys[j])
}

/// The first position of `k` in `keys`.
pub open spec fn find_key(keys: Seq<Seq<char>>, k: Seq<char>) -> Option<int> {
    if exists|i: int| 0 <= i < keys.len() && keys[i] == k {
        Some(choose|i: int| 0 <= i < keys.len() && keys[i] == k)
    } else {
        None
    }
}

pub proof fn lemma_sorted_unique(keys: Seq<Seq<char>>, i: int, j: int)
    requires
        sorted_keys(keys),
        0 <= i < keys.len(),
        0 <= j < keys.len(),
        keys[i] == keys[j],
    ensures
        i == j,
{
    if i < j {
        lemma_str_lt_irrefl(keys[i]);
    } else if j < i {
        lemma_str_lt_irrefl(keys[i]);
    }
}

/// Entries `(key, value)` held in ascending key order.
#[derive(Debug, Clone, PartialEq, Eq)]
pub struct Table<V> {
    entries: Vec<(String, V)>,
}

impl<V> Table<V> {
    /// The keys, in the order the entries are held.
    pub closed spec fn keys(&self) -> Seq<Seq<char>> {
        self.entries@.map_values(|e: (String, V)| e.0@)
    }

    /// The values, in the order the entries are held.
    pub closed spec fn vals(&self) -> Seq<V> {
        self.entries@.map_values(|e: (String, V)| e.1)
    }

    /// Keys are held in strictly ascending order (so each occurs once).
    pub open spec fn wf(&self) -> bool {
        &&& sorted_keys(self.keys())
        &&& self.keys().len() == self.vals().len()
    }

    pub open spec fn size(&self) -> nat {
        self.keys().len()
    }

    pub open spec fn has(&self, k: Seq<char>) -> bool {
        self.keys().contains(k)
    }

    /// The value stored under `k`.
    pub open spec fn lookup(&self, k: Seq<char>) -> Option<V> {
        match find_key(self.keys(), k) {
            Some(i) => Some(self.vals()[i]),
            None => None,
        }
    }

    pub proof fn lemma_lens(&self)
        ensures
            self.keys().len() == self.vals().len(),
    {
    }

    pub fn new() -> (t: Self)
        ensures
            t.wf(),
            t.keys() == Seq::<Seq<char>>::empty(),
            t.vals() == Seq::<V>::empty(),
    {
        let t = Table { entries: Vec::new() };
        assert(t.keys() =~= Seq::<Seq<char>>::empty());
        assert(t.vals() =~= Seq::<V>::empty());
        t
    }

    pub fn len(&self) -> (n: usize)
        ensures
            n == self.keys().len(),
            n == self.vals().len(),
    {
        self.entries.len()
    }

    pub fn is_empty(&self) -> (b: bool)
        ensures
            b == (self.keys().len() == 0),
    {
        self.entries.len() == 0
    }

    pub fn key_at(&self, i: usize) -> (k: &str)
        requires
            i < self.keys().len(),
        ensures
            k@ == self.keys()[i as int],
    {
        self.entries[i].0.as_str()
    }

    pub fn value_at(&self, i: usize) -> (v: &V)
        requires
            i < self.keys().len(),
        ensures
            *v == self.vals()[i as int],
    {
        &self.entries[i].1
    }

    /// Position of `k` among the keys.
    pub fn position(&self, k: &str) -> (r: Option<usize>)
        ensures
            r matches Some(i) ==> i < self.keys().len() && self.keys()[i as int] == k@,
            r is None ==> !self.keys().contains(k@),
            self.wf() ==> (match r {
                Some(i) => find_key(self.keys(), k@) == Some(i as int),
                None => find_key(self.keys(), k@) is None,
            }),
    {
        let mut i: usize = 0;
        while i < self.entries.len()
            invariant
                i <= self.entries@.len(),
                forall|j: int| 0 <= j < i ==> #[trigger] self.keys()[j] != k@,
            decreases self.entries@.len() - i,
        {
            if str_eq(self.entries[i].0.as_str(), k) {
                assert(self.keys()[i as int] == self.entries@[i as int].0@);
                proof {
                    if self.wf() {
                        let c = choose|j: int| 0 <= j < self.keys().len() && self.keys()[j] == k@;
                        lemma_sorted_unique(self.keys(), c, i as int);
                    }
                }
                return Some(i);
            }
            i = i + 1;
        }
        proof {
            if self.keys().contains(k@) {
                let j = choose|j: int| 0 <= j < self.keys().len() && self.keys()[j] == k@;
                assert(self.keys()[j] != k@);
            }
        }
        None
    }

    pub fn contains_key(&self, k: &str) -> (b: bool)
        ensures
            b == self.keys().contains(k@),
    {
        self.position(k).is_some()
    }

    /// The value under `k`.
    pub fn get(&self, k: &str) -> (r: Option<&V>)
        requires
            self.wf(),
        ensures
            r matches Some(v) ==> self.lookup(k@) == Some(*v),
            r is None ==> self.lookup(k@) is None && !self.has(k@),
    {
        match self.position(k) {
            Some(i) => Some(&self.entries[i].1),
            None => None,
        }
    }

    /// Appends an entry whose key is above every key held.
    pub fn push_last(&mut self, k: String, v: V)
        requires
            old(self).wf(),
            old(self).keys().len() > 0 ==> str_lt(old(self).keys().last(), k@),
        ensures
            final(self).wf(),
            final(self).keys() == old(self).keys().push(k@),
            final(self).vals() == old(self).vals().push(v),
    {
        let ghost ok = self.keys();
        self.entries.push((k, v));
        proof {
            assert(self.keys() =~= ok.push(k@));
            assert(self.vals() =~= old(self).vals().push(v));
            assert forall|i: int, j: int| 0 <= i < j < self.keys().len() implies str_lt(
                #[trigger] self.keys()[i],
                #[trigger] self.keys()[j],
            ) by {
                if j == ok.len() && i < ok.len() - 1 {
                    lemma_str_lt_trans(ok[i], ok.last(), k@);
                }
            }
        }
    }

    /// Stores `v` under `k`, keeping the order; gives back the value that was
    /// stored under `k` before, if any.
    pub fn insert(&mut self, k: String, v: V) -> (r: Option<V>)
        requires
            old(self).wf(),
        ensures
            final(self).wf(),
            final(self).keys().to_set() == old(self).keys().to_set().insert(k@),
            final(self).lookup(k@) == Some(v),
            forall|q: Seq<char>| q != k@ ==> #[trigger] final(self).lookup(q) == old(self).lookup(q),
            old(self).has(k@) <==> r is Some,
            r matches Some(o) ==> old(self).lookup(k@) == Some(o),
            final(self).keys().len() == old(self).keys().len() + (if old(self).has(k@) { 0int } else { 1int }),
    {
        let ghost ok = self.keys();
        let ghost ov = self.vals();
        let mut i: usize = 0;
        let mut done = false;
        while i < self.entries.len() && !done
            invariant
                i <= self.entries@.len(),
                ok == self.keys(),
                ov == self.vals(),
                sorted_keys(ok),
                forall|j: int| 0 <= j < i ==> str_lt(#[trigger] ok[j], k@),
                done ==> i < ok.len() && !str_lt(ok[i as int], k@),
            decreases self.entries@.len() - i, (if done { 0int } else { 1int }),
        {
            let c = compare_str(self.entries[i].0.as_str(), k.as_str());
            assert(ok[i as int] == self.entries@[i as int].0@);
            if c != -1 {
                done = true;
            } else {
                i = i + 1;
            }
        }
        if i < self.entries.len() && str_eq(self.entries[i].0.as_str(), k.as_str()) {
            assert(ok[i as int] == self.entries@[i as int].0@);
            let old_entry = self.entries.remove(i);
            self.entries.insert(i, (k, v));
            proof {
                assert(self.keys() =~= ok);
                assert(self.vals() =~= ov.update(i as int, v));
                assert forall|q: Seq<char>| q != k@ implies #[trigger] self.lookup(q) == old(
                    self,
                ).lookup(q) by {
                    if exists|j: int| 0 <= j < ok.len() && ok[j] == q {
                        let a = choose|j: int| 0 <= j < ok.len() && ok[j] == q;
                        assert(a != i);
                    }
                }
                let a = choose|j: int| 0 <= j < ok.len() && ok[j] == k@;
                lemma_sorted_unique(ok, a, i as int);
                assert(ok.contains(k@));
                assert(ok.to_set() =~= ok.to_set().insert(k@));
            }
            Some(old_entry.1)
        } else {
            proof {
                if i < ok.len() {
                    assert(ok[i as int] == self.entries@[i as int].0@);
                    lemma_str_lt_total(ok[i as int], k@);
                }
                assert forall|j: int| i <= j < ok.len() implies str_lt(k@, #[trigger] ok[j]) by {
                    if j > i {
                        lemma_str_lt_trans(k@, ok[i as int], ok[j]);
                    }
                }
                assert(!ok.contains(k@)) by {
                    if ok.contains(k@) {
                        let a = choose|j: int| 0 <= j < ok.len() && ok[j] == k@;
                        if a < i {
                            lemma_str_lt_irrefl(k@);
                        } else {
                            lemma_str_lt_irrefl(k@);
                        }
                    }
                }
            }
            let ghost kv = k@;
            self.entries.insert(i, (k, v));
            proof {
                let nk = ok.insert(i as int, kv);
                assert(self.keys() =~= nk);
                assert(self.vals() =~= ov.insert(i as int, v));
                assert forall|a: int, b: int| 0 <= a < b < nk.len() implies str_lt(
                    #[trigger] nk[a],
                    #[trigger] nk[b],
                ) by {
                    if b < i {
                    } else if a < i && b == i {
                    } else if a < i && b > i {
                        lemma_str_lt_trans(ok[a], kv, ok[b - 1]);
                    } else if a == i {
                    } else {
                    }
                }
                assert forall|x: Seq<char>| #[trigger] nk.contains(x) <==> (ok.contains(x) || x
                    == kv) by {
                    if nk.contains(x) {
                        let c = choose|j: int| 0 <= j < nk.len() && nk[j] == x;
                        if c < i {
                            assert(ok[c] == x);
                        } else if c > i {
                            assert(ok[c - 1] == x);
                        }
                    }
                    if ok.contains(x) {
                        let a = choose|j: int| 0 <= j < ok.len() && ok[j] == x;
                        let a2 = if a < i { a } else { a + 1 };
                        assert(nk[a2] == x);
                    }
                    if x == kv {
                        assert(nk[i as int] == x);
                    }
                }
                assert(self.keys().to_set() =~= ok.to_set().insert(kv));
                assert(nk[i as int] == kv);
                assert(self.lookup(kv) == Some(v)) by {
                    let c = choose|j: int| 0 <= j < nk.len() && nk[j] == kv;
                    lemma_sorted_unique(nk, c, i as int);
                }
                assert forall|q: Seq<char>| q != kv implies #[trigger] self.lookup(q) == old(
                    self,
                ).lookup(q) by {
                    if exists|j: int| 0 <= j < ok.len() && ok[j] == q {
                        let a = choose|j: int| 0 <= j < ok.len() && ok[j] == q;
                        let a2 = if a < i { a } else { a + 1 };
                        assert(nk[a2] == q);
                        let c = choose|j: int| 0 <= j < nk.len() && nk[j] == q;
                        lemma_sorted_unique(nk, c, a2);
                    } else {
                        if exists|j: int| 0 <= j < nk.len() && nk[j] == q {
                            let c = choose|j: int| 0 <= j < nk.len() && nk[j] == q;
                            if c < i {
                                assert(ok[c] == q);
                            } else if c > i {
                                assert(ok[c - 1] == q);
                            }
                        }
                    }
                }
            }
            None
        }
    }
}

/// Two tables of strings hold the same keys and the same texts.
pub open spec fn same_texts(a: Table<String>, b: Table<String>) -> bool {
    &&& a.keys() == b.keys()
    &&& a.vals().len() == b.vals().len()
    &&& forall|i: int| 0 <= i < a.vals().len() ==> (#[trigger] a.vals()[i])@ == b.vals()[i]@
}

impl Table<String> {
    /// A copy of a table of strings, entry by entry.
    pub fn duplicate(&self) -> (r: Self)
        ensures
            same_texts(r, *self),
            self.wf() ==> r.wf(),
    {
        let mut entries: Vec<(String, String)> = Vec::new();
        let mut i: usize = 0;
        while i < self.entries.len()
            invariant
                i <= self.entries@.len(),
                entries@.len() == i,
                forall|j: int| 0 <= j < i ==> (#[trigger] entries@[j]).0@ == self.entries@[j].0@
                    && entries@[j].1@ == self.entries@[j].1@,
            decreases self.entries@.len() - i,
        {
            entries.push((owned(self.entries[i].0.as_str()), owned(self.entries[i].1.as_str())));
            i = i + 1;
        }
        let r = Table { entries };
        assert(r.keys() =~= self.keys());
        r
    }
}

} // verus!
