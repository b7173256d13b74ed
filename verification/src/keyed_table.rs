//! A table of records keyed by identity, enumerated in identity order.
//!
//! Membership, the registry and the observation store all keep at most one
//! record per concrete engine instance and enumerate their records in
//! ascending `EngineInstanceId` order. This table provides that structure
//! once, for any record type that exposes its key.

use vstd::prelude::*;
use crate::identity::Identifier;
use crate::text::{lemma_seq_lt_irreflexive, lemma_seq_lt_total, lemma_seq_lt_transitive, seq_lt};

verus! {

/// A record that is stored under the identity it carries.
pub trait Keyed: View + Sized {
    /// The identity text under which a record with this value is stored.
    spec fn key_view(v: Self::V) -> Seq<char>;

    /// Returns the identity under which the record is stored.
    fn key(&self) -> (r: &Identifier)
        ensures
            r@ == Self::key_view(self@),
    ;

    /// Returns an independent copy of the record.
    fn copy_of(&self) -> (r: Self)
        ensures
            r@ == self@,
    ;
}

/// Whether a key sequence ascends strictly.
pub open spec fn ascending(k: Seq<Seq<char>>) -> bool {
    forall|i: int, j: int| 0 <= i < j < k.len() ==> seq_lt(#[trigger] k[i], #[trigger] k[j])
}

/// Records keyed by identity.
#[derive(Debug, PartialEq, Eq)]
pub struct KeyedTable<R> {
    entries: Vec<R>,
}

impl<R: Keyed> KeyedTable<R> {
    /// The keys of the records, in enumeration order.
    pub open spec fn keys(&self) -> Seq<Seq<char>> {
        self.records().map_values(|v: R::V| R::key_view(v))
    }

    /// The records, in enumeration order.
    pub closed spec fn records(&self) -> Seq<R::V> {
        self.entries@.map_values(|r: R| r@)
    }

    /// The position of the record with key `k`, when there is one.
    pub open spec fn index_of(&self, k: Seq<char>) -> int {
        choose|i: int| 0 <= i < self.keys().len() && #[trigger] self.keys()[i] == k
    }

    /// Whether a record is stored under `k`.
    pub open spec fn has(&self, k: Seq<char>) -> bool {
        exists|i: int| 0 <= i < self.keys().len() && #[trigger] self.keys()[i] == k
    }

    /// The table as a map from keys to records.
    pub open spec fn as_map(&self) -> Map<Seq<char>, R::V> {
        Map::new(|k: Seq<char>| self.has(k), |k: Seq<char>| self.records()[self.index_of(k)])
    }

    /// The well-formedness invariant: keys ascend strictly.
    pub closed spec fn wf(&self) -> bool {
        ascending(self.keys())
    }

    /// The keys of a well-formed table ascend strictly.
    pub proof fn lemma_ascending(&self)
        requires
            self.wf(),
        ensures
            ascending(self.keys()),
    {
    }

    /// In a well-formed table each key names exactly its own record.
    pub proof fn lemma_index(&self, i: int)
        requires
            self.wf(),
            0 <= i < self.keys().len(),
        ensures
            self.has(self.keys()[i]),
            self.index_of(self.keys()[i]) == i,
            self.as_map()[self.keys()[i]] == self.records()[i],
    {
        let k = self.keys()[i];
        assert(self.has(k));
        let j = self.index_of(k);
        if j < i {
            assert(seq_lt(self.keys()[j], self.keys()[i]));
            lemma_seq_lt_irreflexive(k);
        } else if j > i {
            assert(seq_lt(self.keys()[i], self.keys()[j]));
            lemma_seq_lt_irreflexive(k);
        }
    }

    /// The number of records equals the size of the map.
    pub proof fn lemma_len(&self)
        requires
            self.wf(),
        ensures
            self.as_map().dom().finite(),
            self.as_map().len() == self.keys().len(),
    {
        let keys = self.keys();
        assert forall|i: int, j: int| 0 <= i < keys.len() && 0 <= j < keys.len() && i != j
            implies keys[i] != keys[j] by {
            if i < j {
                lemma_seq_lt_irreflexive(keys[i]);
            } else {
                lemma_seq_lt_irreflexive(keys[j]);
            }
        }
        assert(keys.no_duplicates());
        assert(self.as_map().dom() =~= keys.to_set());
        keys.unique_seq_to_set();
    }

    /// The keyed map and the ordered records describe the same records.
    pub proof fn lemma_consistent(&self)
        requires
            self.wf(),
        ensures
            self.as_map().dom().finite(),
            self.as_map().len() == self.records().len(),
            forall|i: int|
                0 <= i < self.records().len() ==> self.as_map().dom().contains(
                    R::key_view(#[trigger] self.records()[i]),
                ) && self.as_map()[R::key_view(self.records()[i])] == self.records()[i],
            forall|k: Seq<char>| #[trigger] self.as_map().dom().contains(k) ==> R::key_view(
                self.as_map()[k],
            ) == k,
    {
        self.lemma_len();
        assert forall|i: int| 0 <= i < self.records().len() implies self.as_map().dom().contains(
            R::key_view(#[trigger] self.records()[i]),
        ) && self.as_map()[R::key_view(self.records()[i])] == self.records()[i] by {
            self.lemma_index(i);
        }
        assert forall|k: Seq<char>| #[trigger] self.as_map().dom().contains(k) implies R::key_view(
            self.as_map()[k],
        ) == k by {
            let i = choose|i: int| 0 <= i < self.keys().len() && #[trigger] self.keys()[i] == k;
            self.lemma_index(i);
        }
    }

    /// Creates an empty table.
    pub fn new() -> (r: Self)
        ensures
            r.wf(),
            r.keys() == Seq::<Seq<char>>::empty(),
            r.records() == Seq::<R::V>::empty(),
            r.as_map() == Map::<Seq<char>, R::V>::empty(),
    {
        let r = KeyedTable { entries: Vec::new() };
        assert(r.keys() =~= Seq::<Seq<char>>::empty());
        assert(r.records() =~= Seq::<R::V>::empty());
        assert(r.as_map() =~= Map::<Seq<char>, R::V>::empty());
        r
    }

    /// Number of records.
    pub fn len(&self) -> (r: usize)
        requires
            self.wf(),
        ensures
            r == self.as_map().len(),
            r == self.keys().len(),
    {
        proof {
            self.lemma_len();
        }
        self.entries.len()
    }

    /// All records, in enumeration order.
    pub fn entries(&self) -> (r: &[R])
        ensures
            r@.map_values(|x: R| x@) == self.records(),
    {
        self.entries.as_slice()
    }

    /// Finds the position of the record stored under `key`.
    pub fn find(&self, key: &Identifier) -> (r: Option<usize>)
        requires
            self.wf(),
        ensures
            r is Some <==> self.has(key@),
            r matches Some(i) ==> i < self.keys().len() && self.keys()[i as int] == key@
                && self.index_of(key@) == i,
    {
        let mut i: usize = 0;
        while i < self.entries.len()
            invariant
                self.wf(),
                i <= self.entries@.len(),
                forall|j: int| 0 <= j < i ==> self.keys()[j] != key@,
            decreases self.entries@.len() - i,
        {
            if self.entries[i].key().same_as(key) {
                proof {
                    self.lemma_index(i as int);
                }
                return Some(i);
            }
            i = i + 1;
        }
        None
    }

    /// Borrows the record stored under `key`.
    pub fn get(&self, key: &Identifier) -> (r: Option<&R>)
        requires
            self.wf(),
        ensures
            r is Some <==> self.as_map().dom().contains(key@),
            r matches Some(x) ==> x@ == self.as_map()[key@] && R::key_view(x@) == key@,
    {
        match self.find(key) {
            Some(i) => {
                proof {
                    self.lemma_index(i as int);
                }
                Some(&self.entries[i])
            },
            None => None,
        }
    }

    /// Stores `record`, replacing the record stored under the same key.
    pub fn upsert(&mut self, record: R)
        requires
            old(self).wf(),
        ensures
            final(self).wf(),
            final(self).as_map() == old(self).as_map().insert(R::key_view(record@), record@),
    {
        let ghost k = R::key_view(record@);
        let ghost rv = record@;
        let ghost old_map = self.as_map();
        let ghost ok = self.keys();
        let ghost orec = self.records();
        let mut i: usize = 0;
        while i < self.entries.len() && self.entries[i].key().precedes(record.key())
            invariant
                self.keys() == ok,
                self.records() == orec,
                k == R::key_view(record@),
                i <= self.entries@.len(),
                forall|j: int| 0 <= j < i ==> seq_lt(#[trigger] ok[j], k),
            decreases self.entries@.len() - i,
        {
            assert(ok[i as int] == R::key_view(self.entries@[i as int]@));
            i = i + 1;
        }
        let replace = i < self.entries.len() && self.entries[i].key().same_as(record.key());
        proof {
            if i < ok.len() {
                assert(ok[i as int] == R::key_view(self.entries@[i as int]@));
            }
        }
        if replace {
            self.entries.set(i, record);
        } else {
            self.entries.insert(i, record);
        }
        let ghost nk = self.keys();
        let ghost nr = self.records();
        proof {
            if replace {
                assert(nk =~= ok.update(i as int, k));
                assert(nr =~= orec.update(i as int, rv));
                assert forall|a: int, b: int| 0 <= a < b < nk.len() implies seq_lt(
                    #[trigger] nk[a],
                    #[trigger] nk[b],
                ) by {
                    assert(seq_lt(ok[a], ok[b]));
                }
            } else {
                if i < ok.len() {
                    assert(!seq_lt(ok[i as int], k));
                    lemma_seq_lt_total(ok[i as int], k);
                }
                assert(nk =~= ok.insert(i as int, k));
                assert(nr =~= orec.insert(i as int, rv));
                assert forall|a: int, b: int| 0 <= a < b < nk.len() implies seq_lt(
                    #[trigger] nk[a],
                    #[trigger] nk[b],
                ) by {
                    if b == i {
                    } else if a == i {
                        if b > i + 1 {
                            lemma_seq_lt_transitive(k, ok[i as int], ok[b - 1]);
                        }
                    } else if a < i && b > i {
                        if b > i + 1 {
                            lemma_seq_lt_transitive(k, ok[i as int], ok[b - 1]);
                        }
                        lemma_seq_lt_transitive(ok[a], k, ok[b - 1]);
                    } else if a > i {
                        assert(seq_lt(ok[a - 1], ok[b - 1]));
                    } else {
                        assert(seq_lt(ok[a], ok[b]));
                    }
                }
            }
            assert(self.wf());
            let nm = self.as_map();
            let target = old_map.insert(k, rv);
            assert forall|q: Seq<char>| nm.dom().contains(q) <==> target.dom().contains(q) by {
                if nm.dom().contains(q) {
                    let j = choose|j: int| 0 <= j < nk.len() && #[trigger] nk[j] == q;
                    if q != k {
                        if replace || j < i {
                            assert(ok[j] == q);
                        } else {
                            assert(ok[j - 1] == q);
                        }
                    }
                }
                if target.dom().contains(q) {
                    if q == k {
                        assert(nk[i as int] == q);
                    } else {
                        let j = choose|j: int| 0 <= j < ok.len() && #[trigger] ok[j] == q;
                        if replace || j < i {
                            assert(nk[j] == q);
                        } else {
                            assert(nk[j + 1] == q);
                        }
                    }
                }
            }
            assert forall|q: Seq<char>| nm.dom().contains(q) implies nm[q] == target[q] by {
                let j = choose|j: int| 0 <= j < nk.len() && #[trigger] nk[j] == q;
                self.lemma_index(j);
                if q == k {
                    self.lemma_index(i as int);
                } else {
                    if replace || j < i {
                        old(self).lemma_index(j);
                    } else {
                        old(self).lemma_index(j - 1);
                    }
                }
            }
            assert(nm =~= target);
        }
    }

    /// Removes and returns the record stored under `key`.
    pub fn remove(&mut self, key: &Identifier) -> (r: Option<R>)
        requires
            old(self).wf(),
        ensures
            final(self).wf(),
            r is Some <==> old(self).as_map().dom().contains(key@),
            r matches Some(x) ==> x@ == old(self).as_map()[key@] && R::key_view(x@) == key@,
            final(self).as_map() == old(self).as_map().remove(key@),
    {
        match self.find(key) {
            None => {
                assert(self.as_map() =~= self.as_map().remove(key@));
                None
            },
            Some(i) => {
                let ghost ok = self.keys();
                let ghost orec = self.records();
                let ghost old_map = self.as_map();
                proof {
                    self.lemma_index(i as int);
                }
                let x = self.entries.remove(i);
                proof {
                    let nk = self.keys();
                    assert(nk =~= ok.remove(i as int));
                    assert(self.records() =~= orec.remove(i as int));
                    assert forall|a: int, b: int| 0 <= a < b < nk.len() implies seq_lt(
                        #[trigger] nk[a],
                        #[trigger] nk[b],
                    ) by {
                        if a < i && b >= i {
                            assert(seq_lt(ok[a], ok[b + 1]));
                        } else if a >= i {
                            assert(seq_lt(ok[a + 1], ok[b + 1]));
                        } else {
                            assert(seq_lt(ok[a], ok[b]));
                        }
                    }
                    let nm = self.as_map();
                    let target = old_map.remove(key@);
                    assert forall|q: Seq<char>| nm.dom().contains(q) <==> target.dom().contains(
                        q,
                    ) by {
                        if nm.dom().contains(q) {
                            let j = choose|j: int| 0 <= j < nk.len() && #[trigger] nk[j] == q;
                            if j < i {
                                assert(ok[j] == q);
                                old(self).lemma_index(j);
                            } else {
                                assert(ok[j + 1] == q);
                                old(self).lemma_index(j + 1);
                            }
                        }
                        if target.dom().contains(q) {
                            let j = choose|j: int| 0 <= j < ok.len() && #[trigger] ok[j] == q;
                            if j < i {
                                assert(nk[j] == q);
                            } else if j > i {
                                assert(nk[j - 1] == q);
                            }
                        }
                    }
                    assert forall|q: Seq<char>| nm.dom().contains(q) implies nm[q] == target[q] by {
                        let j = choose|j: int| 0 <= j < nk.len() && #[trigger] nk[j] == q;
                        self.lemma_index(j);
                        if j < i {
                            old(self).lemma_index(j);
                        } else {
                            old(self).lemma_index(j + 1);
                        }
                    }
                    assert(nm =~= target);
                }
                Some(x)
            },
        }
    }

    /// Returns an independent copy of the table.
    pub fn copy_of(&self) -> (r: Self)
        requires
            self.wf(),
        ensures
            r.wf(),
            r.keys() == self.keys(),
            r.records() == self.records(),
            r.as_map() == self.as_map(),
    {
        let mut entries: Vec<R> = Vec::new();
        let mut i: usize = 0;
        while i < self.entries.len()
            invariant
                i <= self.entries@.len(),
                entries@.len() == i,
                forall|j: int| 0 <= j < i ==> (#[trigger] entries@[j])@ == self.entries@[j]@,
            decreases self.entries@.len() - i,
        {
            let x = self.entries[i].copy_of();
            entries.push(x);
            i = i + 1;
        }
        let r = KeyedTable { entries };
        assert(r.keys() =~= self.keys());
        assert(r.records() =~= self.records());
        assert(r.as_map() =~= self.as_map());
        r
    }
}

} // verus!
