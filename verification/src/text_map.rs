//! An ordered map from texts to texts.
//!
//! Entries are kept in ascending key order, so enumeration is
//! deterministic, as for a `BTreeMap<String, String>`.

use vstd::prelude::*;
use crate::text::{
    is_blank, str_is_blank,
    lemma_seq_lt_irreflexive, lemma_seq_lt_total, lemma_seq_lt_transitive, seq_lt, str_equal,
    str_less,
};

verus! {

/// Ordered text-to-text map.
#[derive(Debug, PartialEq, Eq)]
pub struct TextMap {
    entries: Vec<(String, String)>,
}

/// Whether the keys of `e` ascend strictly.
pub open spec fn keys_ascend(e: Seq<(Seq<char>, Seq<char>)>) -> bool {
    forall|i: int, j: int| 0 <= i < j < e.len() ==> seq_lt(#[trigger] e[i].0, #[trigger] e[j].0)
}

/// The position of an entry with key `k`, when there is one.
pub open spec fn entry_index(e: Seq<(Seq<char>, Seq<char>)>, k: Seq<char>) -> int {
    choose|i: int| 0 <= i < e.len() && #[trigger] e[i].0 == k
}

/// The map described by an entry sequence with distinct keys.
pub open spec fn entries_map(e: Seq<(Seq<char>, Seq<char>)>) -> Map<Seq<char>, Seq<char>> {
    Map::new(
        |k: Seq<char>| exists|i: int| 0 <= i < e.len() && #[trigger] e[i].0 == k,
        |k: Seq<char>| e[entry_index(e, k)].1,
    )
}

/// In an ascending entry sequence every key names its own entry.
pub proof fn lemma_entries_map_index(e: Seq<(Seq<char>, Seq<char>)>, i: int)
    requires
        keys_ascend(e),
        0 <= i < e.len(),
    ensures
        entries_map(e).dom().contains(e[i].0),
        entries_map(e)[e[i].0] == e[i].1,
{
    let k = e[i].0;
    assert(e[i].0 == k);
    assert(entries_map(e).dom().contains(k));
    let j = entry_index(e, k);
    assert(entries_map(e)[k] == e[j].1);
    if j < i {
        assert(seq_lt(e[j].0, e[i].0));
        lemma_seq_lt_irreflexive(k);
    } else if j > i {
        assert(seq_lt(e[i].0, e[j].0));
        lemma_seq_lt_irreflexive(k);
    }
}

impl View for TextMap {
    type V = Map<Seq<char>, Seq<char>>;

    closed spec fn view(&self) -> Map<Seq<char>, Seq<char>> {
        entries_map(self.entry_views())
    }
}

impl TextMap {
    /// The entries, as texts, in enumeration order.
    pub closed spec fn entry_views(&self) -> Seq<(Seq<char>, Seq<char>)> {
        self.entries@.map_values(|e: (String, String)| (e.0@, e.1@))
    }

    #[verifier::type_invariant]
    closed spec fn well_formed(&self) -> bool {
        keys_ascend(self.entry_views())
    }

    /// Creates an empty map.
    pub fn new() -> (r: TextMap)
        ensures
            r@ == Map::<Seq<char>, Seq<char>>::empty(),
    {
        let r = TextMap { entries: Vec::new() };
        assert(r@ =~= Map::<Seq<char>, Seq<char>>::empty());
        r
    }

    proof fn lemma_len(&self)
        requires
            self.well_formed(),
        ensures
            self@.len() == self.entries@.len(),
            self@.dom().finite(),
    {
        let e = self.entry_views();
        let keys = e.map_values(|p: (Seq<char>, Seq<char>)| p.0);
        assert forall|i: int, j: int| 0 <= i < keys.len() && 0 <= j < keys.len() && i != j
            implies keys[i] != keys[j] by {
            if i < j {
                assert(seq_lt(e[i].0, e[j].0));
                lemma_seq_lt_irreflexive(keys[i]);
            } else {
                assert(seq_lt(e[j].0, e[i].0));
                lemma_seq_lt_irreflexive(keys[j]);
            }
        }
        assert(keys.no_duplicates());
        assert(self@.dom() =~= keys.to_set()) by {
            assert forall|k: Seq<char>| self@.dom().contains(k) implies keys.to_set().contains(
                k,
            ) by {
                let i = choose|i: int| 0 <= i < e.len() && #[trigger] e[i].0 == k;
                assert(keys[i] == k);
            }
            assert forall|k: Seq<char>| keys.to_set().contains(k) implies self@.dom().contains(
                k,
            ) by {
                let i = choose|i: int| 0 <= i < keys.len() && keys[i] == k;
                assert(e[i].0 == k);
            }
        }
        keys.unique_seq_to_set();
    }

    /// Number of entries.
    pub fn len(&self) -> (r: usize)
        ensures
            r == self@.len(),
    {
        proof {
            use_type_invariant(self);
            self.lemma_len();
        }
        self.entries.len()
    }

    /// Whether the map has no entries.
    pub fn is_empty(&self) -> (r: bool)
        ensures
            r == (self@.len() == 0),
    {
        self.len() == 0
    }

    /// Looks up the value stored under `key`.
    pub fn get(&self, key: &str) -> (r: Option<&str>)
        ensures
            r is Some <==> self@.dom().contains(key@),
            r matches Some(v) ==> v@ == self@[key@],
    {
        proof {
            use_type_invariant(self);
        }
        let ghost e = self.entry_views();
        let mut i: usize = 0;
        while i < self.entries.len()
            invariant
                e == self.entry_views(),
                keys_ascend(e),
                i <= self.entries@.len(),
                forall|j: int| 0 <= j < i ==> e[j].0 != key@,
            decreases self.entries@.len() - i,
        {
            if str_equal(self.entries[i].0.as_str(), key) {
                proof {
                    lemma_entries_map_index(e, i as int);
                }
                return Some(self.entries[i].1.as_str());
            }
            i = i + 1;
        }
        None
    }

    /// Whether an entry is stored under `key`.
    pub fn contains_key(&self, key: &str) -> (r: bool)
        ensures
            r == self@.dom().contains(key@),
    {
        self.get(key).is_some()
    }

    /// Adds or replaces the entry stored under `key`.
    pub fn insert(&mut self, key: String, value: String)
        ensures
            final(self)@ == old(self)@.insert(key@, value@),
    {
        proof {
            use_type_invariant(&*self);
        }
        let ghost k = key@;
        let ghost v = value@;
        let ghost old_view = self@;
        let ghost oe = self.entry_views();
        let mut entries: Vec<(String, String)> = Vec::new();
        std::mem::swap(&mut entries, &mut self.entries);
        assert(entries@.map_values(|e: (String, String)| (e.0@, e.1@)) == oe);
        let mut i: usize = 0;
        while i < entries.len() && str_less(entries[i].0.as_str(), key.as_str())
            invariant
                entries@.map_values(|e: (String, String)| (e.0@, e.1@)) == oe,
                k == key@,
                i <= entries@.len(),
                forall|j: int| 0 <= j < i ==> seq_lt(#[trigger] oe[j].0, k),
            decreases entries@.len() - i,
        {
            assert(seq_lt(entries@[i as int].0@, key@));
            assert(oe[i as int].0 == entries@[i as int].0@);
            i = i + 1;
        }
        assert(i < entries@.len() ==> oe[i as int].0 == entries@[i as int].0@);
        let replace = i < entries.len() && str_equal(entries[i].0.as_str(), key.as_str());
        if replace {
            entries.set(i, (key, value));
        } else {
            entries.insert(i, (key, value));
        }
        let ghost ne = entries@.map_values(|e: (String, String)| (e.0@, e.1@));
        proof {
            if replace {
                assert(ne =~= oe.update(i as int, (k, v)));
                assert(keys_ascend(ne)) by {
                    assert forall|a: int, b: int| 0 <= a < b < ne.len() implies seq_lt(
                        #[trigger] ne[a].0,
                        #[trigger] ne[b].0,
                    ) by {
                        assert(seq_lt(oe[a].0, oe[b].0));
                    }
                }
            } else {
                if i < oe.len() {
                    assert(!seq_lt(oe[i as int].0, k));
                    lemma_seq_lt_total(oe[i as int].0, k);
                }
                assert(ne =~= oe.insert(i as int, (k, v)));
                assert(keys_ascend(ne)) by {
                    assert forall|a: int, b: int| 0 <= a < b < ne.len() implies seq_lt(
                        #[trigger] ne[a].0,
                        #[trigger] ne[b].0,
                    ) by {
                        if b == i {
                        } else if a == i {
                            if b > i + 1 {
                                lemma_seq_lt_transitive(k, oe[i as int].0, oe[b - 1].0);
                            }
                        } else if a < i && b > i {
                            if b > i + 1 {
                                lemma_seq_lt_transitive(k, oe[i as int].0, oe[b - 1].0);
                            }
                            lemma_seq_lt_transitive(oe[a].0, k, oe[b - 1].0);
                        } else if a > i {
                            assert(seq_lt(oe[a - 1].0, oe[b - 1].0));
                        } else {
                            assert(seq_lt(oe[a].0, oe[b].0));
                        }
                    }
                }
            }
            let nm = entries_map(ne);
            let target = old_view.insert(k, v);
            assert forall|q: Seq<char>| nm.dom().contains(q) <==> target.dom().contains(q) by {
                if nm.dom().contains(q) {
                    let j = choose|j: int| 0 <= j < ne.len() && #[trigger] ne[j].0 == q;
                    if q != k {
                        if replace {
                            assert(oe[j].0 == q);
                        } else if j < i {
                            assert(oe[j].0 == q);
                        } else {
                            assert(oe[j - 1].0 == q);
                        }
                    }
                }
                if target.dom().contains(q) {
                    if q == k {
                        assert(ne[i as int].0 == q);
                    } else {
                        let j = choose|j: int| 0 <= j < oe.len() && #[trigger] oe[j].0 == q;
                        if replace || j < i {
                            assert(ne[j].0 == q);
                        } else {
                            assert(ne[j + 1].0 == q);
                        }
                    }
                }
            }
            assert forall|q: Seq<char>| nm.dom().contains(q) implies nm[q] == target[q] by {
                let j = choose|j: int| 0 <= j < ne.len() && #[trigger] ne[j].0 == q;
                lemma_entries_map_index(ne, j);
                if q == k {
                    assert(ne[i as int].0 == k);
                    lemma_entries_map_index(ne, i as int);
                } else {
                    if replace || j < i {
                        lemma_entries_map_index(oe, j);
                    } else {
                        lemma_entries_map_index(oe, j - 1);
                    }
                }
            }
            assert(nm =~= target);
        }
        *self = TextMap { entries };
        assert(self.entry_views() == ne);
    }


    /// Whether no key and no value is empty.
    pub fn all_nonempty(&self) -> (r: bool)
        ensures
            r == (forall|k: Seq<char>|
                #[trigger] self@.dom().contains(k) ==> k.len() > 0 && self@[k].len() > 0),
    {
        proof {
            use_type_invariant(self);
        }
        let ghost e = self.entry_views();
        let mut i: usize = 0;
        while i < self.entries.len()
            invariant
                e == self.entry_views(),
                keys_ascend(e),
                i <= self.entries@.len(),
                forall|j: int| 0 <= j < i ==> e[j].0.len() > 0 && e[j].1.len() > 0,
            decreases self.entries@.len() - i,
        {
            proof {
                lemma_entries_map_index(e, i as int);
            }
            assert(e[i as int] == (self.entries@[i as int].0@, self.entries@[i as int].1@));
            if self.entries[i].0.as_str().unicode_len() == 0 || self.entries[i].1.as_str().unicode_len() == 0 {
                assert(self@.dom().contains(e[i as int].0));
                return false;
            }
            i = i + 1;
        }
        proof {
            assert forall|k: Seq<char>| #[trigger] self@.dom().contains(k) implies k.len() > 0 && self@[k].len() > 0 by {
                let j = choose|j: int| 0 <= j < e.len() && #[trigger] e[j].0 == k;
                lemma_entries_map_index(e, j);
            }
        }
        true
    }

    /// Whether no key and no value is blank.
    pub fn all_nonblank(&self) -> (r: bool)
        ensures
            r == (forall|k: Seq<char>|
                #[trigger] self@.dom().contains(k) ==> !is_blank(k) && !is_blank(self@[k])),
    {
        proof {
            use_type_invariant(self);
        }
        let ghost e = self.entry_views();
        let mut i: usize = 0;
        while i < self.entries.len()
            invariant
                e == self.entry_views(),
                keys_ascend(e),
                i <= self.entries@.len(),
                forall|j: int| 0 <= j < i ==> !is_blank(e[j].0) && !is_blank(e[j].1),
            decreases self.entries@.len() - i,
        {
            proof {
                lemma_entries_map_index(e, i as int);
            }
            assert(e[i as int] == (self.entries@[i as int].0@, self.entries@[i as int].1@));
            if str_is_blank(self.entries[i].0.as_str()) || str_is_blank(self.entries[i].1.as_str()) {
                assert(self@.dom().contains(e[i as int].0));
                return false;
            }
            i = i + 1;
        }
        proof {
            assert forall|k: Seq<char>| #[trigger] self@.dom().contains(k) implies !is_blank(k) && !is_blank(self@[k]) by {
                let j = choose|j: int| 0 <= j < e.len() && #[trigger] e[j].0 == k;
                lemma_entries_map_index(e, j);
            }
        }
        true
    }

    /// Locates the first entry, in enumeration order, whose key or value is
    /// blank: `Some(true)` when its key is blank, `Some(false)` when its key
    /// is not blank but its value is, `None` when every entry is non-blank.
    pub fn first_blank(&self) -> (r: Option<bool>)
        ensures
            r is None <==> (forall|k: Seq<char>|
                #[trigger] self@.dom().contains(k) ==> !is_blank(k) && !is_blank(self@[k])),
            r matches Some(key_blank) ==> exists|k: Seq<char>|
                #[trigger] self@.dom().contains(k) && (if key_blank {
                    is_blank(k)
                } else {
                    !is_blank(k) && is_blank(self@[k])
                }) && (forall|k2: Seq<char>|
                    self@.dom().contains(k2) && #[trigger] seq_lt(k2, k) ==> !is_blank(k2)
                        && !is_blank(self@[k2])),
    {
        proof {
            use_type_invariant(self);
        }
        let ghost e = self.entry_views();
        let mut i: usize = 0;
        while i < self.entries.len()
            invariant
                e == self.entry_views(),
                keys_ascend(e),
                i <= self.entries@.len(),
                forall|j: int| 0 <= j < i ==> !is_blank(e[j].0) && !is_blank(e[j].1),
            decreases self.entries@.len() - i,
        {
            proof {
                lemma_entries_map_index(e, i as int);
            }
            assert(e[i as int] == (self.entries@[i as int].0@, self.entries@[i as int].1@));
            let key_blank = str_is_blank(self.entries[i].0.as_str());
            if key_blank || str_is_blank(self.entries[i].1.as_str()) {
                proof {
                    let k = e[i as int].0;
                    assert forall|k2: Seq<char>|
                        self@.dom().contains(k2) && #[trigger] seq_lt(k2, k) implies !is_blank(k2)
                            && !is_blank(self@[k2]) by {
                        let j = choose|j: int| 0 <= j < e.len() && #[trigger] e[j].0 == k2;
                        lemma_entries_map_index(e, j);
                        if j >= i {
                            if j > i {
                                assert(seq_lt(e[i as int].0, e[j].0));
                            }
                            lemma_seq_lt_irreflexive(k);
                            if j > i {
                                lemma_seq_lt_transitive(k, k2, k);
                            }
                        }
                    }
                    assert(self@.dom().contains(k));
                }
                return Some(key_blank);
            }
            i = i + 1;
        }
        proof {
            assert forall|k: Seq<char>| #[trigger] self@.dom().contains(k) implies !is_blank(k) && !is_blank(self@[k]) by {
                let j = choose|j: int| 0 <= j < e.len() && #[trigger] e[j].0 == k;
                lemma_entries_map_index(e, j);
            }
        }
        None
    }

    /// The keys, in enumeration order.
    pub fn keys(&self) -> (r: Vec<String>)
        ensures
            forall|k: Seq<char>| self@.dom().contains(k) <==> exists|i: int|
                0 <= i < r@.len() && #[trigger] r@[i]@ == k,
    {
        proof {
            use_type_invariant(self);
        }
        let ghost e = self.entry_views();
        let mut r: Vec<String> = Vec::new();
        let mut i: usize = 0;
        while i < self.entries.len()
            invariant
                e == self.entry_views(),
                i <= self.entries@.len(),
                r@.len() == i,
                forall|j: int| 0 <= j < i ==> #[trigger] r@[j]@ == e[j].0,
            decreases self.entries@.len() - i,
        {
            r.push(self.entries[i].0.clone());
            i = i + 1;
        }
        proof {
            assert forall|k: Seq<char>| self@.dom().contains(k) implies exists|i: int|
                0 <= i < r@.len() && #[trigger] r@[i]@ == k by {
                let j = choose|j: int| 0 <= j < e.len() && #[trigger] e[j].0 == k;
                assert(r@[j]@ == k);
            }
            assert forall|k: Seq<char>|
                (exists|i: int| 0 <= i < r@.len() && #[trigger] r@[i]@ == k) implies self@.dom().contains(
                k,
            ) by {
                let j = choose|j: int| 0 <= j < r@.len() && r@[j]@ == k;
                assert(e[j].0 == k);
            }
        }
        r
    }
}

impl Clone for TextMap {
    fn clone(&self) -> (r: Self)
        ensures
            r@ == self@,
    {
        proof {
            use_type_invariant(self);
        }
        let ghost e = self.entry_views();
        let mut entries: Vec<(String, String)> = Vec::new();
        let mut i: usize = 0;
        while i < self.entries.len()
            invariant
                e == self.entry_views(),
                i <= self.entries@.len(),
                entries@.len() == i,
                forall|j: int|
                    0 <= j < i ==> (#[trigger] entries@[j]).0@ == e[j].0 && entries@[j].1@
                        == e[j].1,
            decreases self.entries@.len() - i,
        {
            let pair = (self.entries[i].0.clone(), self.entries[i].1.clone());
            entries.push(pair);
            i = i + 1;
        }
        let r = TextMap { entries };
        assert(r.entry_views() =~= e);
        r
    }
}

} // verus!
