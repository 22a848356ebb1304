//! Seconds of focus per application for the current day, as the daemon keeps them.
use vstd::prelude::*;
use crate::order::{desc_order_of, is_permutation_of_indices, lemma_desc_order, lemma_index_covered};

verus! {

/// The keys of the entries are pairwise different.
pub open spec fn keys_unique(es: Seq<(String, i64)>) -> bool {
    forall|i: int, j: int| 0 <= i < es.len() && 0 <= j < es.len() && i != j ==> es[i].0@ != es[j].0@
}

/// The table that unique entries stand for.
pub open spec fn entries_map(es: Seq<(String, i64)>) -> Map<Seq<char>, i64> {
    Map::new(
        |k: Seq<char>| exists|i: int| 0 <= i < es.len() && es[i].0@ == k,
        |k: Seq<char>| es[choose|i: int| 0 <= i < es.len() && es[i].0@ == k].1,
    )
}

/// `listing` lists the table `m`: every application once, with its seconds, from most
/// to fewest seconds.
pub open spec fn is_usage_listing(listing: Seq<(String, i64)>, m: Map<Seq<char>, i64>) -> bool {
    &&& forall|i: int| 0 <= i < listing.len() ==> m.contains_key(#[trigger] listing[i].0@) && m[listing[i].0@] == listing[i].1
    &&& forall|k: Seq<char>| m.contains_key(k) ==> exists|i: int| 0 <= i < listing.len() && #[trigger] listing[i].0@ == k
    &&& forall|i: int, j: int| 0 <= i < j < listing.len() ==> listing[i].0@ != listing[j].0@
    &&& forall|i: int, j: int| 0 <= i < j < listing.len() ==> listing[i].1 >= listing[j].1
}

/// Seconds per application id.
pub struct SecondsMap {
    entries: Vec<(String, i64)>,
}

impl View for SecondsMap {
    type V = Map<Seq<char>, i64>;

    closed spec fn view(&self) -> Map<Seq<char>, i64> {
        entries_map(self.entries@)
    }
}

/// `m` after adding the rows `(app, seconds, _)` in order; a later row for the same
/// application replaces an earlier one.
pub open spec fn map_of_rows(rows: Seq<(String, i64, i64)>) -> Map<Seq<char>, i64>
    decreases rows.len(),
{
    if rows.len() == 0 {
        Map::empty()
    } else {
        map_of_rows(rows.drop_last()).insert(rows.last().0@, rows.last().1)
    }
}

impl SecondsMap {
    /// The entries are unique by application id.
    #[verifier::type_invariant]
    spec fn entries_unique(&self) -> bool {
        keys_unique(self.entries@)
    }

    proof fn lemma_lookup(es: Seq<(String, i64)>, i: int)
        requires
            keys_unique(es),
            0 <= i < es.len(),
        ensures
            entries_map(es).contains_key(es[i].0@),
            entries_map(es)[es[i].0@] == es[i].1,
    {
        let k = es[i].0@;
        assert(exists|j: int| 0 <= j < es.len() && es[j].0@ == k);
        let j = choose|j: int| 0 <= j < es.len() && es[j].0@ == k;
        assert(j == i);
    }

    /// An empty table.
    pub fn new() -> (r: SecondsMap)
        ensures
            r@ == Map::<Seq<char>, i64>::empty(),
    {
        let r = SecondsMap { entries: Vec::new() };
        assert(r@ =~= Map::<Seq<char>, i64>::empty());
        r
    }

    fn position(&self, key: &str) -> (r: Option<usize>)
        ensures
            match r {
                Some(i) => i < self.entries@.len() && self.entries@[i as int].0@ == key@,
                None => !self@.contains_key(key@),
            },
    {
        proof { use_type_invariant(self); }
        let k: String = key.to_owned();
        let mut i: usize = 0;
        while i < self.entries.len()
            invariant
                k@ == key@,
                i <= self.entries.len(),
                forall|j: int| 0 <= j < i ==> self.entries@[j].0@ != key@,
            decreases self.entries.len() - i,
        {
            if self.entries[i].0 == k {
                return Some(i);
            }
            i = i + 1;
        }
        None
    }

    /// The seconds recorded for `key`.
    pub fn get(&self, key: &str) -> (r: Option<i64>)
        ensures
            match r {
                Some(v) => self@.contains_key(key@) && self@[key@] == v,
                None => !self@.contains_key(key@),
            },
    {
        proof { use_type_invariant(self); }
        match self.position(key) {
            Some(i) => {
                proof { Self::lemma_lookup(self.entries@, i as int); }
                Some(self.entries[i].1)
            },
            None => None,
        }
    }

    /// Sets the seconds for `key`.
    pub fn insert(&mut self, key: String, value: i64)
        ensures
            final(self)@ == old(self)@.insert(key@, value),
    {
        proof { use_type_invariant(&*self); }
        let ghost k = key@;
        let ghost old_es = self.entries@;
        let pos = self.position(key.as_str());
        let mut es: Vec<(String, i64)> = Vec::new();
        std::mem::swap(&mut es, &mut self.entries);
        assert(es@ == old_es);
        match pos {
            Some(i) => {
                es.set(i, (key, value));
                assert(keys_unique(es@)) by {
                    assert forall|a: int, b: int| 0 <= a < es@.len() && 0 <= b < es@.len() && a != b implies es@[a].0@ != es@[b].0@ by {
                        assert(old_es[i as int].0@ == k);
                    }
                }
                self.entries = es;
                assert forall|q: Seq<char>| #[trigger] self@.contains_key(q) == old(self)@.insert(k, value).contains_key(q) by {
                    if old(self)@.contains_key(q) {
                        let j = choose|j: int| 0 <= j < old(self).entries@.len() && old(self).entries@[j].0@ == q;
                        assert(self.entries@[j].0@ == q);
                    }
                    if q == k {
                        assert(self.entries@[i as int].0@ == q);
                    }
                }
                assert forall|q: Seq<char>| self@.contains_key(q) implies #[trigger] self@[q] == old(self)@.insert(k, value)[q] by {
                    let j = choose|j: int| 0 <= j < self.entries@.len() && self.entries@[j].0@ == q;
                    Self::lemma_lookup(self.entries@, j);
                    if q != k {
                        Self::lemma_lookup(old(self).entries@, j);
                    }
                }
                assert(self@ =~= old(self)@.insert(k, value));
            },
            None => {
                es.push((key, value));
                assert(keys_unique(es@)) by {
                    assert forall|a: int, b: int| 0 <= a < es@.len() && 0 <= b < es@.len() && a != b implies es@[a].0@ != es@[b].0@ by {
                        if a == old_es.len() {
                            assert(!entries_map(old_es).contains_key(k));
                            if old_es[b].0@ == k {
                                assert(entries_map(old_es).contains_key(k));
                            }
                        }
                        if b == old_es.len() {
                            if old_es[a].0@ == k {
                                assert(entries_map(old_es).contains_key(k));
                            }
                        }
                    }
                }
                self.entries = es;
                let ghost n: int = self.entries@.len() - 1;
                assert forall|q: Seq<char>| #[trigger] self@.contains_key(q) == old(self)@.insert(k, value).contains_key(q) by {
                    if old(self)@.contains_key(q) {
                        let j = choose|j: int| 0 <= j < old(self).entries@.len() && old(self).entries@[j].0@ == q;
                        assert(self.entries@[j].0@ == q);
                    }
                    if q == k {
                        assert(self.entries@[n].0@ == q);
                    }
                }
                assert forall|q: Seq<char>| self@.contains_key(q) implies #[trigger] self@[q] == old(self)@.insert(k, value)[q] by {
                    let j = choose|j: int| 0 <= j < self.entries@.len() && self.entries@[j].0@ == q;
                    Self::lemma_lookup(self.entries@, j);
                    if q != k {
                        Self::lemma_lookup(old(self).entries@, j);
                    }
                }
                assert(self@ =~= old(self)@.insert(k, value));
            },
        }
    }

    /// The table of the rows `(app, seconds, activations)`; a later row for the same
    /// application replaces an earlier one.
    pub fn from_rows(rows: &Vec<(String, i64, i64)>) -> (r: SecondsMap)
        ensures
            r@ == map_of_rows(rows@),
    {
        let mut m = SecondsMap::new();
        let mut i: usize = 0;
        assert(rows@.take(0) =~= Seq::<(String, i64, i64)>::empty());
        while i < rows.len()
            invariant
                i <= rows.len(),
                m@ == map_of_rows(rows@.take(i as int)),
            decreases rows.len() - i,
        {
            assert(rows@.take(i + 1).drop_last() =~= rows@.take(i as int));
            m.insert(rows[i].0.clone(), rows[i].1);
            i = i + 1;
        }
        assert(rows@.take(rows.len() as int) =~= rows@);
        m
    }

    /// Counts one more second for `app`.
    pub fn add_second(&mut self, app: &str)
        requires
            old(self)@.contains_key(app@) ==> old(self)@[app@] < i64::MAX,
        ensures
            final(self)@ == old(self)@.insert(
                app@,
                if old(self)@.contains_key(app@) { (old(self)@[app@] + 1) as i64 } else { 1 },
            ),
    {
        proof { use_type_invariant(&*self); }
        let v = match self.get(app) {
            Some(v) => v + 1,
            None => 1,
        };
        self.insert(app.to_owned(), v);
    }

    /// The entries from most to fewest seconds, each application once.
    pub fn sorted_usage(&self) -> (r: Vec<(String, i64)>)
        ensures
            is_usage_listing(r@, self@),
    {
        proof { use_type_invariant(self); }
        let ghost es = self.entries@;
        let mut keys: Vec<i64> = Vec::new();
        let mut k: usize = 0;
        while k < self.entries.len()
            invariant
                k <= self.entries.len(),
                es == self.entries@,
                keys@.len() == k,
                forall|j: int| 0 <= j < k ==> keys@[j] == es[j].1,
            decreases self.entries.len() - k,
        {
            keys.push(self.entries[k].1);
            k = k + 1;
        }
        let order = desc_order_of(&keys);
        proof { lemma_desc_order(keys@); }
        let mut out: Vec<(String, i64)> = Vec::new();
        let mut i: usize = 0;
        while i < order.len()
            invariant
                i <= order.len(),
                es == self.entries@,
                keys@.len() == es.len(),
                forall|j: int| 0 <= j < es.len() ==> keys@[j] == es[j].1,
                is_permutation_of_indices(order@, keys@.len()),
                crate::order::is_descending(keys@, order@),
                out@.len() == i,
                forall|p: int| 0 <= p < i ==> out@[p].0@ == es[order@[p] as int].0@ && out@[p].1 == es[order@[p] as int].1,
            decreases order.len() - i,
        {
            let e = &self.entries[order[i]];
            out.push((e.0.clone(), e.1));
            i = i + 1;
        }
        proof {
            assert forall|p: int| 0 <= p < out@.len() implies self@.contains_key(#[trigger] out@[p].0@) && self@[out@[p].0@] == out@[p].1 by {
                Self::lemma_lookup(es, order@[p] as int);
            }
            assert forall|q: Seq<char>| self@.contains_key(q) implies exists|p: int| 0 <= p < out@.len() && #[trigger] out@[p].0@ == q by {
                let j = choose|j: int| 0 <= j < es.len() && es[j].0@ == q;
                lemma_index_covered(order@, es.len(), j);
                let p = choose|p: int| 0 <= p < order@.len() && order@[p] as int == j;
                assert(out@[p].0@ == q);
            }
            assert forall|a: int, b: int| 0 <= a < b < out@.len() implies out@[a].1 >= out@[b].1 by {
                assert(keys@[order@[a] as int] >= keys@[order@[b] as int]);
            }
        }
        out
    }
}

} // verus!
