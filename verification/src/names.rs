//! A string-keyed table of display names.
use vstd::prelude::*;

verus! {

/// The value of the latest entry for `k`.
pub open spec fn entry_lookup(es: Seq<(String, String)>, k: Seq<char>) -> Option<Seq<char>>
    decreases es.len(),
{
    if es.len() == 0 {
        None
    } else if es.last().0@ == k {
        Some(es.last().1@)
    } else {
        entry_lookup(es.drop_last(), k)
    }
}

/// A table from names to names; a later entry for a name replaces an earlier one.
pub struct NameMap {
    entries: Vec<(String, String)>,
}

impl View for NameMap {
    type V = Map<Seq<char>, Seq<char>>;

    closed spec fn view(&self) -> Map<Seq<char>, Seq<char>> {
        Map::new(
            |k: Seq<char>| entry_lookup(self.entries@, k) is Some,
            |k: Seq<char>| entry_lookup(self.entries@, k)->0,
        )
    }
}

impl NameMap {
    /// An empty table.
    pub fn new() -> (r: NameMap)
        ensures
            r@ == Map::<Seq<char>, Seq<char>>::empty(),
    {
        let r = NameMap { entries: Vec::new() };
        assert(r@ =~= Map::<Seq<char>, Seq<char>>::empty());
        r
    }

    /// Sets the name for `key`, replacing any earlier one.
    pub fn insert(&mut self, key: String, value: String)
        ensures
            final(self)@ == old(self)@.insert(key@, value@),
    {
        let ghost k = key@;
        let ghost v = value@;
        self.entries.push((key, value));
        assert forall|q: Seq<char>| q != k implies entry_lookup(self.entries@, q) == entry_lookup(
            old(self).entries@,
            q,
        ) by {
            assert(self.entries@.drop_last() =~= old(self).entries@);
        }
        assert(self.entries@.drop_last() =~= old(self).entries@);
        assert(self@ =~= old(self)@.insert(k, v));
    }

    /// The name for `key`, if there is one.
    pub fn get(&self, key: &str) -> (r: Option<String>)
        ensures
            match r {
                Some(v) => self@.contains_key(key@) && self@[key@] == v@,
                None => !self@.contains_key(key@),
            },
    {
        let k: String = key.to_owned();
        let mut i: usize = self.entries.len();
        assert(self.entries@.take(i as int) =~= self.entries@);
        while i > 0
            invariant
                k@ == key@,
                i <= self.entries.len(),
                entry_lookup(self.entries@, key@) == entry_lookup(self.entries@.take(i as int), key@),
            decreases i,
        {
            let ghost pre = self.entries@.take(i as int);
            assert(pre.drop_last() =~= self.entries@.take(i - 1));
            if self.entries[i - 1].0 == k {
                return Some(self.entries[i - 1].1.clone());
            }
            i = i - 1;
        }
        None
    }

    /// Whether there is a name for `key`.
    pub fn contains(&self, key: &str) -> (r: bool)
        ensures
            r == self@.contains_key(key@),
    {
        self.get(key).is_some()
    }

    /// Sets the name for `key` unless it already has one.
    pub fn insert_if_absent(&mut self, key: String, value: String)
        ensures
            final(self)@ == if old(self)@.contains_key(key@) {
                old(self)@
            } else {
                old(self)@.insert(key@, value@)
            },
    {
        if !self.contains(key.as_str()) {
            self.insert(key, value);
        }
    }
}

} // verus!
