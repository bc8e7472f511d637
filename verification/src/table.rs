//! A table of records keyed by strings: each key occurs at most once, and the
//! table reads as a map from the key's characters to the record's view.
use vstd::prelude::*;
use crate::text::str_eq;

verus! {

/// Whether no key occurs twice.
pub open spec fn keys_unique<R>(s: Seq<(String, R)>) -> bool {
    forall|i: int, j: int| 0 <= i < j < s.len() ==> (#[trigger] s[i]).0@ != (#[trigger] s[j]).0@
}

/// The map that a sequence of entries stands for; a later entry wins.
pub open spec fn entries_map<R: View>(s: Seq<(String, R)>) -> Map<Seq<char>, R::V>
    decreases s.len(),
{
    if s.len() == 0 {
        Map::empty()
    } else {
        entries_map(s.drop_last()).insert(s.last().0@, s.last().1@)
    }
}

/// The entries' keys and record views, in table order.
pub open spec fn entries_view<R: View>(s: Seq<(String, R)>) -> Seq<(Seq<char>, R::V)> {
    s.map_values(|e: (String, R)| (e.0@, e.1@))
}

pub proof fn lemma_entries_map_dom<R: View>(s: Seq<(String, R)>, k: Seq<char>)
    ensures
        entries_map(s).dom().contains(k) <==> exists|i: int| 0 <= i < s.len() && (#[trigger] s[i]).0@ == k,
    decreases s.len(),
{
    if s.len() > 0 {
        lemma_entries_map_dom(s.drop_last(), k);
        if exists|i: int| 0 <= i < s.drop_last().len() && (#[trigger] s.drop_last()[i]).0@ == k {
            let i = choose|i: int| 0 <= i < s.drop_last().len() && (#[trigger] s.drop_last()[i]).0@ == k;
            assert(s[i] == s.drop_last()[i]);
        }
        if exists|i: int| 0 <= i < s.len() && (#[trigger] s[i]).0@ == k {
            let i = choose|i: int| 0 <= i < s.len() && (#[trigger] s[i]).0@ == k;
            if i < s.len() - 1 {
                assert(s.drop_last()[i] == s[i]);
            }
        }
    }
}

pub proof fn lemma_entries_map_at<R: View>(s: Seq<(String, R)>, i: int)
    requires
        keys_unique(s),
        0 <= i < s.len(),
    ensures
        entries_map(s).dom().contains(s[i].0@),
        entries_map(s)[s[i].0@] == s[i].1@,
    decreases s.len(),
{
    if i < s.len() - 1 {
        let t = s.drop_last();
        assert(t[i] == s[i]);
        assert(keys_unique(t)) by {
            assert forall|a: int, b: int| 0 <= a < b < t.len() implies (#[trigger] t[a]).0@ != (
            #[trigger] t[b]).0@ by {
                assert(t[a] == s[a] && t[b] == s[b]);
            }
        }
        lemma_entries_map_at(t, i);
        assert(s[i].0@ != s[s.len() - 1].0@);
    }
}

/// Replacing the record of an entry in place is an insert into the map.
pub proof fn lemma_entries_map_update<R: View>(s: Seq<(String, R)>, i: int, key: String, r: R)
    requires
        keys_unique(s),
        0 <= i < s.len(),
        key@ == s[i].0@,
    ensures
        keys_unique(s.update(i, (key, r))),
        entries_map(s.update(i, (key, r))) == entries_map(s).insert(s[i].0@, r@),
{
    let t = s.update(i, (key, r));
    assert(keys_unique(t)) by {
        assert forall|a: int, b: int| 0 <= a < b < t.len() implies (#[trigger] t[a]).0@ != (
        #[trigger] t[b]).0@ by {
            assert(t[a].0@ == s[a].0@ && t[b].0@ == s[b].0@);
        }
    }
    let m = entries_map(s).insert(s[i].0@, r@);
    assert forall|k: Seq<char>| #[trigger] entries_map(t).dom().contains(k) <==> m.dom().contains(
        k,
    ) by {
        lemma_entries_map_dom(t, k);
        lemma_entries_map_dom(s, k);
        if exists|j: int| 0 <= j < t.len() && (#[trigger] t[j]).0@ == k {
            let j = choose|j: int| 0 <= j < t.len() && (#[trigger] t[j]).0@ == k;
            assert(s[j].0@ == t[j].0@);
        }
        if exists|j: int| 0 <= j < s.len() && (#[trigger] s[j]).0@ == k {
            let j = choose|j: int| 0 <= j < s.len() && (#[trigger] s[j]).0@ == k;
            assert(s[j].0@ == t[j].0@);
        }
    }
    assert forall|k: Seq<char>| #[trigger] entries_map(t).dom().contains(k) implies entries_map(
        t,
    )[k] == m[k] by {
        lemma_entries_map_dom(t, k);
        let j = choose|j: int| 0 <= j < t.len() && (#[trigger] t[j]).0@ == k;
        lemma_entries_map_at(t, j);
        lemma_entries_map_at(s, j);
        if j != i {
            assert(t[j] == s[j]);
        }
    }
    assert(entries_map(t) =~= m);
}

/// Records under string keys, each key at most once.
#[derive(Debug)]
pub struct Table<R> {
    entries: Vec<(String, R)>,
}

impl<R: View> View for Table<R> {
    type V = Map<Seq<char>, R::V>;

    closed spec fn view(&self) -> Map<Seq<char>, R::V> {
        entries_map(self.entries@)
    }
}

impl<R> Table<R> {
    #[verifier::type_invariant]
    closed spec fn unique_keys(&self) -> bool {
        keys_unique(self.entries@)
    }

    /// The keys, in table order.
    pub closed spec fn keys(&self) -> Seq<Seq<char>> {
        self.entries@.map_values(|e: (String, R)| e.0@)
    }

    /// The record of the entry at position `i`.
    pub closed spec fn record_at(&self, i: int) -> R {
        self.entries@[i].1
    }
}

impl<R: View> Table<R> {

    /// The keys and records, in the order in which they were first inserted.
    pub closed spec fn entries(&self) -> Seq<(Seq<char>, R::V)> {
        entries_view(self.entries@)
    }

    pub fn new() -> (t: Self)
        ensures
            t@ == Map::<Seq<char>, R::V>::empty(),
            t.entries().len() == 0,
    {
        Table { entries: Vec::new() }
    }

    /// The number of entries; each key of the map is the key of exactly one
    /// entry, whose record is the map's value there.
    pub fn len(&self) -> (n: usize)
        ensures
            n == self.entries().len(),
            self.entries().len() == self@.len(),
            self@.dom().finite(),
            forall|i: int|
                0 <= i < self.entries().len() ==> self@.dom().contains(
                    (#[trigger] self.entries()[i]).0,
                ) && self@[self.entries()[i].0] == self.entries()[i].1,
            forall|k: Seq<char>|
                #[trigger] self@.dom().contains(k) ==> exists|i: int|
                    0 <= i < self.entries().len() && (#[trigger] self.entries()[i]).0 == k,
            forall|i: int, j: int|
                0 <= i < j < self.entries().len() ==> (#[trigger] self.entries()[i]).0 != (
                #[trigger] self.entries()[j]).0,
    {
        proof {
            use_type_invariant(self);
            let s = self.entries@;
            assert forall|i: int| 0 <= i < self.entries().len() implies self@.dom().contains(
                (#[trigger] self.entries()[i]).0,
            ) && self@[self.entries()[i].0] == self.entries()[i].1 by {
                lemma_entries_map_at(s, i);
            }
            assert forall|k: Seq<char>| #[trigger] self@.dom().contains(k) implies exists|i: int|
                0 <= i < self.entries().len() && (#[trigger] self.entries()[i]).0 == k by {
                lemma_entries_map_dom(s, k);
                let i = choose|i: int| 0 <= i < s.len() && (#[trigger] s[i]).0@ == k;
                assert(self.entries()[i].0 == k);
            }
            assert forall|i: int, j: int| 0 <= i < j < self.entries().len() implies (
            #[trigger] self.entries()[i]).0 != (#[trigger] self.entries()[j]).0 by {
                assert(self.entries()[i].0 == s[i].0@ && self.entries()[j].0 == s[j].0@);
            }
            lemma_len_matches(s);
        }
        self.entries.len()
    }

    /// The position of the entry with key `key`, if there is one.
    pub fn index_of(&self, key: &str) -> (r: Option<usize>)
        ensures
            match r {
                Some(i) => i < self.entries().len() && self.entries()[i as int].0 == key@
                    && self@.dom().contains(key@) && self@[key@] == self.entries()[i as int].1,
                None => !self@.dom().contains(key@),
            },
    {
        proof {
            use_type_invariant(self);
        }
        let mut i: usize = 0;
        while i < self.entries.len()
            invariant
                i <= self.entries@.len(),
                keys_unique(self.entries@),
                forall|j: int| 0 <= j < i ==> (#[trigger] self.entries@[j]).0@ != key@,
            decreases self.entries@.len() - i,
        {
            if str_eq(self.entries[i].0.as_str(), key) {
                proof {
                    lemma_entries_map_at(self.entries@, i as int);
                }
                return Some(i);
            }
            i = i + 1;
        }
        proof {
            lemma_entries_map_dom(self.entries@, key@);
        }
        None
    }

    /// The record of the entry at position `i`.
    pub fn value_at(&self, i: usize) -> (r: &R)
        requires
            i < self.entries().len(),
        ensures
            r@ == self.entries()[i as int].1,
    {
        &self.entries[i].1
    }

    /// The key of the entry at position `i`.
    pub fn key_at(&self, i: usize) -> (r: &str)
        requires
            i < self.entries().len(),
        ensures
            r@ == self.entries()[i as int].0,
    {
        self.entries[i].0.as_str()
    }

    /// The record under `key`, if there is one.
    pub fn get(&self, key: &str) -> (r: Option<&R>)
        ensures
            match r {
                Some(v) => self@.dom().contains(key@) && v@ == self@[key@],
                None => !self@.dom().contains(key@),
            },
    {
        match self.index_of(key) {
            Some(i) => Some(&self.entries[i].1),
            None => None,
        }
    }

    /// Replaces the record at position `i`, keeping its key.
    pub fn set_at(&mut self, i: usize, value: R)
        requires
            i < old(self).entries().len(),
        ensures
            final(self)@ == old(self)@.insert(old(self).entries()[i as int].0, value@),
            final(self).entries() == old(self).entries().update(
                i as int,
                (old(self).entries()[i as int].0, value@),
            ),
    {
        proof {
            use_type_invariant(&*self);
        }
        let ghost old_entries = self.entries@;
        let key = crate::text::copy_string(&self.entries[i].0);
        proof {
            lemma_entries_map_update(old_entries, i as int, key, value);
        }
        let mut entries = Vec::new();
        std::mem::swap(&mut entries, &mut self.entries);
        assert(entries@ == old_entries);
        entries.set(i, (key, value));
        proof {
            assert(entries_view(entries@) =~= entries_view(old_entries).update(
                i as int,
                (old_entries[i as int].0@, value@),
            ));
        }
        self.entries = entries;
    }

    /// Puts `value` under `key`: replaces the record of an entry with that key
    /// or adds an entry at the end.
    pub fn insert(&mut self, key: String, value: R)
        ensures
            final(self)@ == old(self)@.insert(key@, value@),
            old(self)@.dom().contains(key@) ==> final(self).entries().len() == old(self).entries().len(),
            !old(self)@.dom().contains(key@) ==> final(self).entries() == old(self).entries().push(
                (key@, value@),
            ),
    {
        match self.index_of(key.as_str()) {
            Some(i) => {
                self.set_at(i, value);
            },
            None => {
                proof {
                    use_type_invariant(&*self);
                }
                let ghost old_entries = self.entries@;
                let ghost k = key@;
                let mut entries = Vec::new();
                std::mem::swap(&mut entries, &mut self.entries);
                entries.push((key, value));
                proof {
                    lemma_entries_map_dom(old_entries, k);
                    assert forall|a: int, b: int| 0 <= a < b < entries@.len() implies (
                    #[trigger] entries@[a]).0@ != (#[trigger] entries@[b]).0@ by {
                        if b == entries@.len() - 1 {
                            assert(entries@[a] == old_entries[a]);
                        } else {
                            assert(entries@[a] == old_entries[a] && entries@[b] == old_entries[b]);
                        }
                    }
                    assert(entries@.drop_last() =~= old_entries);
                    assert(entries_view(entries@) =~= entries_view(old_entries).push((k, value@)));
                }
                self.entries = entries;
            },
        }
    }
}

impl<R: Clone> Clone for Table<R> {
    /// A table with the same keys, in the same order, and clones of the
    /// records.
    fn clone(&self) -> (r: Self)
        ensures
            r.keys() == self.keys(),
            forall|i: int| 0 <= i < self.keys().len() ==> cloned::<R>(self.record_at(i), #[trigger] r.record_at(i)),
    {
        proof {
            use_type_invariant(self);
        }
        let mut entries: Vec<(String, R)> = Vec::new();
        let mut i: usize = 0;
        while i < self.entries.len()
            invariant
                i <= self.entries@.len(),
                keys_unique(self.entries@),
                entries@.len() == i,
                forall|j: int| 0 <= j < i ==> (#[trigger] entries@[j]).0@ == self.entries@[j].0@,
                forall|j: int| 0 <= j < i ==> cloned::<R>(self.entries@[j].1, #[trigger] entries@[j].1),
            decreases self.entries@.len() - i,
        {
            let key = self.entries[i].0.clone();
            let value = self.entries[i].1.clone();
            entries.push((key, value));
            i = i + 1;
        }
        assert(keys_unique(entries@)) by {
            assert forall|a: int, b: int| 0 <= a < b < entries@.len() implies (#[trigger] entries@[a]).0@
                != (#[trigger] entries@[b]).0@ by {
                assert(self.entries@[a].0@ != self.entries@[b].0@);
            }
        }
        let r = Table { entries };
        assert(r.keys() =~= self.keys());
        r
    }
}

proof fn lemma_len_matches<R: View>(s: Seq<(String, R)>)
    requires
        keys_unique(s),
    ensures
        entries_map(s).len() == s.len(),
        entries_map(s).dom().finite(),
    decreases s.len(),
{
    if s.len() > 0 {
        let t = s.drop_last();
        assert(keys_unique(t)) by {
            assert forall|a: int, b: int| 0 <= a < b < t.len() implies (#[trigger] t[a]).0@ != (
            #[trigger] t[b]).0@ by {
                assert(t[a] == s[a] && t[b] == s[b]);
            }
        }
        lemma_len_matches(t);
        lemma_entries_map_dom(t, s.last().0@);
        if entries_map(t).dom().contains(s.last().0@) {
            let i = choose|i: int| 0 <= i < t.len() && (#[trigger] t[i]).0@ == s.last().0@;
            assert(t[i] == s[i]);
        }
    }
}

} // verus!
