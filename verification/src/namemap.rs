//! A name-keyed mapping with insertion order kept and keys unique: the
//! registry's type, enum and command collections.  Its spec value is a
//! `Map` from name to entry value; inserting an existing name replaces its
//! entry in place (last wins).

use vstd::prelude::*;
use crate::strutil::str_eq;

verus! {

/// The map a keyed entry list denotes, later entries winning.
pub open spec fn entries_map<T: View>(s: Seq<(String, T)>) -> Map<Seq<char>, T::V>
    decreases s.len(),
{
    if s.len() == 0 {
        Map::empty()
    } else {
        entries_map(s.drop_last()).insert(s.last().0@, s.last().1@)
    }
}

/// Pairwise-distinct key views.
pub open spec fn unique_keys<T>(s: Seq<(String, T)>) -> bool {
    forall|i: int, j: int| 0 <= i < j < s.len() ==> (#[trigger] s[i]).0@ != (#[trigger] s[j]).0@
}

/// A name-keyed collection of entries.
#[derive(Debug)]
pub struct NameMap<V> {
    entries: Vec<(String, V)>,
}

/// An entry found by key has the value the map records for that key.
proof fn lemma_entries_map_found<T: View>(s: Seq<(String, T)>, i: int)
    requires
        unique_keys(s),
        0 <= i < s.len(),
    ensures
        entries_map(s).contains_key(s[i].0@),
        entries_map(s)[s[i].0@] == s[i].1@,
    decreases s.len(),
{
    if i < s.len() - 1 {
        assert(s.drop_last()[i] == s[i]);
        lemma_entries_map_found(s.drop_last(), i);
    }
}

/// A key matching no entry is absent from the map.
proof fn lemma_entries_map_absent<T: View>(s: Seq<(String, T)>, k: Seq<char>)
    requires
        forall|j: int| 0 <= j < s.len() ==> (#[trigger] s[j]).0@ != k,
    ensures
        !entries_map(s).contains_key(k),
    decreases s.len(),
{
    if s.len() > 0 {
        assert(forall|j: int| 0 <= j < s.drop_last().len() ==>
            (#[trigger] s.drop_last()[j]).0@ != k);
        lemma_entries_map_absent(s.drop_last(), k);
    }
}

/// Replacing the entry holding a key records the new value for that key and
/// nothing else.
proof fn lemma_entries_map_update<T: View>(s: Seq<(String, T)>, i: int, kv: (String, T))
    requires
        unique_keys(s),
        0 <= i < s.len(),
        s[i].0@ == kv.0@,
    ensures
        entries_map(s.update(i, kv)) == entries_map(s).insert(kv.0@, kv.1@),
        unique_keys(s.update(i, kv)),
    decreases s.len(),
{
    let t = s.update(i, kv);
    assert(unique_keys(t)) by {
        assert(forall|j: int| 0 <= j < s.len() && j != i ==> t[j] == s[j]);
        assert(t[i].0@ == s[i].0@);
    }
    if i == s.len() - 1 {
        assert(t.drop_last() =~= s.drop_last());
        assert(t.last() == kv);
        assert(entries_map(s).insert(kv.0@, kv.1@) =~=
            entries_map(s.drop_last()).insert(kv.0@, kv.1@));
    } else {
        assert(t.drop_last() =~= s.drop_last().update(i, kv));
        assert(s.drop_last()[i] == s[i]);
        lemma_entries_map_update(s.drop_last(), i, kv);
        assert(t.last() == s.last());
        // The replaced key differs from the last entry's key, so the two
        // insertions commute.
        assert(s.last().0@ != kv.0@);
        assert(entries_map(s.drop_last()).insert(kv.0@, kv.1@).insert(s.last().0@, s.last().1@)
            =~= entries_map(s.drop_last()).insert(s.last().0@, s.last().1@).insert(
            kv.0@,
            kv.1@,
        ));
    }
}

/// The map a sequence of spec-level pairs denotes, later pairs winning.
pub open spec fn pairs_map<W>(s: Seq<(Seq<char>, W)>) -> Map<Seq<char>, W>
    decreases s.len(),
{
    if s.len() == 0 {
        Map::empty()
    } else {
        pairs_map(s.drop_last()).insert(s.last().0, s.last().1)
    }
}

/// A keyed entry list denotes the same map as its sequence of spec pairs.
proof fn lemma_entries_pairs<T: View>(s: Seq<(String, T)>)
    ensures
        entries_map(s) == pairs_map(s.map_values(|e: (String, T)| (e.0@, e.1@))),
    decreases s.len(),
{
    let sv = s.map_values(|e: (String, T)| (e.0@, e.1@));
    if s.len() > 0 {
        lemma_entries_pairs(s.drop_last());
        assert(sv.drop_last() =~= s.drop_last().map_values(|e: (String, T)| (e.0@, e.1@)));
        assert(sv.last() == (s.last().0@, s.last().1@));
    } else {
        assert(sv.len() == 0);
    }
}

impl<V: View> View for NameMap<V> {
    type V = Map<Seq<char>, V::V>;

    closed spec fn view(&self) -> Map<Seq<char>, V::V> {
        entries_map(self.entries@)
    }
}

impl<V: View> NameMap<V> {
    /// Well-formedness: keys are unique, so lookups agree with the map.
    pub closed spec fn wf(&self) -> bool {
        unique_keys(self.entries@)
    }

    /// The entries in insertion order, as spec values.
    pub closed spec fn entry_seq(&self) -> Seq<(Seq<char>, V::V)> {
        self.entries@.map_values(|e: (String, V)| (e.0@, e.1@))
    }

    pub fn new() -> (r: NameMap<V>)
        ensures
            r.wf(),
            r@ == Map::<Seq<char>, V::V>::empty(),
            r.entry_seq() == Seq::<(Seq<char>, V::V)>::empty(),
    {
        let r = NameMap { entries: Vec::new() };
        proof {
            assert(r.entry_seq() =~= Seq::<(Seq<char>, V::V)>::empty());
        }
        r
    }

    /// How many entries the map holds.
    pub fn len(&self) -> (r: usize)
        ensures
            r == self.entry_seq().len(),
    {
        self.entries.len()
    }

    /// The entry at an insertion-order position.
    pub fn entry_at(&self, i: usize) -> (r: &(String, V))
        requires
            i < self.entry_seq().len(),
        ensures
            (r.0@, r.1@) == self.entry_seq()[i as int],
    {
        &self.entries[i]
    }

    /// The map is exactly what its entry sequence denotes, in order.
    pub proof fn lemma_view_is_pairs_map(&self)
        ensures
            self@ == pairs_map(self.entry_seq()),
    {
        lemma_entries_pairs(self.entries@);
    }

    /// Looks a name up.
    pub fn get(&self, k: &str) -> (r: Option<&V>)
        requires
            self.wf(),
        ensures
            match r {
                Option::Some(v) => self@.contains_key(k@) && v@ == self@[k@],
                Option::None => !self@.contains_key(k@),
            },
    {
        let mut i: usize = 0;
        while i < self.entries.len()
            invariant
                i <= self.entries.len(),
                self.wf(),
                forall|j: int| 0 <= j < i ==> (#[trigger] self.entries@[j]).0@ != k@,
            decreases self.entries.len() - i,
        {
            if str_eq(self.entries[i].0.as_str(), k) {
                proof {
                    lemma_entries_map_found(self.entries@, i as int);
                }
                return Some(&self.entries[i].1);
            }
            i += 1;
        }
        proof {
            lemma_entries_map_absent(self.entries@, k@);
        }
        None
    }

    /// Whether a name is present.
    pub fn contains_key(&self, k: &str) -> (r: bool)
        requires
            self.wf(),
        ensures
            r == self@.contains_key(k@),
    {
        match self.get(k) {
            Some(_) => true,
            None => false,
        }
    }

    /// Inserts an entry; an existing name's entry is replaced in place.
    pub fn insert(&mut self, k: String, v: V)
        requires
            old(self).wf(),
        ensures
            final(self).wf(),
            final(self)@ == old(self)@.insert(k@, v@),
    {
        let mut i: usize = 0;
        while i < self.entries.len()
            invariant
                i <= self.entries.len(),
                self == old(self),
                self.wf(),
                forall|j: int| 0 <= j < i ==> (#[trigger] self.entries@[j]).0@ != k@,
            decreases self.entries.len() - i,
        {
            if str_eq(self.entries[i].0.as_str(), k.as_str()) {
                proof {
                    lemma_entries_map_update(self.entries@, i as int, (k, v));
                }
                let slot = &mut self.entries[i];
                *slot = (k, v);
                return ;
            }
            i += 1;
        }
        proof {
            let s = self.entries@;
            let t = s.push((k, v));
            assert(t.drop_last() =~= s);
            assert(unique_keys(t)) by {
                assert(forall|j: int| 0 <= j < s.len() ==> t[j] == s[j]);
            }
        }
        self.entries.push((k, v));
    }

}

} // verus!
