//! A string-keyed map stored as a vector of key/value entries with unique
//! keys, modelled in specifications as a `Map<Seq<char>, V>`.

use crate::strutil::str_eq;
use vstd::prelude::*;

verus! {

/// The map denoted by a sequence of key/value entries, later entries
/// overriding earlier ones.
pub open spec fn entries_map<V>(s: Seq<(Seq<char>, V)>) -> Map<Seq<char>, V>
    decreases s.len(),
{
    if s.len() == 0 {
        Map::empty()
    } else {
        entries_map(s.drop_last()).insert(s.last().0, s.last().1)
    }
}

/// No two entries share a key.
pub open spec fn unique_keys<V>(s: Seq<(Seq<char>, V)>) -> bool {
    forall|i: int, j: int| 0 <= i < j < s.len() ==> (#[trigger] s[i]).0 != (#[trigger] s[j]).0
}

proof fn lemma_em_contains<V>(s: Seq<(Seq<char>, V)>, k: Seq<char>)
    ensures
        entries_map(s).contains_key(k) <==> exists|i: int| 0 <= i < s.len() && (#[trigger] s[i]).0 == k,
    decreases s.len(),
{
    if s.len() > 0 {
        lemma_em_contains(s.drop_last(), k);
        if entries_map(s).contains_key(k) {
            if s.last().0 == k {
                assert(s[s.len() - 1].0 == k);
            } else {
                assert(exists|i: int| 0 <= i < s.len() - 1 && (#[trigger] s.drop_last()[i]).0 == k);
                let i = choose|i: int| 0 <= i < s.len() - 1 && (#[trigger] s.drop_last()[i]).0 == k;
                assert(s[i].0 == k);
            }
        }
        if exists|i: int| 0 <= i < s.len() && (#[trigger] s[i]).0 == k {
            let i = choose|i: int| 0 <= i < s.len() && (#[trigger] s[i]).0 == k;
            if i < s.len() - 1 {
                assert(s.drop_last()[i].0 == k);
            }
        }
    }
}

proof fn lemma_em_value<V>(s: Seq<(Seq<char>, V)>, i: int)
    requires
        unique_keys(s),
        0 <= i < s.len(),
    ensures
        entries_map(s).contains_key(s[i].0),
        entries_map(s)[s[i].0] == s[i].1,
    decreases s.len(),
{
    if i == s.len() - 1 {
    } else {
        assert(unique_keys(s.drop_last())) by {
            assert(forall|a: int, b: int|
                0 <= a < b < s.len() - 1 ==> (#[trigger] s.drop_last()[a]).0 != (#[trigger] s.drop_last()[b]).0);
        }
        lemma_em_value(s.drop_last(), i);
        assert(s.drop_last()[i] == s[i]);
        assert(s[i].0 != s.last().0);
    }
}

proof fn lemma_em_update<V>(s: Seq<(Seq<char>, V)>, i: int, e: (Seq<char>, V))
    requires
        unique_keys(s),
        0 <= i < s.len(),
        s[i].0 == e.0,
    ensures
        entries_map(s.update(i, e)) =~= entries_map(s).insert(e.0, e.1),
    decreases s.len(),
{
    let t = s.update(i, e);
    if i == s.len() - 1 {
        assert(t.drop_last() =~= s.drop_last());
        assert(t.last() == e);
    } else {
        assert(unique_keys(s.drop_last())) by {
            assert(forall|a: int, b: int|
                0 <= a < b < s.len() - 1 ==> (#[trigger] s.drop_last()[a]).0 != (#[trigger] s.drop_last()[b]).0);
        }
        assert(t.drop_last() =~= s.drop_last().update(i, e));
        lemma_em_update(s.drop_last(), i, e);
        assert(t.last() == s.last());
        assert(s[i].0 != s.last().0);
        assert(entries_map(s.drop_last()).insert(e.0, e.1).insert(s.last().0, s.last().1)
            =~= entries_map(s.drop_last()).insert(s.last().0, s.last().1).insert(e.0, e.1));
    }
}

/// A map from names to values, held as a vector of entries with unique keys.
#[derive(Clone, Debug)]
pub struct NameMap<V> {
    entries: Vec<(String, V)>,
}

impl<V> View for NameMap<V> {
    type V = Map<Seq<char>, V>;

    open spec fn view(&self) -> Map<Seq<char>, V> {
        entries_map(self.entries_seq())
    }
}

impl<V> NameMap<V> {
    /// The entries in insertion order, as (key characters, value) pairs.
    pub closed spec fn entries_seq(&self) -> Seq<(Seq<char>, V)> {
        self.entries@.map_values(|e: (String, V)| (e.0@, e.1))
    }

    /// Well-formed: no two entries share a key.
    pub closed spec fn wf(&self) -> bool {
        unique_keys(self.entries_seq())
    }

    pub fn new() -> (r: NameMap<V>)
        ensures
            r.wf(),
            r@ == Map::<Seq<char>, V>::empty(),
            r.entries_seq() == Seq::<(Seq<char>, V)>::empty(),
    {
        let r = NameMap { entries: Vec::new() };
        proof {
            assert(r.entries_seq() =~= Seq::<(Seq<char>, V)>::empty());
        }
        r
    }

    pub fn num_entries(&self) -> (n: usize)
        ensures
            n == self.entries_seq().len(),
    {
        self.entries.len()
    }

    pub fn key_at(&self, i: usize) -> (k: &String)
        requires
            i < self.entries_seq().len(),
        ensures
            k@ == self.entries_seq()[i as int].0,
    {
        &self.entries[i].0
    }

    pub fn value_at(&self, i: usize) -> (v: &V)
        requires
            i < self.entries_seq().len(),
        ensures
            *v == self.entries_seq()[i as int].1,
    {
        &self.entries[i].1
    }

    /// Each entry is present in the map view with its value.
    pub proof fn lemma_entry_in_view(&self, i: int)
        requires
            self.wf(),
            0 <= i < self.entries_seq().len(),
        ensures
            self@.contains_key(self.entries_seq()[i].0),
            self@[self.entries_seq()[i].0] == self.entries_seq()[i].1,
    {
        lemma_em_value(self.entries_seq(), i);
    }

    /// Every key of the map view appears among the entries.
    pub proof fn lemma_view_in_entries(&self, k: Seq<char>)
        requires
            self@.contains_key(k),
        ensures
            exists|i: int| 0 <= i < self.entries_seq().len() && (#[trigger] self.entries_seq()[i]).0 == k,
    {
        lemma_em_contains(self.entries_seq(), k);
    }

    /// Insert a value under a key, replacing any previous value.
    pub fn insert(&mut self, k: String, v: V)
        requires
            old(self).wf(),
        ensures
            final(self).wf(),
            final(self)@ == old(self)@.insert(k@, v),
    {
        let n = self.entries.len();
        let mut i: usize = 0;
        while i < n
            invariant
                self == old(self),
                old(self).wf(),
                n == self.entries@.len(),
                0 <= i <= n,
                forall|j: int| 0 <= j < i ==> (#[trigger] self.entries_seq()[j]).0 != k@,
            decreases n - i,
        {
            if str_eq(self.entries[i].0.as_str(), k.as_str()) {
                let ghost s0 = self.entries_seq();
                proof {
                    assert(s0[i as int].0 == k@);
                    lemma_em_update(s0, i as int, (k@, v));
                }
                self.entries[i] = (k, v);
                proof {
                    let s1 = self.entries_seq();
                    assert(s1 =~= s0.update(i as int, (k@, v)));
                    assert forall|a: int| 0 <= a < s1.len() implies (#[trigger] s1[a]).0 == s0[a].0 by {
                        if a != i as int {
                            assert(s1[a] == s0[a]);
                        }
                    }
                    assert(unique_keys(s1));
                    assert(self@ =~= old(self)@.insert(k@, v));
                }
                return;
            }
            i += 1;
        }
        let ghost s0 = self.entries_seq();
        self.entries.push((k, v));
        proof {
            let s1 = self.entries_seq();
            assert(s1 =~= s0.push((k@, v)));
            assert(s1.drop_last() =~= s0);
            assert forall|a: int, b: int| 0 <= a < b < s1.len() implies (#[trigger] s1[a]).0 != (
            #[trigger] s1[b]).0 by {
                if b < s1.len() - 1 {
                    assert(s0[a].0 != s0[b].0);
                } else {
                    assert(s1[a] == s0[a]);
                    assert(s0[a].0 != k@);
                }
            }
            assert(self@ =~= old(self)@.insert(k@, v));
        }
    }

    /// Look a key up; returns the stored value exactly when the key is present.
    pub fn get(&self, k: &str) -> (r: Option<&V>)
        requires
            self.wf(),
        ensures
            match r {
                Some(v) => self@.contains_key(k@) && self@[k@] == *v,
                None => !self@.contains_key(k@),
            },
    {
        let n = self.entries.len();
        let mut i: usize = 0;
        while i < n
            invariant
                self.wf(),
                n == self.entries@.len(),
                0 <= i <= n,
                forall|j: int| 0 <= j < i ==> (#[trigger] self.entries_seq()[j]).0 != k@,
            decreases n - i,
        {
            if str_eq(self.entries[i].0.as_str(), k) {
                assert(self.entries_seq()[i as int].0 == k@);
                proof {
                    lemma_em_value(self.entries_seq(), i as int);
                }
                return Some(&self.entries[i].1);
            }
            i += 1;
        }
        proof {
            lemma_em_contains(self.entries_seq(), k@);
        }
        None
    }

    /// Whether a key is present.
    pub fn contains_key(&self, k: &str) -> (r: bool)
        requires
            self.wf(),
        ensures
            r == self@.contains_key(k@),
    {
        match self.get(k) {
            Some(_) => true,
            None => false,
        }
    }
}

} // verus!
