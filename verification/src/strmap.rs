//! A small map keyed by strings, kept as a list of entries in insertion
//! order where a later entry for a key overrides the earlier ones.
use vstd::prelude::*;

verus! {

#[derive(Debug)]
pub struct StrMap<V> {
    pub entries: Vec<(String, V)>,
}

/// The map that a list of entries denotes: later entries win.
pub open spec fn map_of<V: View>(s: Seq<(String, V)>) -> Map<Seq<char>, V::V>
    decreases s.len(),
{
    if s.len() == 0 {
        Map::empty()
    } else {
        map_of(s.drop_last()).insert(s.last().0@, s.last().1@)
    }
}

impl<V: View> View for StrMap<V> {
    type V = Map<Seq<char>, V::V>;

    open spec fn view(&self) -> Map<Seq<char>, V::V> {
        map_of(self.entries@)
    }
}

pub proof fn lemma_map_of_last<V: View>(s: Seq<(String, V)>, k: Seq<char>, i: int)
    requires
        0 <= i < s.len(),
        s[i].0@ == k,
        forall|j: int| i < j < s.len() ==> s[j].0@ != k,
    ensures
        map_of(s).contains_key(k),
        map_of(s)[k] == s[i].1@,
    decreases s.len(),
{
    if i < s.len() - 1 {
        lemma_map_of_last(s.drop_last(), k, i);
    }
}

pub proof fn lemma_map_of_none<V: View>(s: Seq<(String, V)>, k: Seq<char>)
    requires
        forall|j: int| 0 <= j < s.len() ==> s[j].0@ != k,
    ensures
        !map_of(s).contains_key(k),
    decreases s.len(),
{
    if s.len() > 0 {
        lemma_map_of_none(s.drop_last(), k);
    }
}

pub proof fn lemma_map_of_empty<V: View>(s: Seq<(String, V)>)
    ensures
        map_of(s).dom().len() == 0 <==> s.len() == 0,
        s.len() > 0 ==> map_of(s).contains_key(s.last().0@),
    decreases s.len(),
{
    if s.len() > 0 {
        lemma_map_of_domain_finite(s.drop_last());
        assert(map_of(s).contains_key(s.last().0@));
        assert(map_of(s).dom().contains(s.last().0@));
    } else {
        assert(map_of(s).dom() =~= Set::empty());
    }
}

pub proof fn lemma_map_of_domain_finite<V: View>(s: Seq<(String, V)>)
    ensures
        map_of(s).dom().finite(),
    decreases s.len(),
{
    if s.len() > 0 {
        lemma_map_of_domain_finite(s.drop_last());
    }
}

impl<V: View> StrMap<V> {
    /// The empty map.
    pub fn new() -> (r: Self)
        ensures
            r@ == Map::<Seq<char>, V::V>::empty(),
    {
        StrMap { entries: Vec::new() }
    }

    /// The map of the given entries, later ones winning.
    pub fn from_pairs(pairs: Vec<(String, V)>) -> (r: Self)
        ensures
            r@ == map_of(pairs@),
    {
        StrMap { entries: pairs }
    }

    /// Binds `k` to `v`.
    pub fn insert(&mut self, k: String, v: V)
        ensures
            final(self)@ == old(self)@.insert(k@, v@),
    {
        self.entries.push((k, v));
        proof {
            assert(self.entries@.drop_last() == old(self).entries@);
        }
    }

    /// Index of the last entry for `k`.
    fn last_index_of(&self, k: &str) -> (r: Option<usize>)
        ensures
            match r {
                Some(i) => i < self.entries@.len() && self.entries@[i as int].0@ == k@
                    && self@.contains_key(k@) && self@[k@] == self.entries@[i as int].1@,
                None => !self@.contains_key(k@),
            },
    {
        let key = String::from_str(k);
        let mut n = self.entries.len();
        while n > 0
            invariant
                n <= self.entries@.len(),
                key@ == k@,
                forall|j: int| n <= j < self.entries@.len() ==> self.entries@[j].0@ != k@,
            decreases n,
        {
            if self.entries[n - 1].0 == key {
                proof { lemma_map_of_last(self.entries@, k@, n - 1); }
                return Some(n - 1);
            }
            n -= 1;
        }
        proof { lemma_map_of_none(self.entries@, k@); }
        None
    }

    /// The value bound to `k`.
    pub fn get(&self, k: &str) -> (r: Option<&V>)
        ensures
            match r {
                Some(v) => self@.contains_key(k@) && self@[k@] == v@,
                None => !self@.contains_key(k@),
            },
    {
        match self.last_index_of(k) {
            Some(i) => Some(&self.entries[i].1),
            None => None,
        }
    }

    /// Whether `k` is bound.
    pub fn contains_key(&self, k: &str) -> (b: bool)
        ensures
            b == self@.contains_key(k@),
    {
        self.last_index_of(k).is_some()
    }

    /// Whether no key is bound.
    pub fn is_empty(&self) -> (b: bool)
        ensures
            b == (self@.dom().len() == 0),
    {
        proof { lemma_map_of_empty(self.entries@); }
        self.entries.len() == 0
    }
}

impl StrMap<String> {
    /// A copy of a string-valued map.
    pub fn copy(&self) -> (r: Self)
        ensures
            r@ == self@,
    {
        let mut entries: Vec<(String, String)> = Vec::new();
        let mut i: usize = 0;
        while i < self.entries.len()
            invariant
                i <= self.entries@.len(),
                entries@.len() == i,
                forall|j: int| 0 <= j < i ==> entries@[j].0@ == self.entries@[j].0@ && entries@[j].1@ == self.entries@[j].1@,
            decreases self.entries.len() - i,
        {
            let k = self.entries[i].0.clone();
            let v = self.entries[i].1.clone();
            entries.push((k, v));
            i += 1;
        }
        proof { lemma_map_of_same_views(entries@, self.entries@); }
        StrMap { entries }
    }
}

/// Entry lists with equal views denote the same map.
pub proof fn lemma_map_of_same_views<V: View>(a: Seq<(String, V)>, b: Seq<(String, V)>)
    requires
        a.len() == b.len(),
        forall|j: int| 0 <= j < a.len() ==> a[j].0@ == b[j].0@ && a[j].1@ == b[j].1@,
    ensures
        map_of(a) == map_of(b),
    decreases a.len(),
{
    if a.len() > 0 {
        lemma_map_of_same_views(a.drop_last(), b.drop_last());
    }
}


/// The map of two entry lists one after the other: the second's entries
/// win.
pub proof fn lemma_map_of_concat<V: View>(a: Seq<(String, V)>, b: Seq<(String, V)>)
    ensures
        map_of(a + b) == map_of(a).union_prefer_right(map_of(b)),
    decreases b.len(),
{
    if b.len() == 0 {
        assert(a + b =~= a);
        assert(map_of(a).union_prefer_right(map_of(b)) =~= map_of(a));
    } else {
        assert((a + b).drop_last() =~= a + b.drop_last());
        assert((a + b).last() == b.last());
        lemma_map_of_concat(a, b.drop_last());
        assert(map_of(a + b) =~= map_of(a).union_prefer_right(map_of(b)));
    }
}

/// The keys of the first `n` entries.
pub open spec fn keys_upto<V>(s: Seq<(String, V)>, n: int) -> Set<Seq<char>> {
    Set::new(|k: Seq<char>| exists|j: int| 0 <= j < n && #[trigger] s[j].0@ == k)
}

/// A list of entries binds exactly the keys of its entries.
pub proof fn lemma_map_of_dom<V: View>(s: Seq<(String, V)>)
    ensures
        map_of(s).dom() == keys_upto(s, s.len() as int),
    decreases s.len(),
{
    if s.len() > 0 {
        let d = s.drop_last();
        lemma_map_of_dom(d);
        assert forall|k: Seq<char>| #[trigger] map_of(s).dom().contains(k) <==> keys_upto(s, s.len() as int).contains(k) by {
            if map_of(d).dom().contains(k) {
                assert(keys_upto(d, d.len() as int).contains(k));
                let j = choose|j: int| 0 <= j < d.len() && #[trigger] d[j].0@ == k;
                assert(s[j].0@ == k);
            }
            if k == s.last().0@ {
                assert(s[s.len() - 1].0@ == k);
            }
            if keys_upto(s, s.len() as int).contains(k) {
                let j = choose|j: int| 0 <= j < s.len() && #[trigger] s[j].0@ == k;
                if j < s.len() - 1 {
                    assert(d[j].0@ == k);
                    assert(keys_upto(d, d.len() as int).contains(k));
                }
            }
        }
        assert(map_of(s).dom() =~= keys_upto(s, s.len() as int));
    } else {
        assert(map_of(s).dom() =~= keys_upto(s, s.len() as int));
    }
}

} // verus!
