//! A small map from resource ids to values, kept sorted by id so that walking
//! it visits resources in increasing id order.
use vstd::prelude::*;

verus! {

/// Sorted association list keyed by resource id.
pub struct IdMap<V> {
    entries: Vec<(u32, V)>,
}

/// Keys strictly increase along the list.
pub open spec fn keys_sorted<V>(s: Seq<(u32, V)>) -> bool {
    forall|i: int, j: int| 0 <= i < j < s.len() ==> s[i].0 < s[j].0
}

/// `k` is a key of the list.
pub open spec fn has_key<V>(s: Seq<(u32, V)>, k: u32) -> bool {
    exists|i: int| 0 <= i < s.len() && #[trigger] s[i].0 == k
}

/// The map a key-sorted list stands for.
pub open spec fn map_of<V>(s: Seq<(u32, V)>) -> Map<u32, V> {
    Map::new(|k: u32| has_key(s, k), |k: u32| s[choose|i: int| 0 <= i < s.len() && #[trigger] s[i].0 == k].1)
}

/// In a key-sorted list the entry of a key is found at its only position.
pub proof fn lemma_sorted_lookup<V>(s: Seq<(u32, V)>, i: int)
    requires
        keys_sorted(s),
        0 <= i < s.len(),
    ensures
        map_of(s).contains_key(s[i].0),
        map_of(s)[s[i].0] == s[i].1,
{
    let k = s[i].0;
    assert(has_key(s, k));
    let j = choose|j: int| 0 <= j < s.len() && #[trigger] s[j].0 == k;
    if j != i {
        if j < i {
            assert(s[j].0 < s[i].0);
        } else {
            assert(s[i].0 < s[j].0);
        }
    }
}

/// Replacing the value at a position keeps the keys and changes one entry of the map.
pub proof fn lemma_update_value<V>(s: Seq<(u32, V)>, i: int, v: V)
    requires
        keys_sorted(s),
        0 <= i < s.len(),
    ensures
        keys_sorted(s.update(i, (s[i].0, v))),
        map_of(s.update(i, (s[i].0, v))) == map_of(s).insert(s[i].0, v),
{
    let t = s.update(i, (s[i].0, v));
    assert(keys_sorted(t)) by {
        assert forall|a: int, b: int| 0 <= a < b < t.len() implies t[a].0 < t[b].0 by {
            assert(t[a].0 == s[a].0 && t[b].0 == s[b].0);
        }
    }
    assert forall|k: u32| has_key(t, k) <==> has_key(s, k) by {
        if has_key(t, k) {
            let a = choose|a: int| 0 <= a < t.len() && #[trigger] t[a].0 == k;
            assert(s[a].0 == k);
        }
        if has_key(s, k) {
            let a = choose|a: int| 0 <= a < s.len() && #[trigger] s[a].0 == k;
            assert(t[a].0 == k);
        }
    }
    assert forall|k: u32| #[trigger] has_key(t, k) implies map_of(t)[k] == map_of(s).insert(s[i].0, v)[k] by {
        let a = choose|a: int| 0 <= a < t.len() && #[trigger] t[a].0 == k;
        lemma_sorted_lookup(t, a);
        lemma_sorted_lookup(s, a);
    }
    assert(map_of(t) =~= map_of(s).insert(s[i].0, v));
}

/// Inserting a new key at a position that keeps the keys sorted adds it to the map.
pub proof fn lemma_insert_entry<V>(s: Seq<(u32, V)>, pos: int, k: u32, v: V)
    requires
        keys_sorted(s),
        0 <= pos <= s.len(),
        keys_sorted(s.insert(pos, (k, v))),
        !has_key(s, k),
    ensures
        map_of(s.insert(pos, (k, v))) == map_of(s).insert(k, v),
{
    let t = s.insert(pos, (k, v));
    assert forall|q: u32| has_key(t, q) <==> (has_key(s, q) || q == k) by {
        if has_key(t, q) {
            let a = choose|a: int| 0 <= a < t.len() && #[trigger] t[a].0 == q;
            if a < pos {
                assert(s[a].0 == q);
            } else if a > pos {
                assert(s[a - 1].0 == q);
            }
        }
        if has_key(s, q) {
            let a = choose|a: int| 0 <= a < s.len() && #[trigger] s[a].0 == q;
            if a < pos {
                assert(t[a].0 == q);
            } else {
                assert(t[a + 1].0 == q);
            }
        }
        if q == k {
            assert(t[pos].0 == q);
        }
    }
    assert forall|q: u32| #[trigger] has_key(t, q) implies map_of(t)[q] == map_of(s).insert(k, v)[q] by {
        let a = choose|a: int| 0 <= a < t.len() && #[trigger] t[a].0 == q;
        lemma_sorted_lookup(t, a);
        if a < pos {
            lemma_sorted_lookup(s, a);
        } else if a > pos {
            lemma_sorted_lookup(s, a - 1);
        }
    }
    assert(map_of(t) =~= map_of(s).insert(k, v));
}

impl<V> IdMap<V> {
    pub closed spec fn entries(&self) -> Seq<(u32, V)> {
        self.entries@
    }

    pub open spec fn wf(&self) -> bool {
        keys_sorted(self.entries())
    }

    pub open spec fn view(&self) -> Map<u32, V> {
        map_of(self.entries())
    }

    pub fn new() -> (m: Self)
        ensures
            m.entries() == Seq::<(u32, V)>::empty(),
            m.wf(),
    {
        IdMap { entries: Vec::new() }
    }

    pub fn len(&self) -> (r: usize)
        ensures
            r == self.entries().len(),
    {
        self.entries.len()
    }

    pub fn key_at(&self, i: usize) -> (k: u32)
        requires
            i < self.entries().len(),
        ensures
            k == self.entries()[i as int].0,
    {
        self.entries[i].0
    }

    pub fn value_at(&self, i: usize) -> (v: &V)
        requires
            i < self.entries().len(),
        ensures
            *v == self.entries()[i as int].1,
    {
        &self.entries[i].1
    }

    pub fn value_at_mut(&mut self, i: usize) -> (v: &mut V)
        requires
            i < old(self).entries().len(),
        ensures
            *v == old(self).entries()[i as int].1,
            final(self).entries() == old(self).entries().update(i as int, (old(self).entries()[i as int].0, *final(v))),
    {
        &mut self.entries[i].1
    }

    /// Position of `k`, if present.
    pub fn find(&self, k: u32) -> (r: Option<usize>)
        ensures
            match r {
                Some(i) => i < self.entries().len() && self.entries()[i as int].0 == k,
                None => !has_key(self.entries(), k),
            },
    {
        let mut i: usize = 0;
        while i < self.entries.len()
            invariant
                i <= self.entries().len(),
                forall|j: int| 0 <= j < i ==> self.entries()[j].0 != k,
            decreases self.entries().len() - i,
        {
            if self.entries[i].0 == k {
                return Some(i);
            }
            i = i + 1;
        }
        None
    }

    /// Insert a key that is not present yet, keeping the keys sorted; returns
    /// the position it was put at.
    pub fn insert_new(&mut self, k: u32, v: V) -> (pos: usize)
        requires
            old(self).wf(),
            !has_key(old(self).entries(), k),
        ensures
            final(self).wf(),
            pos <= old(self).entries().len(),
            final(self).entries() == old(self).entries().insert(pos as int, (k, v)),
    {
        let mut pos: usize = 0;
        while pos < self.entries.len() && self.entries[pos].0 < k
            invariant
                pos <= self.entries().len(),
                forall|j: int| 0 <= j < pos ==> self.entries()[j].0 < k,
            decreases self.entries().len() - pos,
        {
            pos = pos + 1;
        }
        proof {
            if pos < self.entries().len() {
                assert(self.entries()[pos as int].0 != k);
            }
        }
        self.entries.insert(pos, (k, v));
        proof {
            let s = self.entries();
            assert forall|i: int, j: int| 0 <= i < j < s.len() implies s[i].0 < s[j].0 by {
                let o = old(self).entries();
                if j < pos {
                    assert(s[i] == o[i] && s[j] == o[j]);
                } else if j == pos {
                    assert(s[i] == o[i]);
                } else if i == pos {
                    assert(s[j] == o[j - 1]);
                    assert(o[j - 1].0 >= k);
                } else if i < pos {
                    assert(s[i] == o[i] && s[j] == o[j - 1]);
                } else {
                    assert(s[i] == o[i - 1] && s[j] == o[j - 1]);
                }
            }
        }
        pos
    }
}

} // verus!
