//! A small map kept as a list of key-value pairs with distinct keys.

use vstd::prelude::*;
use crate::address::SocketAddress;

verus! {

/// Keys whose equality can be tested in executable code.
pub trait TableKey: Copy {
    fn key_eq(&self, other: &Self) -> (b: bool)
        ensures
            b == (*self == *other),
    ;
}

impl TableKey for SocketAddress {
    fn key_eq(&self, other: &Self) -> (b: bool) {
        self.same_as(other)
    }
}

/// No key occurs twice.
pub open spec fn keys_distinct<K, V>(s: Seq<(K, V)>) -> bool {
    forall|i: int, j: int| 0 <= i < j < s.len() ==> s[i].0 != s[j].0
}

/// The map the pairs stand for; a later pair wins over an earlier one.
pub open spec fn pairs_to_map<K, V>(s: Seq<(K, V)>) -> Map<K, V>
    decreases s.len(),
{
    if s.len() == 0 {
        Map::empty()
    } else {
        pairs_to_map(s.drop_last()).insert(s.last().0, s.last().1)
    }
}

/// With distinct keys, the map holds exactly the listed keys, each with its value.
pub proof fn lemma_pairs_to_map<K, V>(s: Seq<(K, V)>)
    requires
        keys_distinct(s),
    ensures
        forall|k: K|
            pairs_to_map(s).contains_key(k) <==> exists|i: int| 0 <= i < s.len() && s[i].0 == k,
        forall|i: int| 0 <= i < s.len() ==> pairs_to_map(s)[#[trigger] s[i].0] == s[i].1,
    decreases s.len(),
{
    if s.len() > 0 {
        let d = s.drop_last();
        assert forall|a: int, b: int| 0 <= a < b < d.len() implies d[a].0 != d[b].0 by {
            assert(d[a] == s[a]);
            assert(d[b] == s[b]);
        }
        lemma_pairs_to_map(d);
        assert forall|k: K| pairs_to_map(s).contains_key(k) implies exists|i: int|
            0 <= i < s.len() && s[i].0 == k by {
            if k != s.last().0 {
                assert(pairs_to_map(d).contains_key(k));
                let i = choose|i: int| 0 <= i < d.len() && d[i].0 == k;
                assert(d[i] == s[i]);
                assert(s[i].0 == k);
            } else {
                assert(s[s.len() - 1].0 == k);
            }
        }
        assert forall|i: int| 0 <= i < s.len() implies pairs_to_map(s)[#[trigger] s[i].0]
            == s[i].1 by {
            if i < s.len() - 1 {
                assert(d[i] == s[i]);
                assert(s[i].0 != s.last().0);
            }
        }
        assert forall|k: K| (exists|i: int| 0 <= i < s.len() && s[i].0 == k) implies pairs_to_map(
            s,
        ).contains_key(k) by {
            let i = choose|i: int| 0 <= i < s.len() && s[i].0 == k;
            if i < s.len() - 1 {
                assert(d[i] == s[i]);
            }
        }
    }
}

/// Removing the pair at `i` removes its key from the map.
pub proof fn lemma_pairs_remove<K, V>(s: Seq<(K, V)>, i: int)
    requires
        keys_distinct(s),
        0 <= i < s.len(),
    ensures
        keys_distinct(s.remove(i)),
        pairs_to_map(s.remove(i)) == pairs_to_map(s).remove(s[i].0),
{
    let r = s.remove(i);
    assert forall|a: int, b: int| 0 <= a < b < r.len() implies r[a].0 != r[b].0 by {
        let a2 = if a < i { a } else { a + 1 };
        let b2 = if b < i { b } else { b + 1 };
        assert(r[a] == s[a2]);
        assert(r[b] == s[b2]);
    }
    lemma_pairs_to_map(s);
    lemma_pairs_to_map(r);
    let m = pairs_to_map(s).remove(s[i].0);
    let mr = pairs_to_map(r);
    assert forall|k: K| mr.contains_key(k) <==> m.contains_key(k) by {
        if mr.contains_key(k) {
            let j = choose|j: int| 0 <= j < r.len() && r[j].0 == k;
            let j2 = if j < i { j } else { j + 1 };
            assert(r[j] == s[j2]);
        }
        if m.contains_key(k) {
            let j = choose|j: int| 0 <= j < s.len() && s[j].0 == k;
            assert(j != i);
            let j2 = if j < i { j } else { j - 1 };
            assert(r[j2] == s[j]);
        }
    }
    assert forall|k: K| mr.contains_key(k) implies mr[k] == m[k] by {
        let j = choose|j: int| 0 <= j < r.len() && r[j].0 == k;
        let j2 = if j < i { j } else { j + 1 };
        assert(r[j] == s[j2]);
        assert(mr[r[j].0] == r[j].1);
        assert(pairs_to_map(s)[s[j2].0] == s[j2].1);
    }
    assert(mr =~= m);
}

/// A map with few entries, as key-value pairs.
#[derive(Debug)]
pub struct AssocList<K, V> {
    entries: Vec<(K, V)>,
}

impl<K: TableKey, V> View for AssocList<K, V> {
    type V = Map<K, V>;

    closed spec fn view(&self) -> Map<K, V> {
        pairs_to_map(self.entries@)
    }
}

impl<K: TableKey, V> AssocList<K, V> {
    /// No key occurs twice in the list.
    pub closed spec fn wf(&self) -> bool {
        keys_distinct(self.entries@)
    }

    pub fn new() -> (l: Self)
        ensures
            l.wf(),
            l@ == Map::<K, V>::empty(),
    {
        AssocList { entries: Vec::new() }
    }

    fn find(&self, k: &K) -> (r: Option<usize>)
        requires
            self.wf(),
        ensures
            match r {
                Some(i) => i < self.entries@.len() && self.entries@[i as int].0 == *k,
                None => !self@.contains_key(*k),
            },
    {
        proof {
            lemma_pairs_to_map(self.entries@);
        }
        let mut i: usize = 0;
        while i < self.entries.len()
            invariant
                i <= self.entries@.len(),
                forall|j: int| 0 <= j < i ==> self.entries@[j].0 != *k,
            decreases self.entries@.len() - i,
        {
            if self.entries[i].0.key_eq(k) {
                return Some(i);
            }
            i = i + 1;
        }
        None
    }

    /// The value of `k`, if there is one.
    pub fn get(&self, k: &K) -> (r: Option<&V>)
        requires
            self.wf(),
        ensures
            match r {
                Some(v) => self@.contains_key(*k) && *v == self@[*k],
                None => !self@.contains_key(*k),
            },
    {
        proof {
            lemma_pairs_to_map(self.entries@);
        }
        match self.find(k) {
            Some(i) => Some(&self.entries[i].1),
            None => None,
        }
    }

    /// Takes out the value of `k`, if there is one.
    pub fn remove(&mut self, k: &K) -> (r: Option<V>)
        requires
            old(self).wf(),
        ensures
            final(self).wf(),
            final(self)@ == old(self)@.remove(*k),
            match r {
                Some(v) => old(self)@.contains_key(*k) && v == old(self)@[*k],
                None => !old(self)@.contains_key(*k),
            },
    {
        proof {
            lemma_pairs_to_map(self.entries@);
        }
        match self.find(k) {
            Some(i) => {
                proof {
                    lemma_pairs_remove(self.entries@, i as int);
                }
                let (_, v) = self.entries.remove(i);
                Some(v)
            },
            None => {
                assert(self@.remove(*k) =~= self@);
                None
            },
        }
    }

    /// Sets the value of `k`, replacing any value it had.
    pub fn insert(&mut self, k: K, v: V)
        requires
            old(self).wf(),
        ensures
            final(self).wf(),
            final(self)@ == old(self)@.insert(k, v),
    {
        let _ = self.remove(&k);
        proof {
            lemma_pairs_to_map(self.entries@);
        }
        let ghost before = self.entries@;
        assert forall|i: int| 0 <= i < before.len() implies before[i].0 != k by {
            if before[i].0 == k {
                assert(pairs_to_map(before).contains_key(k));
            }
        }
        self.entries.push((k, v));
        assert forall|a: int, b: int| 0 <= a < b < self.entries@.len() implies self.entries@[a].0
            != self.entries@[b].0 by {
            if b == self.entries@.len() - 1 {
                assert(self.entries@[a] == before[a]);
            } else {
                assert(self.entries@[a] == before[a]);
                assert(self.entries@[b] == before[b]);
            }
        }
        assert(self.entries@.drop_last() =~= before);
        assert(self@ =~= old(self)@.insert(k, v));
    }
}

} // verus!
