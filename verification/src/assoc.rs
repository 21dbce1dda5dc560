use vstd::prelude::*;

verus! {

/// A key that can be compared by its view.
pub trait MapKey: View + Sized {
    /// Whether two keys have the same view.
    fn key_eq(&self, other: &Self) -> (r: bool)
        ensures
            r == (self@ == other@),
    ;
}

/// The map that a list of entries denotes: the first entry of a key wins.
pub open spec fn assoc_of<K: View, V>(s: Seq<(K, V)>) -> Map<K::V, V>
    decreases s.len(),
{
    if s.len() == 0 {
        Map::empty()
    } else {
        assoc_of(s.drop_first()).insert(s[0].0@, s[0].1)
    }
}

/// `i` is the first entry with key `k`.
pub open spec fn first_index<K: View, V>(s: Seq<(K, V)>, k: K::V, i: int) -> bool {
    0 <= i < s.len() && s[i].0@ == k && forall|j: int| 0 <= j < i ==> s[j].0@ != k
}

/// The denoted map has exactly the keys of the entries, each with the value
/// of its first entry.
pub proof fn lemma_assoc_of<K: View, V>(s: Seq<(K, V)>)
    ensures
        forall|k: K::V|
            #[trigger] assoc_of(s).contains_key(k) <==> exists|i: int| 0 <= i < s.len() && s[i].0@ == k,
        forall|k: K::V, i: int| #[trigger] first_index(s, k, i) ==> assoc_of(s)[k] == s[i].1,
    decreases s.len(),
{
    if s.len() > 0 {
        let t = s.drop_first();
        lemma_assoc_of(t);
        assert forall|k: K::V| #[trigger] assoc_of(s).contains_key(k) <==> exists|i: int|
            0 <= i < s.len() && s[i].0@ == k by {
            if assoc_of(s).contains_key(k) {
                if k == s[0].0@ {
                    assert(0 < s.len() && s[0].0@ == k);
                } else {
                    assert(assoc_of(t).contains_key(k));
                    let i = choose|i: int| 0 <= i < t.len() && t[i].0@ == k;
                    assert(s[i + 1] == t[i]);
                }
            }
            if exists|i: int| 0 <= i < s.len() && s[i].0@ == k {
                let i = choose|i: int| 0 <= i < s.len() && s[i].0@ == k;
                if i > 0 {
                    assert(t[i - 1] == s[i]);
                    assert(assoc_of(t).contains_key(k));
                }
            }
        }
        assert forall|k: K::V, i: int| #[trigger] first_index(s, k, i) implies assoc_of(s)[k]
            == s[i].1 by {
            if i > 0 {
                assert(s[0].0@ != k);
                assert(first_index(t, k, i - 1)) by {
                    assert forall|j: int| 0 <= j < i - 1 implies t[j].0@ != k by {
                        assert(t[j] == s[j + 1]);
                    }
                }
            }
        }
    }
}

/// Replacing the first entry of a key updates the map at that key.
pub proof fn lemma_assoc_update<K: View, V>(s: Seq<(K, V)>, i: int, e: (K, V))
    requires
        first_index(s, e.0@, i),
    ensures
        assoc_of(s.update(i, e)) == assoc_of(s).insert(e.0@, e.1),
    decreases s.len(),
{
    if i == 0 {
        assert(s.update(i, e).drop_first() =~= s.drop_first());
    } else {
        let t = s.drop_first();
        assert(first_index(t, e.0@, i - 1)) by {
            assert forall|j: int| 0 <= j < i - 1 implies t[j].0@ != e.0@ by {
                assert(t[j] == s[j + 1]);
            }
        }
        lemma_assoc_update(t, i - 1, e);
        assert(s.update(i, e).drop_first() =~= t.update(i - 1, e));
        assert(s[0].0@ != e.0@);
        assert(assoc_of(s.update(i, e)) =~= assoc_of(s).insert(e.0@, e.1));
    }
}

/// Appending an entry adds its key if the key is new.
pub proof fn lemma_assoc_push<K: View, V>(s: Seq<(K, V)>, e: (K, V))
    ensures
        assoc_of(s.push(e)) == (if assoc_of(s).contains_key(e.0@) {
            assoc_of(s)
        } else {
            assoc_of(s).insert(e.0@, e.1)
        }),
    decreases s.len(),
{
    if s.len() == 0 {
        assert(s.push(e).drop_first() =~= Seq::<(K, V)>::empty());
        assert(assoc_of(s.push(e).drop_first()) =~= Map::<K::V, V>::empty());
        assert(assoc_of(s) =~= Map::<K::V, V>::empty());
        assert(assoc_of(s.push(e)) =~= assoc_of(s).insert(e.0@, e.1));
    } else {
        let t = s.drop_first();
        lemma_assoc_push(t, e);
        assert(s.push(e).drop_first() =~= t.push(e));
        if assoc_of(s).contains_key(e.0@) {
            assert(assoc_of(s.push(e)) =~= assoc_of(s));
        } else {
            assert(assoc_of(s.push(e)) =~= assoc_of(s).insert(e.0@, e.1));
        }
    }
}

/// A finite map kept as a list of entries; the first entry of a key holds
/// its value.
pub struct AssocMap<K, V> {
    entries: Vec<(K, V)>,
}

impl<K: MapKey, V> View for AssocMap<K, V> {
    type V = Map<K::V, V>;

    closed spec fn view(&self) -> Map<K::V, V> {
        assoc_of(self.entries@)
    }
}

impl<K: MapKey, V> AssocMap<K, V> {
    /// The number of entries.
    pub closed spec fn size(&self) -> nat {
        self.entries@.len()
    }

    /// An empty map.
    pub fn new() -> (r: Self)
        ensures
            r@ == Map::<K::V, V>::empty(),
    {
        AssocMap { entries: Vec::new() }
    }

    fn find(&self, k: &K) -> (r: Option<usize>)
        ensures
            match r {
                Some(i) => first_index(self.entries@, k@, i as int),
                None => forall|j: int| 0 <= j < self.entries@.len() ==> self.entries@[j].0@ != k@,
            },
    {
        let mut i: usize = 0;
        while i < self.entries.len()
            invariant
                i <= self.entries@.len(),
                forall|j: int| 0 <= j < i ==> self.entries@[j].0@ != k@,
            decreases self.entries@.len() - i,
        {
            if self.entries[i].0.key_eq(k) {
                return Some(i);
            }
            i = i + 1;
        }
        None
    }

    /// Whether a key is present.
    pub fn contains_key(&self, k: &K) -> (r: bool)
        ensures
            r == self@.contains_key(k@),
    {
        proof {
            lemma_assoc_of(self.entries@);
        }
        self.find(k).is_some()
    }

    /// The value of a key.
    pub fn get(&self, k: &K) -> (r: Option<&V>)
        ensures
            match r {
                Some(v) => self@.contains_key(k@) && *v == self@[k@],
                None => !self@.contains_key(k@),
            },
    {
        proof {
            lemma_assoc_of(self.entries@);
        }
        match self.find(k) {
            Some(i) => Some(&self.entries[i].1),
            None => None,
        }
    }

    /// The value of a present key, for update in place.
    pub fn get_mut(&mut self, k: &K) -> (r: &mut V)
        requires
            old(self)@.contains_key(k@),
        ensures
            *r == old(self)@[k@],
            final(self)@ == old(self)@.insert(k@, *final(r)),
    {
        proof {
            lemma_assoc_of(self.entries@);
        }
        match self.find(k) {
            Some(i) => {
                let ghost s = self.entries@;
                let e = &mut self.entries[i];
                proof {
                    lemma_assoc_update(s, i as int, (s[i as int].0, final(e).1));
                }
                &mut e.1
            },
            None => vstd::pervasive::unreached(),
        }
    }

    /// Sets the value of a key.
    pub fn insert(&mut self, k: K, v: V)
        ensures
            final(self)@ == old(self)@.insert(k@, v),
    {
        proof {
            lemma_assoc_of(self.entries@);
        }
        match self.find(&k) {
            Some(i) => {
                proof {
                    lemma_assoc_update(self.entries@, i as int, (k, v));
                }
                self.entries.set(i, (k, v));
            },
            None => {
                proof {
                    lemma_assoc_push(self.entries@, (k, v));
                }
                self.entries.push((k, v));
            },
        }
    }

    /// Removes a key, giving back its value.
    pub fn remove(&mut self, k: &K) -> (r: Option<V>)
        ensures
            final(self)@ == old(self)@.remove(k@),
            final(self).size() <= old(self).size(),
            match r {
                Some(v) => old(self)@.contains_key(k@) && v == old(self)@[k@],
                None => !old(self)@.contains_key(k@),
            },
    {
        proof {
            lemma_assoc_of(self.entries@);
        }
        let ghost s = self.entries@;
        let mut rest: Vec<(K, V)> = Vec::new();
        std::mem::swap(&mut rest, &mut self.entries);
        let mut kept: Vec<(K, V)> = Vec::new();
        let mut found: Option<V> = None;
        let ghost mut j: int = 0;
        while rest.len() > 0
            invariant
                0 <= j <= s.len(),
                rest@ == s.subrange(j, s.len() as int),
                assoc_of(kept@) == assoc_of(s.subrange(0, j)).remove(k@),
                kept@.len() <= j,
                match found {
                    Some(v) => assoc_of(s.subrange(0, j)).contains_key(k@) && v == assoc_of(
                        s.subrange(0, j),
                    )[k@],
                    None => !assoc_of(s.subrange(0, j)).contains_key(k@),
                },
            decreases rest@.len(),
        {
            let e = rest.remove(0);
            proof {
                assert(e == s[j]);
                assert(s.subrange(0, j + 1) =~= s.subrange(0, j).push(e));
                lemma_assoc_push(s.subrange(0, j), e);
                lemma_assoc_push(kept@, e);
            }
            if e.0.key_eq(k) {
                if found.is_none() {
                    found = Some(e.1);
                }
                proof {
                    assert(assoc_of(kept@) =~= assoc_of(s.subrange(0, j + 1)).remove(k@));
                }
            } else {
                let ghost before = kept@;
                kept.push(e);
                proof {
                    assert(assoc_of(kept@) =~= assoc_of(s.subrange(0, j + 1)).remove(k@));
                }
            }
            proof {
                j = j + 1;
                assert(rest@ =~= s.subrange(j, s.len() as int));
            }
        }
        proof {
            assert(s.subrange(0, j) =~= s);
        }
        self.entries = kept;
        found
    }

    /// Takes out some entry.
    pub fn pop(&mut self) -> (r: Option<(K, V)>)
        ensures
            match r {
                Some(e) => !final(self)@.contains_key(e.0@) && old(self)@ == final(self)@.insert(
                    e.0@,
                    e.1,
                ) && final(self).size() < old(self).size(),
                None => old(self)@ == Map::<K::V, V>::empty() && final(self)@ == old(self)@,
            },
    {
        if self.entries.len() == 0 {
            proof {
                assert(self@ =~= Map::<K::V, V>::empty());
            }
            return None;
        }
        let ghost s = self.entries@;
        let e = self.entries.remove(0);
        proof {
            assert(self.entries@ =~= s.drop_first());
        }
        let _ = self.remove(&e.0);
        proof {
            assert(old(self)@ =~= self@.insert(e.0@, e.1));
        }
        Some(e)
    }

    /// Whether the map is empty.
    pub fn is_empty(&self) -> (r: bool)
        ensures
            r == (self@ == Map::<K::V, V>::empty()),
            r == (self.size() == 0),
    {
        proof {
            lemma_assoc_of(self.entries@);
            if self.entries@.len() > 0 {
                assert(self@.contains_key(self.entries@[0].0@));
            } else {
                assert(self@ =~= Map::<K::V, V>::empty());
            }
        }
        self.entries.len() == 0
    }
}

impl<K: MapKey, V> AssocMap<K, V> {
    /// Adds all entries of `other`, which override entries of the same key.
    pub fn insert_all(&mut self, other: AssocMap<K, V>)
        ensures
            final(self)@ == old(self)@.union_prefer_right(other@),
    {
        let mut other = other;
        let ghost all = other@;
        while !other.is_empty()
            invariant
                self@.union_prefer_right(other@) == old(self)@.union_prefer_right(all),
            decreases other.size(),
        {
            match other.pop() {
                Some((k, v)) => {
                    let ghost before = self@;
                    let ghost rest = other@;
                    self.insert(k, v);
                    proof {
                        assert(before.union_prefer_right(rest.insert(k@, v)) =~= before.insert(
                            k@,
                            v,
                        ).union_prefer_right(rest));
                    }
                },
                None => vstd::pervasive::unreached(),
            }
        }
        proof {
            assert(self@.union_prefer_right(other@) =~= self@);
        }
    }
}

/// Some element of `r` has view `k`.
pub open spec fn seq_has_key<K: View>(r: Seq<K>, k: K::V) -> bool {
    exists|a: int| 0 <= a < r.len() && r[a]@ == k
}

/// One of the first `i` entries has key `k`.
pub open spec fn prefix_has_key<K: View, V>(s: Seq<(K, V)>, i: int, k: K::V) -> bool {
    exists|j: int| 0 <= j < i && s[j].0@ == k
}

impl<K: MapKey + Copy, V> AssocMap<K, V> {
    /// The keys, each once.
    pub fn keys(&self) -> (r: Vec<K>)
        ensures
            forall|i: int, j: int| 0 <= i < j < r@.len() ==> r@[i]@ != r@[j]@,
            forall|k: K::V| #[trigger] self@.contains_key(k) <==> seq_has_key(r@, k),
    {
        proof {
            lemma_assoc_of(self.entries@);
        }
        let mut r: Vec<K> = Vec::new();
        let mut i: usize = 0;
        while i < self.entries.len()
            invariant
                i <= self.entries@.len(),
                forall|a: int, b: int| 0 <= a < b < r@.len() ==> r@[a]@ != r@[b]@,
                forall|k: K::V| #[trigger] seq_has_key(r@, k) <==> prefix_has_key(self.entries@, i as int, k),
            decreases self.entries@.len() - i,
        {
            let k = self.entries[i].0;
            let mut seen = false;
            let mut a: usize = 0;
            while a < r.len()
                invariant
                    a <= r@.len(),
                    seen == exists|b: int| 0 <= b < a && r@[b]@ == k@,
                decreases r@.len() - a,
            {
                if r[a].key_eq(&k) {
                    seen = true;
                }
                a = a + 1;
            }
            let ghost old_r = r@;
            if !seen {
                r.push(k);
            }
            proof {
                assert forall|kk: K::V| #[trigger] seq_has_key(r@, kk) <==> prefix_has_key(
                    self.entries@,
                    i + 1,
                    kk,
                ) by {
                    if prefix_has_key(self.entries@, i + 1, kk) {
                        let j = choose|j: int| 0 <= j < i + 1 && self.entries@[j].0@ == kk;
                        if j < i {
                            assert(prefix_has_key(self.entries@, i as int, kk));
                            assert(seq_has_key(old_r, kk));
                            let a = choose|a: int| 0 <= a < old_r.len() && old_r[a]@ == kk;
                            assert(r@[a] == old_r[a]);
                        } else if seen {
                            let a = choose|a: int| 0 <= a < old_r.len() && old_r[a]@ == kk;
                            assert(r@[a] == old_r[a]);
                        } else {
                            assert(r@[r@.len() - 1]@ == kk);
                        }
                    }
                    if seq_has_key(r@, kk) {
                        let a = choose|a: int| 0 <= a < r@.len() && r@[a]@ == kk;
                        if a < old_r.len() {
                            assert(r@[a] == old_r[a]);
                            assert(seq_has_key(old_r, kk));
                        } else {
                            assert(self.entries@[i as int].0@ == kk);
                        }
                    }
                }
                assert forall|a: int, b: int| 0 <= a < b < r@.len() implies r@[a]@ != r@[b]@ by {
                    if b == old_r.len() {
                        assert(r@[a] == old_r[a]);
                    } else {
                        assert(r@[a] == old_r[a] && r@[b] == old_r[b]);
                    }
                }
            }
            i = i + 1;
        }
        proof {
            assert forall|k: K::V| #[trigger] self@.contains_key(k) <==> seq_has_key(r@, k) by {
                if self@.contains_key(k) {
                    let j = choose|j: int| 0 <= j < self.entries@.len() && self.entries@[j].0@ == k;
                    assert(prefix_has_key(self.entries@, self.entries@.len() as int, k));
                }
                if seq_has_key(r@, k) {
                    assert(prefix_has_key(self.entries@, self.entries@.len() as int, k));
                }
            }
        }
        r
    }
}

} // verus!
