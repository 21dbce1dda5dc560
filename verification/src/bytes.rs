use vstd::prelude::*;

verus! {

/// Compares two byte strings.
pub fn bytes_eq(a: &[u8], b: &[u8]) -> (r: bool)
    ensures
        r == (a@ == b@),
{
    if a.len() != b.len() {
        return false;
    }
    let mut i: usize = 0;
    while i < a.len()
        invariant
            a.len() == b.len(),
            i <= a.len(),
            forall|j: int| 0 <= j < i ==> a@[j] == b@[j],
        decreases a.len() - i,
    {
        if a[i] != b[i] {
            return false;
        }
        i = i + 1;
    }
    assert(a@ =~= b@);
    true
}

/// Copies a byte string.
pub fn copy_bytes(a: &[u8]) -> (r: Vec<u8>)
    ensures
        r@ == a@,
{
    let mut r: Vec<u8> = Vec::new();
    let mut i: usize = 0;
    while i < a.len()
        invariant
            i <= a.len(),
            r@ == a@.subrange(0, i as int),
        decreases a.len() - i,
    {
        r.push(a[i]);
        i = i + 1;
        assert(r@ =~= a@.subrange(0, i as int));
    }
    assert(r@ =~= a@);
    r
}

/// No two entries of `s` have the same key.
pub open spec fn keys_distinct<V>(s: Seq<(Vec<u8>, V)>) -> bool {
    forall|i: int, j: int| 0 <= i < j < s.len() ==> #[trigger] s[i].0@ != #[trigger] s[j].0@
}

/// The map that a list of entries denotes: later entries win.
pub open spec fn map_of<V: View>(s: Seq<(Vec<u8>, V)>) -> Map<Seq<u8>, V::V>
    decreases s.len(),
{
    if s.len() == 0 {
        Map::empty()
    } else {
        map_of(s.drop_last()).insert(s.last().0@, s.last().1@)
    }
}

/// Every key of the denoted map comes from an entry, and with distinct keys
/// each entry's value is the value of its key.
pub proof fn lemma_map_of<V: View>(s: Seq<(Vec<u8>, V)>)
    requires
        keys_distinct(s),
    ensures
        forall|k: Seq<u8>|
            #[trigger] map_of(s).contains_key(k) <==> exists|i: int| 0 <= i < s.len() && s[i].0@ == k,
        forall|i: int|
            0 <= i < s.len() ==> map_of(s).contains_key(#[trigger] s[i].0@) && map_of(s)[s[i].0@]
                == s[i].1@,
    decreases s.len(),
{
    if s.len() > 0 {
        let t = s.drop_last();
        assert(keys_distinct(t)) by {
            assert forall|i: int, j: int| 0 <= i < j < t.len() implies #[trigger] t[i].0@
                != #[trigger] t[j].0@ by {
                assert(t[i] == s[i] && t[j] == s[j]);
            }
        }
        lemma_map_of(t);
        assert forall|k: Seq<u8>| #[trigger] map_of(s).contains_key(k) implies exists|i: int|
            0 <= i < s.len() && s[i].0@ == k by {
            if k == s.last().0@ {
                assert(s[s.len() - 1].0@ == k);
            } else {
                assert(map_of(t).contains_key(k));
                let i = choose|i: int| 0 <= i < t.len() && t[i].0@ == k;
                assert(s[i] == t[i]);
            }
        }
        assert forall|i: int| 0 <= i < s.len() implies map_of(s).contains_key(#[trigger] s[i].0@)
            && map_of(s)[s[i].0@] == s[i].1@ by {
            if i < s.len() - 1 {
                assert(s[i] == t[i]);
                assert(s[i].0@ != s[s.len() - 1].0@);
            }
        }
    }
}

/// Replacing the value of an entry updates the denoted map at its key.
pub proof fn lemma_map_of_update<V: View>(s: Seq<(Vec<u8>, V)>, i: int, e: (Vec<u8>, V))
    requires
        keys_distinct(s),
        0 <= i < s.len(),
        e.0@ == s[i].0@,
    ensures
        keys_distinct(s.update(i, e)),
        map_of(s.update(i, e)) == map_of(s).insert(e.0@, e.1@),
    decreases s.len(),
{
    let u = s.update(i, e);
    assert(keys_distinct(u)) by {
        assert forall|a: int, b: int| 0 <= a < b < u.len() implies #[trigger] u[a].0@
            != #[trigger] u[b].0@ by {
            assert(s[a].0@ != s[b].0@);
        }
    }
    lemma_map_of(s);
    lemma_map_of(u);
    assert forall|k: Seq<u8>| #[trigger] map_of(u).contains_key(k) == map_of(s).insert(
        e.0@,
        e.1@,
    ).contains_key(k) by {
        if map_of(u).contains_key(k) {
            let j = choose|j: int| 0 <= j < u.len() && u[j].0@ == k;
            if j != i {
                assert(s[j] == u[j]);
            }
        }
        if map_of(s).contains_key(k) {
            let j = choose|j: int| 0 <= j < s.len() && s[j].0@ == k;
            if j != i {
                assert(s[j] == u[j]);
            } else {
                assert(u[i].0@ == k);
            }
        }
        if k == e.0@ {
            assert(u[i].0@ == k);
        }
    }
    assert forall|k: Seq<u8>| #[trigger] map_of(u).contains_key(k) implies map_of(u)[k] == map_of(
        s,
    ).insert(e.0@, e.1@)[k] by {
        let j = choose|j: int| 0 <= j < u.len() && u[j].0@ == k;
        if j != i {
            assert(s[j] == u[j]);
        }
    }
    assert(map_of(u) =~= map_of(s).insert(e.0@, e.1@));
}

/// A finite map keyed by byte strings, kept as a list of entries with
/// distinct keys.
pub struct ByteMap<V> {
    entries: Vec<(Vec<u8>, V)>,
}

impl<V: View> View for ByteMap<V> {
    type V = Map<Seq<u8>, V::V>;

    closed spec fn view(&self) -> Map<Seq<u8>, V::V> {
        map_of(self.entries@)
    }
}

impl<V> ByteMap<V> {
    /// The entries have distinct keys.
    #[verifier::type_invariant]
    closed spec fn wf(&self) -> bool {
        keys_distinct(self.entries@)
    }

    /// The number of entries.
    pub closed spec fn size(&self) -> nat {
        self.entries@.len()
    }
}

impl<V: View> ByteMap<V> {

    /// Creates an empty map.
    pub fn new() -> (r: Self)
        ensures
            r.size() == 0,
            r@ == Map::<Seq<u8>, V::V>::empty(),
    {
        ByteMap { entries: Vec::new() }
    }

    fn find(&self, key: &[u8]) -> (r: Option<usize>)
        ensures
            match r {
                Some(i) => i < self.entries@.len() && self.entries@[i as int].0@ == key@,
                None => forall|j: int| 0 <= j < self.entries@.len() ==> self.entries@[j].0@ != key@,
            },
    {
        let mut i: usize = 0;
        while i < self.entries.len()
            invariant
                i <= self.entries@.len(),
                forall|j: int| 0 <= j < i ==> self.entries@[j].0@ != key@,
            decreases self.entries@.len() - i,
        {
            if bytes_eq(self.entries[i].0.as_slice(), key) {
                return Some(i);
            }
            i = i + 1;
        }
        None
    }

    /// Looks up the value of a key.
    pub fn get(&self, key: &[u8]) -> (r: Option<&V>)
        ensures
            match r {
                Some(v) => self@.contains_key(key@) && v@ == self@[key@],
                None => !self@.contains_key(key@),
            },
    {
        proof {
            use_type_invariant(self);
            lemma_map_of(self.entries@);
        }
        match self.find(key) {
            Some(i) => Some(&self.entries[i].1),
            None => None,
        }
    }

    /// Sets the value of a key.
    pub fn insert(&mut self, key: Vec<u8>, value: V)
        ensures
            final(self)@ == old(self)@.insert(key@, value@),
    {
        proof {
            use_type_invariant(&*self);
        }
        match self.find(key.as_slice()) {
            Some(i) => {
                proof {
                    lemma_map_of_update(self.entries@, i as int, (key, value));
                }
                let mut entries: Vec<(Vec<u8>, V)> = Vec::new();
                std::mem::swap(&mut entries, &mut self.entries);
                entries.set(i, (key, value));
                self.entries = entries;
            },
            None => {
                let ghost k = key@;
                let ghost v = value@;
                let mut entries: Vec<(Vec<u8>, V)> = Vec::new();
                std::mem::swap(&mut entries, &mut self.entries);
                entries.push((key, value));
                proof {
                    let s = entries@;
                    assert(s.drop_last() =~= old(self).entries@);
                    assert(keys_distinct(s)) by {
                        assert forall|a: int, b: int| 0 <= a < b < s.len() implies #[trigger] s[a].0@
                            != #[trigger] s[b].0@ by {
                            if b == s.len() - 1 {
                                assert(s[a] == old(self).entries@[a]);
                            } else {
                                assert(s[a] == old(self).entries@[a]);
                                assert(s[b] == old(self).entries@[b]);
                            }
                        }
                    }
                }
                self.entries = entries;
                proof {
                    let s = self.entries@;
                    assert(s.drop_last() =~= old(self).entries@);
                    assert(keys_distinct(s)) by {
                        assert forall|a: int, b: int| 0 <= a < b < s.len() implies #[trigger] s[a].0@
                            != #[trigger] s[b].0@ by {
                            if b == s.len() - 1 {
                                assert(s[a] == old(self).entries@[a]);
                            } else {
                                assert(s[a] == old(self).entries@[a]);
                                assert(s[b] == old(self).entries@[b]);
                            }
                        }
                    }
                }
            },
        }
    }

    /// Takes out the most recently added entry.
    pub fn pop(&mut self) -> (r: Option<(Vec<u8>, V)>)
        ensures
            match r {
                Some(e) => final(self).size() + 1 == old(self).size() && !final(self)@.contains_key(e.0@) && old(self)@ == final(self)@.insert(
                    e.0@,
                    e.1@,
                ),
                None => old(self).size() == 0 && old(self)@ == Map::<Seq<u8>, V::V>::empty()
                    && final(self)@ == old(self)@,
            },
    {
        proof {
            use_type_invariant(&*self);
        }
        let mut entries: Vec<(Vec<u8>, V)> = Vec::new();
        std::mem::swap(&mut entries, &mut self.entries);
        let r = entries.pop();
        proof {
            let s = old(self).entries@;
            if s.len() > 0 {
                assert(entries@ =~= s.drop_last());
                assert(keys_distinct(entries@)) by {
                    assert forall|a: int, b: int| 0 <= a < b < entries@.len() implies #[trigger] entries@[a].0@
                        != #[trigger] entries@[b].0@ by {
                        assert(entries@[a] == s[a] && entries@[b] == s[b]);
                    }
                }
            }
        }
        self.entries = entries;
        proof {
            let s = old(self).entries@;
            if s.len() > 0 {
                lemma_map_of(self.entries@);
                assert forall|j: int| 0 <= j < self.entries@.len() implies self.entries@[j].0@ != s.last().0@ by {
                    assert(self.entries@[j] == s[j]);
                }
            }
        }
        r
    }

    /// The number of entries.
    pub fn len(&self) -> (r: usize)
        ensures
            r == self@.len(),
            r == self.size(),
            r == 0 ==> self@ == Map::<Seq<u8>, V::V>::empty(),
    {
        proof {
            use_type_invariant(self);
            lemma_map_len(self.entries@);
            if self.entries@.len() == 0 {
                assert(self@ =~= Map::<Seq<u8>, V::V>::empty());
            }
        }
        self.entries.len()
    }
}

/// With distinct keys, the denoted map has one key per entry.
pub proof fn lemma_map_len<V: View>(s: Seq<(Vec<u8>, V)>)
    requires
        keys_distinct(s),
    ensures
        map_of(s).len() == s.len(),
        map_of(s).dom().finite(),
    decreases s.len(),
{
    if s.len() > 0 {
        let t = s.drop_last();
        assert(keys_distinct(t)) by {
            assert forall|i: int, j: int| 0 <= i < j < t.len() implies #[trigger] t[i].0@
                != #[trigger] t[j].0@ by {
                assert(t[i] == s[i] && t[j] == s[j]);
            }
        }
        lemma_map_len(t);
        lemma_map_of(t);
        assert(!map_of(t).contains_key(s.last().0@)) by {
            if map_of(t).contains_key(s.last().0@) {
                let i = choose|i: int| 0 <= i < t.len() && t[i].0@ == s.last().0@;
                assert(t[i] == s[i]);
            }
        }
    }
}

} // verus!
