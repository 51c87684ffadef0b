//! The in-memory store: a map from byte-string keys to byte-string values.

use vstd::prelude::*;

verus! {

/// Whether two byte strings are equal.
pub fn bytes_eq(a: &[u8], b: &[u8]) -> (r: bool)
    ensures
        r == (a@ == b@),
{
    if a.len() != b.len() {
        return false;
    }
    let mut i: usize = 0;
    while i < a.len()
        invariant
            a@.len() == b@.len(),
            i <= a@.len(),
            forall|j: int| 0 <= j < i ==> a@[j] == b@[j],
        decreases a@.len() - i,
    {
        if a[i] != b[i] {
            return false;
        }
        i += 1;
    }
    assert(a@ =~= b@);
    true
}

/// Key-value pairs held in a vector, at most one pair per key, beside the
/// map that they stand for.
pub struct Store {
    entries: Vec<(Vec<u8>, Vec<u8>)>,
    contents: Ghost<Map<Seq<u8>, Seq<u8>>>,
}

impl View for Store {
    type V = Map<Seq<u8>, Seq<u8>>;

    closed spec fn view(&self) -> Map<Seq<u8>, Seq<u8>> {
        self.contents@
    }
}

impl Store {
    /// No key appears twice, and the pairs are exactly the map's entries.
    pub closed spec fn wf(&self) -> bool {
        let e = self.entries@;
        let m = self.contents@;
        &&& forall|i: int, j: int|
            0 <= i < j < e.len() ==> (#[trigger] e[i]).0@ != (#[trigger] e[j]).0@
        &&& forall|i: int|
            0 <= i < e.len() ==> m.contains_key((#[trigger] e[i]).0@) && m[e[i].0@] == e[i].1@
        &&& forall|k: Seq<u8>|
            #[trigger] m.contains_key(k) ==> exists|i: int| 0 <= i < e.len() && (#[trigger] e[i]).0@ == k
    }

    /// An empty store.
    pub fn new() -> (r: Store)
        ensures
            r.wf(),
            r@ == Map::<Seq<u8>, Seq<u8>>::empty(),
    {
        Store { entries: Vec::new(), contents: Ghost(Map::empty()) }
    }

    /// The position of the pair whose key is `key`.
    fn find(&self, key: &[u8]) -> (r: Option<usize>)
        requires
            self.wf(),
        ensures
            match r {
                Some(i) => i < self.entries@.len() && self.entries@[i as int].0@ == key@,
                None => !self@.contains_key(key@),
            },
    {
        let mut i: usize = 0;
        while i < self.entries.len()
            invariant
                self.wf(),
                i <= self.entries@.len(),
                forall|j: int| 0 <= j < i ==> (#[trigger] self.entries@[j]).0@ != key@,
            decreases self.entries@.len() - i,
        {
            if bytes_eq(self.entries[i].0.as_slice(), key) {
                return Some(i);
            }
            i += 1;
        }
        None
    }

    /// The value stored under `key`, if any.
    pub fn get(&self, key: &[u8]) -> (r: Option<&Vec<u8>>)
        requires
            self.wf(),
        ensures
            match r {
                Some(v) => self@.contains_key(key@) && v@ == self@[key@],
                None => !self@.contains_key(key@),
            },
    {
        match self.find(key) {
            Some(i) => {
                assert(self.entries@[i as int].0@ == key@);
                Some(&self.entries[i].1)
            },
            None => None,
        }
    }

    /// Stores `value` under `key`, replacing what was there.
    pub fn set(&mut self, key: Vec<u8>, value: Vec<u8>)
        requires
            old(self).wf(),
        ensures
            final(self).wf(),
            final(self)@ == old(self)@.insert(key@, value@),
    {
        let ghost k = key@;
        let ghost v = value@;
        let ghost m = self.contents@.insert(k, v);
        match self.find(key.as_slice()) {
            Some(i) => {
                self.entries.set(i, (key, value));
                self.contents = Ghost(m);
                assert forall|q: Seq<u8>| #[trigger] m.contains_key(q) implies exists|j: int|
                    0 <= j < self.entries@.len() && (#[trigger] self.entries@[j]).0@ == q by {
                    if q != k {
                        let j = choose|j: int|
                            0 <= j < old(self).entries@.len() && (#[trigger] old(
                                self,
                            ).entries@[j]).0@ == q;
                        assert(self.entries@[j] == old(self).entries@[j]);
                    } else {
                        assert(self.entries@[i as int].0@ == q);
                    }
                }
            },
            None => {
                self.entries.push((key, value));
                self.contents = Ghost(m);
                assert forall|q: Seq<u8>| #[trigger] m.contains_key(q) implies exists|j: int|
                    0 <= j < self.entries@.len() && (#[trigger] self.entries@[j]).0@ == q by {
                    if q != k {
                        let j = choose|j: int|
                            0 <= j < old(self).entries@.len() && (#[trigger] old(
                                self,
                            ).entries@[j]).0@ == q;
                        assert(self.entries@[j] == old(self).entries@[j]);
                    } else {
                        assert(self.entries@[old(self).entries@.len() as int].0@ == q);
                    }
                }
            },
        }
    }

    /// Removes the pair stored under `key`; tells whether there was one.
    pub fn delete(&mut self, key: &[u8]) -> (r: bool)
        requires
            old(self).wf(),
        ensures
            final(self).wf(),
            r == old(self)@.contains_key(key@),
            final(self)@ == old(self)@.remove(key@),
    {
        let ghost m = self.contents@.remove(key@);
        match self.find(key) {
            Some(i) => {
                let ghost e = self.entries@;
                self.entries.remove(i);
                self.contents = Ghost(m);
                assert forall|q: Seq<u8>| #[trigger] m.contains_key(q) implies exists|j: int|
                    0 <= j < self.entries@.len() && (#[trigger] self.entries@[j]).0@ == q by {
                    let j = choose|j: int| 0 <= j < e.len() && (#[trigger] e[j]).0@ == q;
                    if j < i {
                        assert(self.entries@[j] == e[j]);
                    } else {
                        assert(j != i);
                        assert(self.entries@[j - 1] == e[j]);
                    }
                }
                assert forall|a: int, b: int|
                    0 <= a < b < self.entries@.len() implies (#[trigger] self.entries@[a]).0@
                    != (#[trigger] self.entries@[b]).0@ by {
                    let a0 = if a < i { a } else { a + 1 };
                    let b0 = if b < i { b } else { b + 1 };
                    assert(self.entries@[a] == e[a0] && self.entries@[b] == e[b0]);
                }
                assert forall|a: int| 0 <= a < self.entries@.len() implies m.contains_key(
                    (#[trigger] self.entries@[a]).0@,
                ) && m[self.entries@[a].0@] == self.entries@[a].1@ by {
                    let a0 = if a < i { a } else { a + 1 };
                    assert(self.entries@[a] == e[a0]);
                    assert(a0 != i);
                }
                true
            },
            None => {
                assert(self.contents@ =~= m);
                false
            },
        }
    }
}

} // verus!
