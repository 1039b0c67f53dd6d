//! A map backed by a plain vector of pairs.
//!
//! Lookups scan the pairs in order and go by the key type's own equality, so
//! the key type needs neither `Hash` nor `Ord`. Linear cost: for small
//! collections only.

use vstd::prelude::*;
use vstd::std_specs::cmp::PartialEqSpec;

verus! {

/// A map from `K` to `V`, stored as a vector of pairs with unique keys.
///
/// The view (`@`) of a map is its sequence of pairs, in insertion order.
#[derive(Debug)]
pub struct VecMap<K, V> {
    elements: Vec<(K, V)>,
}

/// The position of the first pair of `s` whose key equals `key`, by the key
/// type's own equality.
pub open spec fn first_key_match<K: PartialEq, V>(s: Seq<(K, V)>, key: K) -> Option<int>
    decreases s.len(),
{
    if s.len() == 0 {
        None
    } else if s[0].0.eq_spec(&key) {
        Some(0int)
    } else {
        match first_key_match(s.drop_first(), key) {
            None => None,
            Some(i) => Some(i + 1),
        }
    }
}

/// `first_key_match` names the least index holding the key, if any.
pub proof fn lemma_first_key_match<K: PartialEq, V>(s: Seq<(K, V)>, key: K)
    ensures
        match first_key_match(s, key) {
            None => forall|i: int| 0 <= i < s.len() ==> !(#[trigger] s[i]).0.eq_spec(&key),
            Some(i) => {
                &&& 0 <= i < s.len()
                &&& s[i].0.eq_spec(&key)
                &&& forall|j: int| 0 <= j < i ==> !(#[trigger] s[j]).0.eq_spec(&key)
            },
        },
    decreases s.len(),
{
    if s.len() > 0 && !s[0].0.eq_spec(&key) {
        lemma_first_key_match(s.drop_first(), key);
        assert(forall|i: int| 1 <= i < s.len() ==> s[i] == s.drop_first()[i - 1]);
    }
}

/// An index holding the key, with no earlier one, is the first match.
pub proof fn lemma_first_key_match_is<K: PartialEq, V>(s: Seq<(K, V)>, key: K, i: int)
    requires
        0 <= i < s.len(),
        s[i].0.eq_spec(&key),
        forall|j: int| 0 <= j < i ==> !(#[trigger] s[j]).0.eq_spec(&key),
    ensures
        first_key_match(s, key) == Some(i),
    decreases s.len(),
{
    if i > 0 {
        assert(!s[0].0.eq_spec(&key));
        assert(forall|j: int| 0 <= j < i - 1 ==> s.drop_first()[j] == s[j + 1]);
        assert(s.drop_first()[i - 1] == s[i]);
        lemma_first_key_match_is(s.drop_first(), key, i - 1);
    }
}

/// Whether the key type's equality, as `vstd` models it, is symmetric and
/// transitive — what `Eq` documents; primitive key types satisfy it.
pub open spec fn key_eq_well_behaved<K: PartialEq>() -> bool {
    &&& forall|a: K, b: K| #[trigger] a.eq_spec(&b) ==> b.eq_spec(&a)
    &&& forall|a: K, b: K, c: K|
        #![trigger a.eq_spec(&b), b.eq_spec(&c)]
        a.eq_spec(&b) && b.eq_spec(&c) ==> a.eq_spec(&c)
}

impl<K, V> View for VecMap<K, V> {
    type V = Seq<(K, V)>;

    closed spec fn view(&self) -> Seq<(K, V)> {
        self.elements@
    }
}

impl<K: PartialEq, V> VecMap<K, V> {
    /// Well-formedness: no two entries hold equal keys, as far as the key
    /// type's equality model reaches.
    pub open spec fn wf(&self) -> bool {
        K::obeys_eq_spec() ==> forall|i: int, j: int|
            #![trigger self@[i], self@[j]]
            0 <= i < j < self@.len() ==> !self@[i].0.eq_spec(&self@[j].0)
    }

    /// Creates an empty map.
    pub fn new() -> (m: Self)
        ensures
            m@ == Seq::<(K, V)>::empty(),
            m.wf(),
    {
        VecMap { elements: Vec::new() }
    }

    /// Binds `key` to `value`: replaces the value of the first pair with an
    /// equal key, or appends a new pair when no key matches.
    pub fn insert(&mut self, key: K, value: V)
        requires
            old(self).wf(),
        ensures
            final(self).wf(),
            K::obeys_eq_spec() ==> final(self)@ == match first_key_match(old(self)@, key) {
                None => old(self)@.push((key, value)),
                Some(i) => old(self)@.update(i, (old(self)@[i].0, value)),
            },
    {
        proof {
            lemma_first_key_match(self@, key);
        }
        let n = self.elements.len();
        let mut i: usize = 0;
        while i < n
            invariant
                n == self.elements.len(),
                i <= n,
                *self == *old(self),
                old(self).wf(),
                K::obeys_eq_spec() ==> forall|j: int|
                    0 <= j < i ==> !(#[trigger] self.elements@[j]).0.eq_spec(&key),
            decreases n - i,
        {
            if self.elements[i].0.eq(&key) {
                proof {
                    if K::obeys_eq_spec() {
                        lemma_first_key_match_is(self@, key, i as int);
                    }
                }
                let pair = &mut self.elements[i];
                pair.1 = value;
                proof {
                    if K::obeys_eq_spec() {
                        assert forall|a: int, b: int|
                            #![trigger self@[a], self@[b]]
                            0 <= a < b < self@.len() implies !self@[a].0.eq_spec(&self@[b].0) by {
                            assert(self@[a].0 == old(self)@[a].0);
                            assert(self@[b].0 == old(self)@[b].0);
                            assert(!old(self)@[a].0.eq_spec(&old(self)@[b].0));
                        }
                    }
                }
                return ;
            }
            i = i + 1;
        }
        self.elements.push((key, value));
        proof {
            if K::obeys_eq_spec() {
                assert forall|a: int, b: int|
                    #![trigger self@[a], self@[b]]
                    0 <= a < b < self@.len() implies !self@[a].0.eq_spec(&self@[b].0) by {
                    assert(self@[a] == old(self)@[a]);
                    if b < old(self)@.len() {
                        assert(self@[b] == old(self)@[b]);
                        assert(!old(self)@[a].0.eq_spec(&old(self)@[b].0));
                    } else {
                        assert(self@[b].0 == key);
                        assert(!old(self)@[a].0.eq_spec(&key));
                    }
                }
            }
        }
    }

    /// The value bound to `key`, or absence when no key in the map equals it.
    pub fn get(&self, key: &K) -> (r: Option<&V>)
        ensures
            K::obeys_eq_spec() ==> match first_key_match(self@, *key) {
                None => r is None,
                Some(i) => r matches Some(v) && *v == self@[i].1,
            },
    {
        proof {
            lemma_first_key_match(self@, *key);
        }
        let n = self.elements.len();
        let mut i: usize = 0;
        while i < n
            invariant
                n == self.elements.len(),
                i <= n,
                K::obeys_eq_spec() ==> forall|j: int|
                    0 <= j < i ==> !(#[trigger] self.elements@[j]).0.eq_spec(key),
            decreases n - i,
        {
            if self.elements[i].0.eq(key) {
                proof {
                    if K::obeys_eq_spec() {
                        lemma_first_key_match_is(self@, *key, i as int);
                    }
                }
                return Some(&self.elements[i].1);
            }
            i = i + 1;
        }
        None
    }

    /// Unbinds `key`: removes the first pair with an equal key and returns
    /// its value, or absence when no key matches.
    pub fn remove(&mut self, key: &K) -> (r: Option<V>)
        requires
            old(self).wf(),
        ensures
            final(self).wf(),
            K::obeys_eq_spec() ==> match first_key_match(old(self)@, *key) {
                None => r is None && final(self)@ == old(self)@,
                Some(i) => r == Some(old(self)@[i].1) && final(self)@ == old(self)@.remove(i),
            },
            K::obeys_eq_spec() && key_eq_well_behaved::<K>() ==> first_key_match(
                final(self)@,
                *key,
            ) is None,
    {
        proof {
            lemma_first_key_match(self@, *key);
        }
        let n = self.elements.len();
        let mut i: usize = 0;
        while i < n
            invariant
                n == self.elements.len(),
                i <= n,
                *self == *old(self),
                old(self).wf(),
                K::obeys_eq_spec() ==> forall|j: int|
                    0 <= j < i ==> !(#[trigger] self.elements@[j]).0.eq_spec(key),
            decreases n - i,
        {
            if self.elements[i].0.eq(key) {
                proof {
                    if K::obeys_eq_spec() {
                        lemma_first_key_match_is(self@, *key, i as int);
                    }
                }
                let pair = self.elements.remove(i);
                proof {
                    assert forall|a: int| 0 <= a < self@.len() implies #[trigger] self@[a] == old(
                        self,
                    )@[if a < i { a as int } else { a + 1 }] by {
                        assert(self@ == old(self)@.subrange(0, i as int) + old(self)@.subrange(
                            i + 1,
                            old(self)@.len() as int,
                        ));
                    }
                    if K::obeys_eq_spec() {
                        assert forall|a: int, b: int|
                            #![trigger self@[a], self@[b]]
                            0 <= a < b < self@.len() implies !self@[a].0.eq_spec(&self@[b].0) by {
                            let a0 = if a < i { a as int } else { a + 1 };
                            let b0 = if b < i { b as int } else { b + 1 };
                            assert(self@[a].0 == old(self)@[a0].0);
                            assert(self@[b].0 == old(self)@[b0].0);
                            assert(!old(self)@[a0].0.eq_spec(&old(self)@[b0].0));
                        }
                        if key_eq_well_behaved::<K>() {
                            lemma_first_key_match(self@, *key);
                            let fkm = first_key_match(self@, *key);
                            if fkm is Some {
                                let m = fkm.unwrap();
                                let m0 = if m < i { m } else { m + 1 };
                                assert(self@[m] == old(self)@[m0]);
                                assert(old(self)@[m0].0.eq_spec(key));
                                assert(old(self)@[i as int].0.eq_spec(key));
                                assert(old(self)@[m0].0.eq_spec(&old(self)@[i as int].0));
                                if m0 < i {
                                    assert(!old(self)@[m0].0.eq_spec(&old(self)@[i as int].0));
                                } else {
                                    assert(!old(self)@[i as int].0.eq_spec(&old(self)@[m0].0));
                                }
                                assert(false);
                            }
                        }
                    }
                }
                return Some(pair.1);
            }
            i = i + 1;
        }
        None
    }

    /// Whether some key in the map equals `key`.
    pub fn contains_key(&self, key: &K) -> (r: bool)
        ensures
            K::obeys_eq_spec() ==> r == (first_key_match(self@, *key) is Some),
    {
        proof {
            lemma_first_key_match(self@, *key);
        }
        let n = self.elements.len();
        let mut i: usize = 0;
        while i < n
            invariant
                n == self.elements.len(),
                i <= n,
                K::obeys_eq_spec() ==> forall|j: int|
                    0 <= j < i ==> !(#[trigger] self.elements@[j]).0.eq_spec(key),
            decreases n - i,
        {
            if self.elements[i].0.eq(key) {
                proof {
                    if K::obeys_eq_spec() {
                        lemma_first_key_match_is(self@, *key, i as int);
                    }
                }
                return true;
            }
            i = i + 1;
        }
        false
    }

    /// An iterator over the map's pairs, in insertion order.
    pub fn iter(&self) -> (it: VecMapIter<K, V>)
        ensures
            it.entries() == self@,
            it.pos() == 0,
    {
        VecMapIter::new(self)
    }
}

impl<K: PartialEq, V> Default for VecMap<K, V> {
    /// An empty map.
    fn default() -> (m: Self)
        ensures
            m@ == Seq::<(K, V)>::empty(),
            m.wf(),
    {
        VecMap { elements: Vec::new() }
    }
}

/// A cursor over a `VecMap`'s pairs, yielding them in insertion order.
pub struct VecMapIter<'a, K, V> {
    map: &'a VecMap<K, V>,
    index: usize,
}

impl<'a, K, V> VecMapIter<'a, K, V> {
    /// The pairs being walked.
    pub closed spec fn entries(&self) -> Seq<(K, V)> {
        self.map@
    }

    /// How many pairs have been yielded so far.
    pub closed spec fn pos(&self) -> int {
        self.index as int
    }

    fn new(map: &'a VecMap<K, V>) -> (it: Self)
        ensures
            it.entries() == map@,
            it.pos() == 0,
    {
        VecMapIter { map, index: 0 }
    }

    /// The next pair, or absence once every pair has been yielded.
    pub fn next(&mut self) -> (r: Option<&'a (K, V)>)
        ensures
            final(self).entries() == old(self).entries(),
            old(self).pos() < old(self).entries().len() ==> {
                &&& r matches Some(pair) && *pair == old(self).entries()[old(self).pos()]
                &&& final(self).pos() == old(self).pos() + 1
            },
            old(self).pos() >= old(self).entries().len() ==> r is None && final(self).pos() == old(
                self,
            ).pos(),
    {
        if self.index < self.map.elements.len() {
            let item = &self.map.elements[self.index];
            self.index = self.index + 1;
            Some(item)
        } else {
            None
        }
    }
}

} // verus!
