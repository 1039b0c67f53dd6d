//! Set comparison and filtered draining for the standard `HashSet`.
//!
//! The contracts here speak of clones: each produced element is a clone of an
//! element of the input sets, related by `cloned`. For key types whose
//! `Clone` returns the value itself — every primitive, `String`, and the
//! like — the clauses collapse to plain set membership.
//!
//! They also rest on the standard hash-table model (`obeys_key_model`), the
//! usual condition under which `vstd` specifies `HashSet` at all.

use std::collections::hash_map::RandomState;
use std::collections::HashSet;
use std::hash::Hash;
use vstd::pervasive::cloned;
use vstd::prelude::*;
use vstd::std_specs::hash::builds_valid_hashers;
use vstd::std_specs::hash::obeys_key_model;

verus! {

/// How a single element relates two sets that are being compared.
#[derive(Debug, PartialEq, Eq)]
pub enum DiffItem<T> {
    /// The item is present in both sets.
    Same(T),
    /// The item is present only in the second set.
    Added(T),
    /// The item is present only in the first set.
    Removed(T),
}

/// The element a diff item carries.
pub open spec fn diff_payload<T>(item: DiffItem<T>) -> T {
    match item {
        DiffItem::Same(x) => x,
        DiffItem::Added(x) => x,
        DiffItem::Removed(x) => x,
    }
}

/// Whether `vstd`'s model of hash sets over `T` applies: the standard
/// condition for reasoning about `HashSet` contents.
pub open spec fn hash_set_modeled<T>() -> bool {
    obeys_key_model::<T>() && builds_valid_hashers::<RandomState>()
}

/// Whether cloning a `T` can only hand back the value itself — true of
/// every type whose `Clone` copies, such as the integers and `String`.
pub open spec fn clone_is_identity<T: Clone>() -> bool {
    forall|a: T, b: T| #[trigger] cloned::<T>(a, b) ==> a == b
}

/// Whether a diff item correctly describes its element against the compared
/// sets `a` and `b`: a `Same` or `Removed` element is a clone of an element
/// of `a` and itself lies, or does not lie, in `b`; an `Added` element is a
/// clone of an element of `b` and does not itself lie in `a`.
pub open spec fn describes_membership<T: Clone>(item: DiffItem<T>, a: Set<T>, b: Set<T>) -> bool {
    match item {
        DiffItem::Same(x) => (exists|y: T| #[trigger] cloned::<T>(y, x) && a.contains(y))
            && b.contains(x),
        DiffItem::Removed(x) => (exists|y: T| #[trigger] cloned::<T>(y, x) && a.contains(y))
            && !b.contains(x),
        DiffItem::Added(x) => (exists|y: T| #[trigger] cloned::<T>(y, x) && b.contains(y))
            && !a.contains(x),
    }
}

/// Whether some item of `items` carries a clone of `y`.
pub open spec fn diff_covers<T: Clone>(items: Seq<DiffItem<T>>, y: T) -> bool {
    exists|i: int| 0 <= i < items.len() && cloned::<T>(y, diff_payload(#[trigger] items[i]))
}

/// Whatever covers `y` in a prefix still covers it in the longer sequence.
proof fn lemma_covers_prefix<T: Clone>(a0: Seq<DiffItem<T>>, a1: Seq<DiffItem<T>>, y: T)
    requires
        a0.len() <= a1.len(),
        forall|j: int| 0 <= j < a0.len() ==> a1[j] == #[trigger] a0[j],
        diff_covers(a0, y),
    ensures
        diff_covers(a1, y),
{
    let i = choose|i: int| 0 <= i < a0.len() && cloned::<T>(y, diff_payload(#[trigger] a0[i]));
    assert(cloned::<T>(y, diff_payload(a1[i])));
}

/// Clones of the elements of `s`, in some order: one clone per element. The
/// ghost result carries the original element each clone was made from.
fn set_to_vec<T: Eq + Hash + Clone>(s: &HashSet<T>) -> (pair: (Vec<T>, Ghost<Seq<T>>))
    requires
        hash_set_modeled::<T>(),
    ensures
        pair.1@.len() == pair.0@.len(),
        pair.0@.len() == s@.len(),
        forall|k: int| 0 <= k < pair.0@.len() ==> cloned::<T>(pair.1@[k], #[trigger] pair.0@[k]),
        forall|k: int| 0 <= k < pair.1@.len() ==> s@.contains(#[trigger] pair.1@[k]),
        forall|x: T| #[trigger] s@.contains(x) ==> pair.1@.contains(x),
        pair.1@.no_duplicates(),
{
    let ghost all = vstd::std_specs::hash::into_iter_hash_keys(
        vstd::std_specs::hash::spec_hash_keys_iter(s),
    );
    let iter0 = s.iter();
    proof {
        assert(all.to_set() == s@);
        assert(all.len() == s@.len());
        all.lemma_no_dup_set_cardinality();
        assert(forall|k: int| 0 <= k < all.len() ==> s@.contains(#[trigger] all[k]));
        assert(forall|x: T| #[trigger] s@.contains(x) ==> all.contains(x));
    }
    let mut v: Vec<T> = Vec::new();
    for x in it: iter0
        invariant
            hash_set_modeled::<T>(),
            it.seq().unref() == all,
            v@.len() == it.index(),
            forall|k: int| 0 <= k < v@.len() ==> cloned::<T>(all[k], #[trigger] v@[k]),
    {
        v.push(x.clone());
    }
    proof {
        assert(v@.len() == all.len());
    }
    (v, Ghost(all))
}

/// Extension trait for `HashSet`: set comparison and filtered draining.
pub trait MoreHashSet<T>: View<V = Set<T>> where T: Eq + Hash + Clone {
    /// Compares two sets and reports each element as shared (`Same`),
    /// missing from `other` (`Removed`), or new in `other` (`Added`).
    ///
    /// Every element of `self` is represented; an element of `other` is
    /// represented unless a clone of it already lay in `self`. For types
    /// whose clones are the values themselves, each element of either set is
    /// represented exactly once, so the result's length is the size of the
    /// union.
    fn diff(&self, other: &HashSet<T>) -> (r: Vec<DiffItem<T>>)
        requires
            hash_set_modeled::<T>(),
        ensures
            forall|i: int|
                0 <= i < r@.len() ==> describes_membership(#[trigger] r@[i], self@, other@),
            forall|y: T| #[trigger] self@.contains(y) ==> diff_covers(r@, y),
            forall|y: T|
                #[trigger] other@.contains(y) ==> diff_covers(r@, y) || (exists|z: T|
                    #[trigger] cloned::<T>(y, z) && self@.contains(z)),
            clone_is_identity::<T>() ==> {
                &&& forall|i: int, j: int|
                    #![trigger r@[i], r@[j]]
                    0 <= i < j < r@.len() ==> diff_payload(r@[i]) != diff_payload(r@[j])
                &&& r@.len() == self@.union(other@).len()
            },
    ;

    /// Removes the elements matching `predicate` and returns them as a new
    /// set; the non-matching elements stay.
    ///
    /// Every element lands in exactly one of the two sets, as a clone, and
    /// the predicate's verdict on that clone decides which.
    fn drain_filter<F: Fn(&T) -> bool>(&mut self, predicate: F) -> (removed: HashSet<T>)
        requires
            hash_set_modeled::<T>(),
            forall|t: &T| #[trigger] call_requires(predicate, (t,)),
        ensures
            forall|y: T|
                #[trigger] final(self)@.contains(y) ==> (exists|x: T|
                    #[trigger] cloned::<T>(x, y) && old(self)@.contains(x)) && call_ensures(
                    predicate,
                    (&y,),
                    false,
                ),
            forall|y: T|
                #[trigger] removed@.contains(y) ==> (exists|x: T|
                    #[trigger] cloned::<T>(x, y) && old(self)@.contains(x)) && call_ensures(
                    predicate,
                    (&y,),
                    true,
                ),
            forall|x: T|
                #[trigger] old(self)@.contains(x) ==> exists|y: T|
                    #[trigger] cloned::<T>(x, y) && (final(self)@.contains(y)
                        || removed@.contains(y)),
    ;
}

impl<T> MoreHashSet<T> for HashSet<T> where T: Eq + Hash + Clone {
    fn diff(&self, other: &HashSet<T>) -> (r: Vec<DiffItem<T>>) {
        let (mut mine, morigs) = set_to_vec(self);
        let ghost mo = morigs@;
        let mut sames: Vec<DiffItem<T>> = Vec::new();
        let mut removeds: Vec<DiffItem<T>> = Vec::new();
        let ghost mut sidx: Seq<int> = Seq::empty();
        let ghost mut ridx: Seq<int> = Seq::empty();
        while mine.len() > 0
            invariant
                hash_set_modeled::<T>(),
                mo.no_duplicates(),
                mine@.len() <= mo.len(),
                forall|k: int| 0 <= k < mine@.len() ==> cloned::<T>(mo[k], #[trigger] mine@[k]),
                forall|k: int| 0 <= k < mo.len() ==> self@.contains(#[trigger] mo[k]),
                forall|i: int|
                    0 <= i < sames@.len() ==> describes_membership(
                        #[trigger] sames@[i],
                        self@,
                        other@,
                    ),
                forall|i: int|
                    0 <= i < removeds@.len() ==> describes_membership(
                        #[trigger] removeds@[i],
                        self@,
                        other@,
                    ),
                forall|k: int|
                    #![trigger mo[k]]
                    mine@.len() <= k < mo.len() ==> diff_covers(sames@, mo[k]) || diff_covers(
                        removeds@,
                        mo[k],
                    ),
                sidx.len() == sames@.len(),
                ridx.len() == removeds@.len(),
                forall|i: int| 0 <= i < sidx.len() ==> mine@.len() <= #[trigger] sidx[i] < mo.len(),
                forall|i: int| 0 <= i < ridx.len() ==> mine@.len() <= #[trigger] ridx[i] < mo.len(),
                forall|i1: int, i2: int|
                    #![trigger sidx[i1], sidx[i2]]
                    0 <= i1 < i2 < sidx.len() ==> sidx[i1] > sidx[i2],
                forall|i1: int, i2: int|
                    #![trigger ridx[i1], ridx[i2]]
                    0 <= i1 < i2 < ridx.len() ==> ridx[i1] > ridx[i2],
                forall|i1: int, i2: int|
                    #![trigger sidx[i1], ridx[i2]]
                    0 <= i1 < sidx.len() && 0 <= i2 < ridx.len() ==> sidx[i1] != ridx[i2],
                clone_is_identity::<T>() ==> forall|i: int|
                    0 <= i < sidx.len() ==> diff_payload(#[trigger] sames@[i]) == mo[sidx[i]],
                clone_is_identity::<T>() ==> forall|i: int|
                    0 <= i < ridx.len() ==> diff_payload(#[trigger] removeds@[i]) == mo[ridx[i]],
            decreases mine@.len(),
        {
            let x = mine.pop().unwrap();
            let ghost k = mine@.len() as int;
            let ghost s0 = sames@;
            let ghost r0 = removeds@;
            proof {
                assert(cloned::<T>(mo[k], x));
            }
            if other.contains(&x) {
                proof {
                    assert(other@.contains(x));
                }
                sames.push(DiffItem::Same(x));
                proof {
                    sidx = sidx.push(k);
                    assert(self@.contains(mo[k]));
                    assert(diff_payload(sames@[sames@.len() - 1]) == x);
                    assert(describes_membership(sames@[sames@.len() - 1], self@, other@));
                    assert(diff_covers(sames@, mo[k]));
                }
            } else {
                proof {
                    assert(!other@.contains(x));
                }
                removeds.push(DiffItem::Removed(x));
                proof {
                    ridx = ridx.push(k);
                    assert(self@.contains(mo[k]));
                    assert(diff_payload(removeds@[removeds@.len() - 1]) == x);
                    assert(describes_membership(removeds@[removeds@.len() - 1], self@, other@));
                    assert(diff_covers(removeds@, mo[k]));
                }
            }
            proof {
                assert forall|j: int| #![trigger mo[j]] mine@.len() <= j < mo.len() implies diff_covers(
                    sames@,
                    mo[j],
                ) || diff_covers(removeds@, mo[j]) by {
                    if j != k {
                        if diff_covers(s0, mo[j]) {
                            lemma_covers_prefix(s0, sames@, mo[j]);
                        }
                        if diff_covers(r0, mo[j]) {
                            lemma_covers_prefix(r0, removeds@, mo[j]);
                        }
                    }
                }
            }
        }
        let ghost sf = sames@;
        let ghost rf = removeds@;
        let mut r = sames;
        r.append(&mut removeds);
        let ghost base = r@.len() as int;
        let ghost rbase = r@;
        let ghost cidx = sidx + ridx;
        proof {
            assert forall|y: T| #[trigger] self@.contains(y) implies diff_covers(r@, y) by {
                let k = choose|k: int| 0 <= k < mo.len() && mo[k] == y;
                if diff_covers(sf, y) {
                    lemma_covers_prefix(sf, r@, y);
                } else {
                    let i = choose|i: int|
                        0 <= i < rf.len() && cloned::<T>(y, diff_payload(#[trigger] rf[i]));
                    assert(r@[sf.len() + i] == rf[i]);
                    assert(cloned::<T>(y, diff_payload(r@[sf.len() + i])));
                }
            }
            assert forall|i: int| 0 <= i < base implies 0 <= #[trigger] cidx[i] < mo.len() by {
                if i < sf.len() {
                    assert(cidx[i] == sidx[i]);
                } else {
                    assert(cidx[i] == ridx[i - sf.len()]);
                }
            }
            assert forall|i: int, j: int|
                #![trigger cidx[i], cidx[j]]
                0 <= i < j < base implies cidx[i] != cidx[j] by {
                let n1 = sf.len() as int;
                if j < n1 {
                    assert(cidx[i] == sidx[i] && cidx[j] == sidx[j]);
                } else if i < n1 {
                    assert(cidx[i] == sidx[i] && cidx[j] == ridx[j - n1]);
                } else {
                    assert(cidx[i] == ridx[i - n1] && cidx[j] == ridx[j - n1]);
                }
            }
            if clone_is_identity::<T>() {
                assert forall|i: int| 0 <= i < base implies diff_payload(#[trigger] rbase[i])
                    == mo[cidx[i]] by {
                    if i < sf.len() {
                        assert(rbase[i] == sf[i] && cidx[i] == sidx[i]);
                    } else {
                        assert(rbase[i] == rf[i - sf.len()] && cidx[i] == ridx[i - sf.len()]);
                    }
                }
            }
        }
        let (mut theirs, torigs) = set_to_vec(other);
        let ghost to = torigs@;
        let ghost mut aidx: Seq<int> = Seq::empty();
        while theirs.len() > 0
            invariant
                hash_set_modeled::<T>(),
                to.no_duplicates(),
                theirs@.len() <= to.len(),
                forall|k: int| 0 <= k < theirs@.len() ==> cloned::<T>(to[k], #[trigger] theirs@[k]),
                forall|k: int| 0 <= k < to.len() ==> other@.contains(#[trigger] to[k]),
                forall|i: int|
                    0 <= i < r@.len() ==> describes_membership(#[trigger] r@[i], self@, other@),
                forall|y: T| #[trigger] self@.contains(y) ==> diff_covers(r@, y),
                forall|k: int|
                    #![trigger to[k]]
                    theirs@.len() <= k < to.len() ==> diff_covers(r@, to[k]) || (exists|z: T|
                        #[trigger] cloned::<T>(to[k], z) && self@.contains(z)),
                rbase.len() == base,
                r@.len() == base + aidx.len(),
                forall|i: int| 0 <= i < base ==> #[trigger] r@[i] == rbase[i],
                forall|i: int|
                    0 <= i < aidx.len() ==> theirs@.len() <= #[trigger] aidx[i] < to.len(),
                forall|i1: int, i2: int|
                    #![trigger aidx[i1], aidx[i2]]
                    0 <= i1 < i2 < aidx.len() ==> aidx[i1] > aidx[i2],
                clone_is_identity::<T>() ==> forall|i: int|
                    0 <= i < aidx.len() ==> diff_payload(#[trigger] r@[base + i]) == to[aidx[i]]
                        && !self@.contains(diff_payload(r@[base + i])),
            decreases theirs@.len(),
        {
            let y = theirs.pop().unwrap();
            let ghost k = theirs@.len() as int;
            let ghost r0 = r@;
            proof {
                assert(cloned::<T>(to[k], y));
            }
            if !self.contains(&y) {
                proof {
                    assert(!self@.contains(y));
                    assert(other@.contains(to[k]));
                }
                r.push(DiffItem::Added(y));
                proof {
                    aidx = aidx.push(k);
                    assert(diff_payload(r@[r@.len() - 1]) == y);
                    assert(describes_membership(r@[r@.len() - 1], self@, other@));
                    assert(diff_covers(r@, to[k]));
                }
            } else {
                proof {
                    assert(self@.contains(y));
                }
            }
            proof {
                assert forall|y2: T| #[trigger] self@.contains(y2) implies diff_covers(r@, y2) by {
                    lemma_covers_prefix(r0, r@, y2);
                }
                assert forall|j: int| #![trigger to[j]] theirs@.len() <= j < to.len() implies diff_covers(
                    r@,
                    to[j],
                ) || (exists|z: T| #[trigger] cloned::<T>(to[j], z) && self@.contains(z)) by {
                    if j != k {
                        if diff_covers(r0, to[j]) {
                            lemma_covers_prefix(r0, r@, to[j]);
                        }
                    }
                }
            }
        }
        proof {
            assert forall|y: T| #[trigger] other@.contains(y) implies diff_covers(r@, y) || (
            exists|z: T| #[trigger] cloned::<T>(y, z) && self@.contains(z)) by {
                let k = choose|k: int| 0 <= k < to.len() && to[k] == y;
            }
            if clone_is_identity::<T>() {
                assert forall|i: int, j: int|
                    #![trigger r@[i], r@[j]]
                    0 <= i < j < r@.len() implies diff_payload(r@[i]) != diff_payload(r@[j]) by {
                    if j < base {
                        assert(r@[i] == rbase[i] && r@[j] == rbase[j]);
                        assert(diff_payload(rbase[i]) == mo[cidx[i]]);
                        assert(diff_payload(rbase[j]) == mo[cidx[j]]);
                        assert(cidx[i] != cidx[j]);
                        assert(mo[cidx[i]] != mo[cidx[j]]);
                    } else if i < base {
                        assert(r@[i] == rbase[i]);
                        assert(diff_payload(rbase[i]) == mo[cidx[i]]);
                        assert(self@.contains(mo[cidx[i]]));
                        assert(!self@.contains(diff_payload(r@[base + (j - base)])));
                    } else {
                        assert(diff_payload(r@[base + (i - base)]) == to[aidx[i - base]]);
                        assert(diff_payload(r@[base + (j - base)]) == to[aidx[j - base]]);
                        assert(aidx[i - base] != aidx[j - base]);
                        assert(to[aidx[i - base]] != to[aidx[j - base]]);
                    }
                }
                let p = Seq::new(r@.len(), |i: int| diff_payload(r@[i]));
                assert(p.no_duplicates());
                assert forall|e: T| #[trigger] p.to_set().contains(e) implies self@.union(
                    other@,
                ).contains(e) by {
                    let i = choose|i: int| 0 <= i < p.len() && p[i] == e;
                    assert(describes_membership(r@[i], self@, other@));
                    match r@[i] {
                        DiffItem::Same(x) => {
                            let y = choose|y: T| #[trigger] cloned::<T>(y, x) && self@.contains(y);
                            assert(self@.contains(e));
                        },
                        DiffItem::Removed(x) => {
                            let y = choose|y: T| #[trigger] cloned::<T>(y, x) && self@.contains(y);
                            assert(self@.contains(e));
                        },
                        DiffItem::Added(x) => {
                            let y = choose|y: T| #[trigger] cloned::<T>(y, x) && other@.contains(y);
                            assert(other@.contains(e));
                        },
                    }
                }
                assert forall|e: T| #[trigger] self@.union(other@).contains(e) implies p.to_set()
                    .contains(e) by {
                    if self@.contains(e) || (exists|z: T| #[trigger] cloned::<T>(e, z)
                        && self@.contains(z)) {
                        if !self@.contains(e) {
                            let z = choose|z: T| #[trigger] cloned::<T>(e, z) && self@.contains(z);
                            assert(z == e);
                        }
                        assert(diff_covers(r@, e));
                    } else {
                        assert(other@.contains(e));
                        assert(diff_covers(r@, e));
                    }
                    let i = choose|i: int|
                        0 <= i < r@.len() && cloned::<T>(e, diff_payload(#[trigger] r@[i]));
                    assert(p[i] == e);
                }
                assert(p.to_set() =~= self@.union(other@));
                p.unique_seq_to_set();
                assert(r@.len() == self@.union(other@).len());
            }
        }
        r
    }

    fn drain_filter<F: Fn(&T) -> bool>(&mut self, predicate: F) -> (removed: HashSet<T>) {
        let (mut items, iorigs) = set_to_vec(self);
        let ghost io = iorigs@;
        let ghost mut wits = io;
        let mut kept: HashSet<T> = HashSet::new();
        let mut removed: HashSet<T> = HashSet::new();
        while items.len() > 0
            invariant
                hash_set_modeled::<T>(),
                forall|t: &T| #[trigger] call_requires(predicate, (t,)),
                items@.len() <= io.len(),
                wits.len() == io.len(),
                forall|k: int| 0 <= k < items@.len() ==> cloned::<T>(io[k], #[trigger] items@[k]),
                forall|k: int| 0 <= k < io.len() ==> old(self)@.contains(#[trigger] io[k]),
                forall|y: T|
                    #[trigger] kept@.contains(y) ==> (exists|x: T| #[trigger] cloned::<T>(x, y)
                        && old(self)@.contains(x)) && call_ensures(predicate, (&y,), false),
                forall|y: T|
                    #[trigger] removed@.contains(y) ==> (exists|x: T| #[trigger] cloned::<T>(x, y)
                        && old(self)@.contains(x)) && call_ensures(predicate, (&y,), true),
                forall|k: int|
                    #![trigger wits[k]]
                    items@.len() <= k < io.len() ==> cloned::<T>(io[k], wits[k]) && (kept@.contains(
                        wits[k],
                    ) || removed@.contains(wits[k])),
                *self == *old(self),
            decreases items@.len(),
        {
            let x = items.pop().unwrap();
            let ghost k = items@.len() as int;
            let ghost kept0 = kept@;
            let ghost removed0 = removed@;
            proof {
                assert(cloned::<T>(io[k], x));
            }
            let verdict = predicate(&x);
            proof {
                assert(old(self)@.contains(io[k]));
            }
            if verdict {
                removed.insert(x);
                proof {
                    assert(removed@.contains(x));
                    assert forall|y: T| #[trigger] removed@.contains(y) implies (exists|x0: T|
                        #[trigger] cloned::<T>(x0, y) && old(self)@.contains(x0)) && call_ensures(
                        predicate,
                        (&y,),
                        true,
                    ) by {
                        if y == x {
                            assert(cloned::<T>(io[k], x));
                        } else {
                            assert(removed0.contains(y));
                        }
                    }
                }
            } else {
                kept.insert(x);
                proof {
                    assert(kept@.contains(x));
                    assert forall|y: T| #[trigger] kept@.contains(y) implies (exists|x0: T|
                        #[trigger] cloned::<T>(x0, y) && old(self)@.contains(x0)) && call_ensures(
                        predicate,
                        (&y,),
                        false,
                    ) by {
                        if y == x {
                            assert(cloned::<T>(io[k], x));
                        } else {
                            assert(kept0.contains(y));
                        }
                    }
                }
            }
            proof {
                wits = wits.update(k, x);
                assert(kept@.contains(x) || removed@.contains(x));
                assert forall|k2: int|
                    #![trigger wits[k2]]
                    items@.len() <= k2 < io.len() implies cloned::<T>(io[k2], wits[k2]) && (
                kept@.contains(wits[k2]) || removed@.contains(wits[k2])) by {
                    if k2 != k {
                        assert(kept0.contains(wits[k2]) || removed0.contains(wits[k2]));
                    }
                }
            }
        }
        let ghost pre = self@;
        *self = kept;
        proof {
            assert forall|x: T| #[trigger] pre.contains(x) implies exists|y: T|
                #[trigger] cloned::<T>(x, y) && (self@.contains(y) || removed@.contains(y)) by {
                let k = choose|k: int| 0 <= k < io.len() && io[k] == x;
                assert(cloned::<T>(io[k], wits[k]));
            }
        }
        removed
    }
}

} // verus!
