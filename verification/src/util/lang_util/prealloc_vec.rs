//! A preallocated, capacity-stable append buffer.
//!
//! The buffer owns a backing store of slots and a logical-length cursor.
//! Clearing it only resets the cursor: the slots stay allocated, and later
//! pushes overwrite them in place instead of allocating. A caller-supplied
//! factory produces blank elements whenever the physical store must grow.
//!
//! All mutating operations take exclusive (`&mut`) access; the buffer itself
//! provides no internal synchronization.

use vstd::prelude::*;

verus! {

/// A preallocated append buffer over elements of type `T`, with a factory
/// closure of type `C` used to fill fresh slots.
///
/// The view (`@`) of a buffer is the sequence of its live elements: the
/// prefix of the physical store below the logical length.
pub struct PreallocatedVec<T, C> {
    items: Vec<T>,
    /// Index of the next slot to fill (0 for empty): the logical length.
    back_index: usize,
    creation_fn: C,
}

broadcast proof fn lemma_update_commutes_with_subrange<T>(s: Seq<T>, b: int, i: int, x: T)
    requires
        0 <= i < b <= s.len(),
    ensures
        #[trigger] s.update(i, x).subrange(0, b) == s.subrange(0, b).update(i, x),
{
    assert(s.update(i, x).subrange(0, b) =~= s.subrange(0, b).update(i, x));
}

impl<T, C> View for PreallocatedVec<T, C> {
    type V = Seq<T>;

    closed spec fn view(&self) -> Seq<T> {
        self.items@.subrange(0, self.back_index as int)
    }
}

impl<T, C> PreallocatedVec<T, C> {
    /// The whole physical store, stale slots included.
    pub closed spec fn store(&self) -> Seq<T> {
        self.items@
    }

    /// The physical capacity: the number of allocated slots.
    pub closed spec fn spec_capacity(&self) -> int {
        self.items@.len() as int
    }

    /// The factory closure used to fill fresh slots.
    pub closed spec fn factory(&self) -> C {
        self.creation_fn
    }

    /// Well-formedness: the logical length never exceeds the physical one.
    pub closed spec fn wf(&self) -> bool {
        self.back_index <= self.items@.len()
    }

    /// The data model: the physical capacity is the store's length, the
    /// logical length never exceeds it, and the live elements are exactly
    /// the prefix of the store below the logical length.
    pub proof fn lemma_view_is_store_prefix(&self)
        requires
            self.wf(),
        ensures
            self.spec_capacity() == self.store().len(),
            self@.len() <= self.spec_capacity(),
            self@ == self.store().subrange(0, self@.len() as int),
    {
    }

    /// How one `push` changes the buffer: the value becomes the new last
    /// live element, and the capacity grows (by exactly one slot) only when
    /// every slot was already live.
    pub open spec fn push_transition(pre: Self, post: Self, value: T) -> bool {
        &&& post@ == pre@.push(value)
        &&& post.spec_capacity() == if pre@.len() < pre.spec_capacity() {
            pre.spec_capacity()
        } else {
            pre.spec_capacity() + 1
        }
        &&& post.factory() == pre.factory()
        &&& post.wf()
    }

}

impl<T, C: Fn() -> T> PreallocatedVec<T, C> {
    /// The element handed to `push_prealloc`'s callback: the content of the
    /// stale slot at the logical length where one exists, and a
    /// factory-built element where the store would have to grow.
    pub open spec fn push_prealloc_input(pre: Self, t0: T) -> bool {
        if pre@.len() < pre.spec_capacity() {
            t0 == pre.store()[pre@.len() as int]
        } else {
            call_ensures(pre.factory(), (), t0)
        }
    }

    /// How one `push_prealloc` call changes the buffer, given the callback
    /// `f` and its reported outcome `r`. The callback received the stale
    /// slot's content (or a factory-built element, at full occupancy); on
    /// success its result was pushed exactly as `push` would push it, and on
    /// refusal the live contents and the capacity are unchanged, with the
    /// refused element left in the stale slot where one existed.
    pub open spec fn push_prealloc_transition<F: Fn(T) -> (T, bool)>(
        pre: Self,
        post: Self,
        f: F,
        r: bool,
    ) -> bool {
        &&& r ==> exists|t0: T, t1: T|
            {
                &&& Self::push_prealloc_input(pre, t0)
                &&& #[trigger] call_ensures(f, (t0,), (t1, true))
                &&& Self::push_transition(pre, post, t1)
                &&& pre@.len() < pre.spec_capacity() ==> post.store() == pre.store().update(
                    pre@.len() as int,
                    t1,
                )
                &&& pre@.len() >= pre.spec_capacity() ==> post.store() == pre.store().push(t1)
            }
        &&& !r ==> {
            &&& post@ == pre@
            &&& post.spec_capacity() == pre.spec_capacity()
            &&& post.factory() == pre.factory()
            &&& post.wf()
            &&& exists|t0: T, t1: T|
                {
                    &&& Self::push_prealloc_input(pre, t0)
                    &&& #[trigger] call_ensures(f, (t0,), (t1, false))
                    &&& pre@.len() < pre.spec_capacity() ==> post.store() == pre.store().update(
                        pre@.len() as int,
                        t1,
                    )
                    &&& pre@.len() >= pre.spec_capacity() ==> post.store() == pre.store()
                }
        }
    }

    /// Creates a buffer with `capacity` slots, each filled by `creation_fn`,
    /// and logical length 0.
    pub fn with_capacity(capacity: usize, creation_fn: C) -> (buf: Self)
        requires
            call_requires(creation_fn, ()),
        ensures
            buf.wf(),
            buf@ == Seq::<T>::empty(),
            buf.spec_capacity() == capacity,
            buf.factory() == creation_fn,
            forall|i: int|
                0 <= i < capacity ==> call_ensures(creation_fn, (), #[trigger] buf.store()[i]),
    {
        let mut buf = PreallocatedVec {
            items: Vec::with_capacity(capacity),
            back_index: 0,
            creation_fn,
        };
        buf.set_capacity(capacity);
        proof {
            assert(buf@ =~= Seq::<T>::empty());
        }
        buf
    }

    /// The current physical capacity.
    pub fn capacity(&self) -> (n: usize)
        ensures
            n == self.spec_capacity(),
    {
        self.items.len()
    }

    /// Resizes the physical store to exactly `capacity` slots.
    ///
    /// New slots are filled by the factory; shrinking drops the slots at and
    /// beyond `capacity` — live elements there included — and clamps the
    /// logical length down to `capacity`.
    pub fn set_capacity(&mut self, capacity: usize)
        requires
            old(self).wf(),
            call_requires(old(self).factory(), ()),
        ensures
            final(self).wf(),
            final(self).factory() == old(self).factory(),
            final(self).spec_capacity() == capacity,
            forall|i: int|
                0 <= i < old(self).store().len() && i < capacity ==> final(self).store()[i]
                    == old(self).store()[i],
            forall|i: int|
                old(self).store().len() <= i < capacity ==> call_ensures(
                    old(self).factory(),
                    (),
                    #[trigger] final(self).store()[i],
                ),
            final(self)@ == old(self)@.subrange(
                0,
                if old(self)@.len() <= capacity { old(self)@.len() as int } else { capacity as int },
            ),
    {
        while self.items.len() < capacity
            invariant
                old(self).store().len() <= self.items@.len(),
                self.items@.len() <= capacity || self.items@.len() == old(self).store().len(),
                self.back_index == old(self).back_index,
                self.creation_fn == old(self).creation_fn,
                call_requires(self.creation_fn, ()),
                forall|i: int|
                    0 <= i < old(self).store().len() ==> self.items@[i] == old(self).store()[i],
                forall|i: int|
                    old(self).store().len() <= i < self.items@.len() ==> call_ensures(
                        old(self).creation_fn,
                        (),
                        #[trigger] self.items@[i],
                    ),
            decreases capacity - self.items.len(),
        {
            let blank = (self.creation_fn)();
            self.items.push(blank);
        }
        if self.items.len() > capacity {
            self.items.truncate(capacity);
        }
        if self.back_index > capacity {
            self.back_index = capacity;
        }
        proof {
            assert(final(self)@ =~= old(self)@.subrange(
                0,
                if old(self)@.len() <= capacity { old(self)@.len() as int } else { capacity as int },
            ));
        }
    }

    /// A read view over the entire physical store, stale slots included.
    pub fn raw_slice(&self) -> (s: &[T])
        ensures
            s@ == self.store(),
    {
        self.items.as_slice()
    }

    /// The logical length: the number of live elements.
    pub fn len(&self) -> (n: usize)
        requires
            self.wf(),
        ensures
            n == self@.len(),
    {
        self.back_index
    }

    /// Resets the logical length to 0 without touching the slots or the
    /// physical capacity.
    pub fn clear(&mut self)
        ensures
            final(self).wf(),
            final(self)@ == Seq::<T>::empty(),
            final(self).store() == old(self).store(),
            final(self).spec_capacity() == old(self).spec_capacity(),
            final(self).factory() == old(self).factory(),
    {
        self.back_index = 0;
        proof {
            assert(final(self)@ =~= Seq::<T>::empty());
        }
    }

    /// The element at `index`, or absence when `index` is at or beyond the
    /// logical length — even where a stale slot physically exists there.
    pub fn get(&self, index: usize) -> (r: Option<&T>)
        requires
            self.wf(),
        ensures
            index < self@.len() ==> (r matches Some(v) && *v == self@[index as int]),
            index >= self@.len() ==> r is None,
    {
        if index < self.back_index {
            Some(&self.items[index])
        } else {
            None
        }
    }

    /// Exclusive access to the element at `index`, or absence when `index`
    /// is at or beyond the logical length.
    pub fn get_mut(&mut self, index: usize) -> (r: Option<&mut T>)
        requires
            old(self).wf(),
        ensures
            final(self).wf(),
            index >= old(self)@.len() ==> r is None && *final(self) == *old(self),
            index < old(self)@.len() ==> {
                &&& r is Some
                &&& *r.unwrap() == old(self)@[index as int]
                &&& final(self)@ == old(self)@.update(index as int, *final(r.unwrap()))
                &&& final(self).store() == old(self).store().update(
                    index as int,
                    *final(r.unwrap()),
                )
                &&& final(self).spec_capacity() == old(self).spec_capacity()
                &&& final(self).factory() == old(self).factory()
            },
    {
        broadcast use lemma_update_commutes_with_subrange;

        if index < self.back_index {
            Some(&mut self.items[index])
        } else {
            None
        }
    }

    /// The last live element, or absence when the buffer is logically empty.
    ///
    /// Agrees with `get(len() - 1)` on a non-empty buffer.
    pub fn last(&self) -> (r: Option<&T>)
        requires
            self.wf(),
        ensures
            self@.len() == 0 ==> r is None,
            self@.len() > 0 ==> (r matches Some(v) && *v == self@[self@.len() - 1]),
    {
        if self.back_index == 0 {
            None
        } else {
            Some(&self.items[self.back_index - 1])
        }
    }

    /// Exclusive access to the last live element, or absence when the buffer
    /// is logically empty.
    ///
    /// Agrees with `get_mut(len() - 1)` on a non-empty buffer.
    pub fn last_mut(&mut self) -> (r: Option<&mut T>)
        requires
            old(self).wf(),
        ensures
            final(self).wf(),
            old(self)@.len() == 0 ==> r is None && *final(self) == *old(self),
            old(self)@.len() > 0 ==> {
                &&& r is Some
                &&& *r.unwrap() == old(self)@[old(self)@.len() - 1]
                &&& final(self)@ == old(self)@.update(
                    old(self)@.len() - 1,
                    *final(r.unwrap()),
                )
                &&& final(self).store() == old(self).store().update(
                    old(self)@.len() - 1,
                    *final(r.unwrap()),
                )
                &&& final(self).spec_capacity() == old(self).spec_capacity()
                &&& final(self).factory() == old(self).factory()
            },
    {
        broadcast use lemma_update_commutes_with_subrange;

        if self.back_index == 0 {
            None
        } else {
            let i = self.back_index - 1;
            Some(&mut self.items[i])
        }
    }

    /// The index of the last live element, or absence when the buffer is
    /// logically empty.
    pub fn last_index(&self) -> (r: Option<usize>)
        requires
            self.wf(),
        ensures
            self@.len() == 0 ==> r is None,
            self@.len() > 0 ==> r == Some((self@.len() - 1) as usize),
    {
        let len = self.len();
        if len == 0 {
            None
        } else {
            Some(len - 1)
        }
    }

    /// Appends `new_item` as the new last live element.
    ///
    /// Where a stale slot exists at the logical length, its content is
    /// replaced in place and no allocation happens; only when every slot is
    /// live does the physical store grow, by exactly one slot.
    pub fn push(&mut self, new_item: T)
        requires
            old(self).wf(),
        ensures
            Self::push_transition(*old(self), *final(self), new_item),
            final(self)@.len() == old(self)@.len() + 1,
            old(self)@.len() < old(self).spec_capacity() ==> final(self).store() == old(
                self,
            ).store().update(old(self)@.len() as int, new_item),
            old(self)@.len() == old(self).spec_capacity() ==> final(self).store() == old(
                self,
            ).store().push(new_item),
    {
        if self.back_index < self.items.len() {
            self.items[self.back_index] = new_item;
            self.back_index = self.back_index + 1;
        } else {
            self.items.push(new_item);
            self.back_index = self.items.len();
        }
        proof {
            assert(final(self)@ =~= old(self)@.push(new_item));
        }
    }

    /// Builds the new last element in place: hands the stale slot at the
    /// logical length (or a factory-fresh element, where the store must
    /// grow) to `copy_fn`, which returns the reworked element and a success
    /// flag.
    ///
    /// On success the element becomes live exactly as under `push` and the
    /// call returns `true`. On refusal the call returns `false` and the
    /// logical length, the live contents and the capacity are unchanged; the
    /// partly reworked element is left in its stale slot, not counted as
    /// live.
    pub fn push_prealloc<F: Fn(T) -> (T, bool)>(&mut self, copy_fn: F) -> (r: bool)
        requires
            old(self).wf(),
            call_requires(old(self).factory(), ()),
            forall|t: T| #[trigger] call_requires(copy_fn, (t,)),
        ensures
            Self::push_prealloc_transition(*old(self), *final(self), copy_fn, r),
    {
        if self.back_index < self.items.len() {
            let stale = self.items.remove(self.back_index);
            let (built, ok) = copy_fn(stale);
            self.items.insert(self.back_index, built);
            proof {
                assert(self.items@ =~= old(self).store().update(
                    old(self).back_index as int,
                    built,
                ));
                assert(self@ =~= old(self)@);
            }
            if ok {
                self.back_index = self.back_index + 1;
                proof {
                    assert(final(self)@ =~= old(self)@.push(built));
                }
            }
            ok
        } else {
            let blank = (self.creation_fn)();
            let (built, ok) = copy_fn(blank);
            if ok {
                self.items.push(built);
                self.back_index = self.items.len();
                proof {
                    assert(final(self)@ =~= old(self)@.push(built));
                }
            }
            ok
        }
    }
}

/// The live contents after pushing the values of `vs`, in order, onto a
/// buffer whose live contents were `live`.
pub open spec fn push_all<T>(live: Seq<T>, vs: Seq<T>) -> Seq<T>
    decreases vs.len(),
{
    if vs.len() == 0 {
        live
    } else {
        push_all(live.push(vs[0]), vs.drop_first())
    }
}

/// Pushing a run of values appends them, in order, to the live contents.
pub proof fn lemma_push_all_appends<T>(live: Seq<T>, vs: Seq<T>)
    ensures
        push_all(live, vs) == live + vs,
    decreases vs.len(),
{
    if vs.len() == 0 {
        assert(push_all(live, vs) =~= live + vs);
    } else {
        lemma_push_all_appends(live.push(vs[0]), vs.drop_first());
        assert(live.push(vs[0]) + vs.drop_first() =~= live + vs);
    }
}

/// After N pushes onto an empty buffer with no intervening clear, the length
/// is N and the element at each index is the value pushed at that position.
pub proof fn lemma_pushes_in_order<T>(vs: Seq<T>)
    ensures
        push_all(Seq::<T>::empty(), vs).len() == vs.len(),
        forall|i: int| 0 <= i < vs.len() ==> push_all(Seq::<T>::empty(), vs)[i] == vs[i],
{
    lemma_push_all_appends(Seq::<T>::empty(), vs);
    assert(push_all(Seq::<T>::empty(), vs) =~= vs);
}

/// The physical capacity after `n` pushes onto a buffer of logical length
/// `len` and capacity `cap`, following the growth rule of `push`.
pub open spec fn capacity_after_pushes(len: nat, cap: nat, n: nat) -> nat
    decreases n,
{
    if n == 0 {
        cap
    } else {
        capacity_after_pushes(
            len + 1,
            if len < cap { cap } else { cap + 1 },
            (n - 1) as nat,
        )
    }
}

/// One `push` walks the length and capacity one step along
/// `capacity_after_pushes`: what `n` further pushes reach from the new state
/// is what `n + 1` pushes reach from the old one.
pub proof fn lemma_push_steps_capacity_rule<T, C>(
    pre: PreallocatedVec<T, C>,
    post: PreallocatedVec<T, C>,
    value: T,
    n: nat,
)
    requires
        pre.wf(),
        pre@.len() <= pre.spec_capacity(),
        PreallocatedVec::<T, C>::push_transition(pre, post, value),
    ensures
        capacity_after_pushes(post@.len() as nat, post.spec_capacity() as nat, n)
            == capacity_after_pushes(pre@.len() as nat, pre.spec_capacity() as nat, n + 1),
{
}

/// Pushes that stay within the current capacity — for instance, pushes after
/// a clear, up to the previous peak length — never grow the capacity.
pub proof fn lemma_pushes_within_capacity_reuse_slots(len: nat, cap: nat, n: nat)
    requires
        len + n <= cap,
    ensures
        capacity_after_pushes(len, cap, n) == cap,
    decreases n,
{
    if n > 0 {
        lemma_pushes_within_capacity_reuse_slots(len + 1, cap, (n - 1) as nat);
    }
}

/// Pushes past the current capacity grow it by exactly the overflow amount:
/// one slot for each push beyond it, and none for the pushes within it.
pub proof fn lemma_pushes_beyond_capacity_grow_one_by_one(len: nat, cap: nat, n: nat)
    requires
        len <= cap,
        len + n >= cap,
    ensures
        capacity_after_pushes(len, cap, n) == cap + ((len + n) - cap),
    decreases n,
{
    if n > 0 {
        if len < cap {
            lemma_pushes_beyond_capacity_grow_one_by_one(len + 1, cap, (n - 1) as nat);
        } else {
            lemma_pushes_beyond_capacity_grow_one_by_one(len + 1, cap + 1, (n - 1) as nat);
        }
    }
}

/// A `push_prealloc` whose callback never reports success leaves the logical
/// length, the live contents and the capacity unchanged, and returns false.
pub proof fn lemma_push_prealloc_refused_changes_nothing<T, C: Fn() -> T, F: Fn(T) -> (T, bool)>(
    pre: PreallocatedVec<T, C>,
    post: PreallocatedVec<T, C>,
    f: F,
    r: bool,
)
    requires
        PreallocatedVec::<T, C>::push_prealloc_transition(pre, post, f, r),
        forall|t0: T, out: (T, bool)| #[trigger] call_ensures(f, (t0,), out) ==> !out.1,
    ensures
        !r,
        post@ == pre@,
        post.spec_capacity() == pre.spec_capacity(),
{
}

/// A successful `push_prealloc` changes the buffer exactly as a `push` of
/// the callback-built element: where the callback always succeeds and
/// reworks its slot by `g`, the post-state satisfies the push transition for
/// `g` of some slot content.
pub proof fn lemma_push_prealloc_accepted_is_push<T, C: Fn() -> T, F: Fn(T) -> (T, bool)>(
    pre: PreallocatedVec<T, C>,
    post: PreallocatedVec<T, C>,
    f: F,
    r: bool,
    g: spec_fn(T) -> T,
)
    requires
        PreallocatedVec::<T, C>::push_prealloc_transition(pre, post, f, r),
        r,
        forall|t0: T, out: (T, bool)| #[trigger] call_ensures(f, (t0,), out) ==> out == (
            g(t0),
            true,
        ),
    ensures
        exists|t0: T| PreallocatedVec::<T, C>::push_transition(pre, post, #[trigger] g(t0)),
{
}

} // verus!
