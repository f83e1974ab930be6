//! The constructors of shared pointers whose payload is written later, or is
//! a slice, a string or the value of a box.

use vstd::prelude::*;
use crate::allocator::Allocator;
use crate::arena::Arena;
use crate::collections::TryReserveError;
use crate::layout::Layout;
use crate::refcount::{creation_events, spec_inner_layout, ArcInner, Event};
use crate::sync::{inner_layout, Arc, Heap};

verus! {

impl<T, A: Allocator> Arc<T, A> {
    /// A block in `heap` for a payload of the layout `value_layout`, with
    /// one shared handle, the weak unit of the shared handles and no
    /// payload yet. The block is filled with zero bytes if `zeroed`.
    pub fn try_allocate_for_layout(value_layout: Layout, zeroed: bool, heap: &mut Heap<T, A>) -> (r:
        Result<usize, TryReserveError>)
        requires
            old(heap).wf(),
            value_layout.valid(),
        ensures
            final(heap).wf(),
            match r {
                Ok(p) => final(heap).block_added(
                    *old(heap),
                    p,
                    ArcInner::spec_new(1, 1, None, value_layout),
                    zeroed,
                ),
                Err(e) => final(heap).declined(*old(heap), spec_inner_layout(value_layout), e),
            },
    {
        // The layout of the block comes from the layout of the payload, not
        // from a payload in hand.
        let layout = match inner_layout(value_layout) {
            Ok(layout) => layout,
            Err(_) => {
                return Err(TryReserveError::CapacityOverflow);
            },
        };
        heap.issue(ArcInner { strong: 1, weak: 1, data: None, value: value_layout, layout }, zeroed)
    }

    /// Like `try_allocate_for_layout`, over an allocator that is bound to
    /// serve the request.
    pub fn allocate_for_layout(value_layout: Layout, zeroed: bool, heap: &mut Heap<T, A>) -> (p:
        usize)
        requires
            old(heap).wf(),
            value_layout.valid(),
            spec_inner_layout(value_layout) is Some,
            old(heap).allocator().can_allocate(spec_inner_layout(value_layout)->Some_0),
        ensures
            final(heap).wf(),
            final(heap).block_added(
                *old(heap),
                p,
                ArcInner::spec_new(1, 1, None, value_layout),
                zeroed,
            ),
    {
        match Self::try_allocate_for_layout(value_layout, zeroed, heap) {
            Ok(p) => p,
            Err(_) => vstd::pervasive::unreached(),
        }
    }

    /// A shared pointer whose payload is yet to be written.
    pub fn try_new_uninit_in(heap: &mut Heap<T, A>) -> (r: Result<Self, TryReserveError>)
        requires
            old(heap).wf(),
        ensures
            final(heap).wf(),
            match r {
                Ok(this) => final(heap).block_added(*old(heap), this.addr(), Self::uninit(), false),
                Err(e) => final(heap).declined(
                    *old(heap),
                    spec_inner_layout(Layout::spec_new::<T>()),
                    e,
                ),
            },
    {
        match Self::try_allocate_for_layout(Layout::new::<T>(), false, heap) {
            Ok(p) => Ok(Self::from_inner(p)),
            Err(e) => Err(e),
        }
    }

    /// Like `try_new_uninit_in`, over an allocator that is bound to serve
    /// the request.
    pub fn new_uninit_in(heap: &mut Heap<T, A>) -> (this: Self)
        requires
            old(heap).wf(),
            spec_inner_layout(Layout::spec_new::<T>()) is Some,
            old(heap).allocator().can_allocate(Self::uninit().layout),
        ensures
            final(heap).wf(),
            final(heap).block_added(*old(heap), this.addr(), Self::uninit(), false),
    {
        Self::from_inner(Self::allocate_for_layout(Layout::new::<T>(), false, heap))
    }

    /// A shared pointer whose payload is yet to be written, in a block that
    /// is filled with zero bytes.
    pub fn try_new_zero_in(heap: &mut Heap<T, A>) -> (r: Result<Self, TryReserveError>)
        requires
            old(heap).wf(),
        ensures
            final(heap).wf(),
            match r {
                Ok(this) => final(heap).block_added(*old(heap), this.addr(), Self::uninit(), true),
                Err(e) => final(heap).declined(
                    *old(heap),
                    spec_inner_layout(Layout::spec_new::<T>()),
                    e,
                ),
            },
    {
        match Self::try_allocate_for_layout(Layout::new::<T>(), true, heap) {
            Ok(p) => Ok(Self::from_inner(p)),
            Err(e) => Err(e),
        }
    }

    /// Like `try_new_zero_in`, over an allocator that is bound to serve the
    /// request.
    pub fn new_zeroed_in(heap: &mut Heap<T, A>) -> (this: Self)
        requires
            old(heap).wf(),
            spec_inner_layout(Layout::spec_new::<T>()) is Some,
            old(heap).allocator().can_allocate(Self::uninit().layout),
        ensures
            final(heap).wf(),
            final(heap).block_added(*old(heap), this.addr(), Self::uninit(), true),
    {
        Self::from_inner(Self::allocate_for_layout(Layout::new::<T>(), true, heap))
    }

    /// Writes the payload of a block that has none.
    pub fn write(this: &mut Self, data: T, heap: &mut Heap<T, A>)
        requires
            old(heap).wf(),
            old(heap).holds_strong(old(this).addr()),
            old(heap)@[old(this).addr()].data is None,
        ensures
            final(heap).wf(),
            final(this).addr() == old(this).addr(),
            final(heap).stepped(
                *old(heap),
                old(heap)@.insert(
                    old(this).addr(),
                    ArcInner { data: Some(data), ..old(heap)@[old(this).addr()] },
                ),
                seq![Event::PayloadWritten { addr: old(this).addr() }],
                old(this).addr(),
                false,
            ),
    {
        let mut inner = heap.take(this.ptr);
        inner.data = Some(data);
        heap.note(Ghost(Event::PayloadWritten { addr: this.ptr }));
        heap.put(this.ptr, inner);
        assert(heap@ =~= old(heap)@.insert(
            this.addr(),
            ArcInner { data: Some(data), ..old(heap)@[this.addr()] },
        ));
        assert(heap.trace() =~= old(heap).trace() + seq![
            Event::PayloadWritten { addr: old(this).addr() },
        ]);
    }

    /// The handle, where its payload has been written.
    pub fn assume_init(self, heap: &Heap<T, A>) -> (this: Self)
        requires
            heap@.contains_key(self.addr()),
            heap@[self.addr()].data is Some,
        ensures
            this.addr() == self.addr(),
    {
        self
    }

    /// A block in `heap` for a payload that is laid out as `value` is.
    pub fn try_allocate_for_ptr(value: &T, heap: &mut Heap<T, A>) -> (r: Result<
        usize,
        TryReserveError,
    >)
        requires
            old(heap).wf(),
        ensures
            final(heap).wf(),
            match r {
                Ok(p) => final(heap).block_added(*old(heap), p, Self::uninit(), false),
                Err(e) => final(heap).declined(
                    *old(heap),
                    spec_inner_layout(Layout::spec_new::<T>()),
                    e,
                ),
            },
    {
        Self::try_allocate_for_layout(Layout::for_value(value), false, heap)
    }

    /// Like `try_allocate_for_ptr`, over an allocator that is bound to serve
    /// the request.
    pub fn allocate_for_ptr(value: &T, heap: &mut Heap<T, A>) -> (p: usize)
        requires
            old(heap).wf(),
            spec_inner_layout(Layout::spec_new::<T>()) is Some,
            old(heap).allocator().can_allocate(Self::uninit().layout),
        ensures
            final(heap).wf(),
            final(heap).block_added(*old(heap), p, Self::uninit(), false),
    {
        Self::allocate_for_layout(Layout::for_value(value), false, heap)
    }

    /// A shared pointer to the value in `v`: the value moves from its box
    /// into a new block of `heap`, and the box is given up. Where no block
    /// is to be had, the value is given up with it.
    pub fn try_from_box(v: Box<T>, heap: &mut Heap<T, A>) -> (r: Result<Self, TryReserveError>)
        requires
            old(heap).wf(),
        ensures
            final(heap).wf(),
            match r {
                Ok(this) => {
                    &&& final(heap).block_added(*old(heap), this.addr(), Self::fresh(*v), false)
                    &&& final(heap).holds_strong(this.addr())
                },
                Err(e) => final(heap).declined(
                    *old(heap),
                    spec_inner_layout(Layout::spec_new::<T>()),
                    e,
                ),
            },
    {
        let p = match Self::try_allocate_for_ptr(&*v, heap) {
            Ok(p) => p,
            Err(e) => {
                return Err(e);
            },
        };
        let mut this = Self::from_inner(p);
        // The value moves over; what is left of the box holds nothing.
        Arc::write(&mut this, *v, heap);
        assert(heap@ =~= old(heap)@.insert(p, Self::fresh(*v)));
        assert(heap.trace() =~= old(heap).trace() + creation_events(p, Some(*v)));
        Ok(this)
    }

    /// Like `try_from_box`, over an allocator that is bound to serve the
    /// request.
    pub fn from_box(v: Box<T>, heap: &mut Heap<T, A>) -> (this: Self)
        requires
            old(heap).wf(),
            spec_inner_layout(Layout::spec_new::<T>()) is Some,
            old(heap).allocator().can_allocate(Self::fresh(*v).layout),
        ensures
            final(heap).wf(),
            final(heap).block_added(*old(heap), this.addr(), Self::fresh(*v), false),
            final(heap).holds_strong(this.addr()),
    {
        match Self::try_from_box(v, heap) {
            Ok(this) => this,
            Err(_) => vstd::pervasive::unreached(),
        }
    }
}

impl<T> Arc<T, Arena> {
    /// Like `new_uninit_in`, in a heap over an arena.
    pub fn new_uninit(heap: &mut Heap<T, Arena>) -> (this: Self)
        requires
            old(heap).wf(),
            spec_inner_layout(Layout::spec_new::<T>()) is Some,
            old(heap).allocator().can_allocate(Self::uninit().layout),
        ensures
            final(heap).wf(),
            final(heap).block_added(*old(heap), this.addr(), Self::uninit(), false),
    {
        Self::new_uninit_in(heap)
    }

    /// Like `new_zeroed_in`, in a heap over an arena.
    pub fn new_zeroed(heap: &mut Heap<T, Arena>) -> (this: Self)
        requires
            old(heap).wf(),
            spec_inner_layout(Layout::spec_new::<T>()) is Some,
            old(heap).allocator().can_allocate(Self::uninit().layout),
        ensures
            final(heap).wf(),
            final(heap).block_added(*old(heap), this.addr(), Self::uninit(), true),
    {
        Self::new_zeroed_in(heap)
    }
}

/// The layout of the block of a slice of `len` values of `T`, where it
/// exists.
pub open spec fn spec_slice_layout<T>(len: usize) -> Option<Layout> {
    match Layout::spec_array::<T>(len as int) {
        Some(value) => spec_inner_layout(value),
        None => None,
    }
}

impl<T, A: Allocator> Arc<Vec<T>, A> {
    /// The block that a shared slice of `len` elements starts with, before
    /// its elements are written.
    pub open spec fn uninit_slice(len: usize) -> ArcInner<Vec<T>> {
        ArcInner::spec_new(1, 1, None, Layout::spec_array::<T>(len as int)->Some_0)
    }

    /// The block of a shared slice that holds `elems`.
    pub open spec fn slice_of(elems: Vec<T>) -> ArcInner<Vec<T>> {
        ArcInner::spec_new(
            1,
            1,
            Some(elems),
            Layout::spec_array::<T>(elems@.len() as int)->Some_0,
        )
    }

    /// A block for a slice of `len` elements that are yet to be written.
    pub fn try_allocate_for_slice(len: usize, heap: &mut Heap<Vec<T>, A>) -> (r: Result<
        usize,
        TryReserveError,
    >)
        requires
            old(heap).wf(),
        ensures
            final(heap).wf(),
            match r {
                Ok(p) => final(heap).block_added(*old(heap), p, Self::uninit_slice(len), false),
                Err(e) => final(heap).declined(*old(heap), spec_slice_layout::<T>(len), e),
            },
    {
        let value_layout = match Layout::array::<T>(len) {
            Ok(layout) => layout,
            Err(_) => {
                return Err(TryReserveError::CapacityOverflow);
            },
        };
        Self::try_allocate_for_layout(value_layout, false, heap)
    }

    /// Like `try_allocate_for_slice`, over an allocator that is bound to
    /// serve the request.
    pub fn allocate_for_slice(len: usize, heap: &mut Heap<Vec<T>, A>) -> (p: usize)
        requires
            old(heap).wf(),
            spec_slice_layout::<T>(len) is Some,
            old(heap).allocator().can_allocate(Self::uninit_slice(len).layout),
        ensures
            final(heap).wf(),
            final(heap).block_added(*old(heap), p, Self::uninit_slice(len), false),
    {
        match Self::try_allocate_for_slice(len, heap) {
            Ok(p) => p,
            Err(_) => vstd::pervasive::unreached(),
        }
    }

    /// A shared slice of `len` elements that are yet to be written.
    pub fn try_new_uninit_slice_in(len: usize, heap: &mut Heap<Vec<T>, A>) -> (r: Result<
        Self,
        TryReserveError,
    >)
        requires
            old(heap).wf(),
        ensures
            final(heap).wf(),
            match r {
                Ok(this) => final(heap).block_added(
                    *old(heap),
                    this.addr(),
                    Self::uninit_slice(len),
                    false,
                ),
                Err(e) => final(heap).declined(*old(heap), spec_slice_layout::<T>(len), e),
            },
    {
        match Self::try_allocate_for_slice(len, heap) {
            Ok(p) => Ok(Self::from_inner(p)),
            Err(e) => Err(e),
        }
    }

    /// Like `try_new_uninit_slice_in`, over an allocator that is bound to
    /// serve the request.
    pub fn new_uninit_slice_in(len: usize, heap: &mut Heap<Vec<T>, A>) -> (this: Self)
        requires
            old(heap).wf(),
            spec_slice_layout::<T>(len) is Some,
            old(heap).allocator().can_allocate(Self::uninit_slice(len).layout),
        ensures
            final(heap).wf(),
            final(heap).block_added(*old(heap), this.addr(), Self::uninit_slice(len), false),
    {
        Self::from_inner(Self::allocate_for_slice(len, heap))
    }

    /// A shared slice of `len` elements that are yet to be written, in a
    /// block that is filled with zero bytes.
    pub fn try_new_zeroed_slice_in(len: usize, heap: &mut Heap<Vec<T>, A>) -> (r: Result<
        Self,
        TryReserveError,
    >)
        requires
            old(heap).wf(),
        ensures
            final(heap).wf(),
            match r {
                Ok(this) => final(heap).block_added(
                    *old(heap),
                    this.addr(),
                    Self::uninit_slice(len),
                    true,
                ),
                Err(e) => final(heap).declined(*old(heap), spec_slice_layout::<T>(len), e),
            },
    {
        let value_layout = match Layout::array::<T>(len) {
            Ok(layout) => layout,
            Err(_) => {
                return Err(TryReserveError::CapacityOverflow);
            },
        };
        match Self::try_allocate_for_layout(value_layout, true, heap) {
            Ok(p) => Ok(Self::from_inner(p)),
            Err(e) => Err(e),
        }
    }

    /// Like `try_new_zeroed_slice_in`, over an allocator that is bound to
    /// serve the request.
    pub fn new_zeroed_slice_in(len: usize, heap: &mut Heap<Vec<T>, A>) -> (this: Self)
        requires
            old(heap).wf(),
            spec_slice_layout::<T>(len) is Some,
            old(heap).allocator().can_allocate(Self::uninit_slice(len).layout),
        ensures
            final(heap).wf(),
            final(heap).block_added(*old(heap), this.addr(), Self::uninit_slice(len), true),
    {
        match Self::try_new_zeroed_slice_in(len, heap) {
            Ok(this) => this,
            Err(_) => vstd::pervasive::unreached(),
        }
    }

    /// A shared slice that takes over the `len` elements of `elems`, one by
    /// one and in their order. Where no block is to be had, the elements are
    /// given up.
    pub fn try_from_iter_exact(elems: Vec<T>, len: usize, heap: &mut Heap<Vec<T>, A>) -> (r:
        Result<Self, TryReserveError>)
        requires
            old(heap).wf(),
            elems@.len() == len,
        ensures
            final(heap).wf(),
            match r {
                Ok(this) => {
                    &&& final(heap)@.contains_key(this.addr())
                    &&& final(heap)@[this.addr()].data is Some
                    &&& final(heap)@[this.addr()].data->Some_0@ == elems@
                    &&& final(heap).block_added(
                        *old(heap),
                        this.addr(),
                        Self::slice_of(final(heap)@[this.addr()].data->Some_0),
                        false,
                    )
                },
                Err(e) => final(heap).declined(*old(heap), spec_slice_layout::<T>(len), e),
            },
    {
        let p = match Self::try_allocate_for_slice(len, heap) {
            Ok(p) => p,
            Err(e) => {
                return Err(e);
            },
        };
        let mut this = Self::from_inner(p);
        // The elements that are written so far.
        let mut written: Vec<T> = Vec::new();
        let ghost all = elems@;
        for item in it: elems
            invariant
                it.seq() == all,
                written@ == all.take(it.index() as int),
        {
            written.push(item);
            assert(written@ =~= all.take(it.index() + 1));
        }
        assert(written@ =~= all);
        Arc::write(&mut this, written, heap);
        assert(heap@ =~= old(heap)@.insert(p, Self::slice_of(written)));
        Ok(this)
    }

    /// Like `try_from_iter_exact`, over an allocator that is bound to serve
    /// the request.
    pub fn from_iter_exact(elems: Vec<T>, len: usize, heap: &mut Heap<Vec<T>, A>) -> (this: Self)
        requires
            old(heap).wf(),
            elems@.len() == len,
            spec_slice_layout::<T>(len) is Some,
            old(heap).allocator().can_allocate(Self::uninit_slice(len).layout),
        ensures
            final(heap).wf(),
            final(heap)@.contains_key(this.addr()),
            final(heap)@[this.addr()].data is Some,
            final(heap)@[this.addr()].data->Some_0@ == elems@,
            final(heap).block_added(
                *old(heap),
                this.addr(),
                Self::slice_of(final(heap)@[this.addr()].data->Some_0),
                false,
            ),
    {
        match Self::try_from_iter_exact(elems, len, heap) {
            Ok(this) => this,
            Err(_) => vstd::pervasive::unreached(),
        }
    }
}

impl<T: Copy, A: Allocator> Arc<Vec<T>, A> {
    /// A shared slice with a copy of the elements of `v`, made at one go.
    pub fn try_copy_from_slice(v: &[T], heap: &mut Heap<Vec<T>, A>) -> (r: Result<
        Self,
        TryReserveError,
    >)
        requires
            old(heap).wf(),
        ensures
            final(heap).wf(),
            match r {
                Ok(this) => {
                    &&& final(heap)@.contains_key(this.addr())
                    &&& final(heap)@[this.addr()].data is Some
                    &&& final(heap)@[this.addr()].data->Some_0@ == v@
                    &&& final(heap).block_added(
                        *old(heap),
                        this.addr(),
                        Self::slice_of(final(heap)@[this.addr()].data->Some_0),
                        false,
                    )
                },
                Err(e) => final(heap).declined(
                    *old(heap),
                    spec_slice_layout::<T>(v@.len() as usize),
                    e,
                ),
            },
    {
        let p = match Self::try_allocate_for_slice(v.len(), heap) {
            Ok(p) => p,
            Err(e) => {
                return Err(e);
            },
        };
        let mut this = Self::from_inner(p);
        let elems = vstd::slice::slice_to_vec(v);
        Arc::write(&mut this, elems, heap);
        assert(heap@ =~= old(heap)@.insert(p, Self::slice_of(elems)));
        Ok(this)
    }

    /// Like `try_copy_from_slice`, over an allocator that is bound to serve
    /// the request.
    pub fn copy_from_slice(v: &[T], heap: &mut Heap<Vec<T>, A>) -> (this: Self)
        requires
            old(heap).wf(),
            spec_slice_layout::<T>(v@.len() as usize) is Some,
            old(heap).allocator().can_allocate(Self::uninit_slice(v@.len() as usize).layout),
        ensures
            final(heap).wf(),
            final(heap)@.contains_key(this.addr()),
            final(heap)@[this.addr()].data is Some,
            final(heap)@[this.addr()].data->Some_0@ == v@,
            final(heap).block_added(
                *old(heap),
                this.addr(),
                Self::slice_of(final(heap)@[this.addr()].data->Some_0),
                false,
            ),
    {
        match Self::try_copy_from_slice(v, heap) {
            Ok(this) => this,
            Err(_) => vstd::pervasive::unreached(),
        }
    }
}

impl<T> Arc<Vec<T>, Arena> {
    /// Like `new_uninit_slice_in`, in a heap over an arena.
    pub fn new_uninit_slice(len: usize, heap: &mut Heap<Vec<T>, Arena>) -> (this: Self)
        requires
            old(heap).wf(),
            spec_slice_layout::<T>(len) is Some,
            old(heap).allocator().can_allocate(Self::uninit_slice(len).layout),
        ensures
            final(heap).wf(),
            final(heap).block_added(*old(heap), this.addr(), Self::uninit_slice(len), false),
    {
        Self::new_uninit_slice_in(len, heap)
    }

    /// Like `try_new_uninit_slice_in`, in a heap over an arena.
    pub fn try_new_uninit_slice(len: usize, heap: &mut Heap<Vec<T>, Arena>) -> (r: Result<
        Self,
        TryReserveError,
    >)
        requires
            old(heap).wf(),
        ensures
            final(heap).wf(),
            match r {
                Ok(this) => final(heap).block_added(
                    *old(heap),
                    this.addr(),
                    Self::uninit_slice(len),
                    false,
                ),
                Err(e) => final(heap).declined(*old(heap), spec_slice_layout::<T>(len), e),
            },
    {
        Self::try_new_uninit_slice_in(len, heap)
    }

    /// Like `new_zeroed_slice_in`, in a heap over an arena.
    pub fn new_zeroed_slice(len: usize, heap: &mut Heap<Vec<T>, Arena>) -> (this: Self)
        requires
            old(heap).wf(),
            spec_slice_layout::<T>(len) is Some,
            old(heap).allocator().can_allocate(Self::uninit_slice(len).layout),
        ensures
            final(heap).wf(),
            final(heap).block_added(*old(heap), this.addr(), Self::uninit_slice(len), true),
    {
        Self::new_zeroed_slice_in(len, heap)
    }
}

impl<T: Clone, A: Allocator> Arc<Vec<T>, A> {
    /// A shared slice with a clone of each element of `v`, made element by
    /// element.
    pub fn try_from_slice(v: &[T], heap: &mut Heap<Vec<T>, A>) -> (r: Result<Self, TryReserveError>)
        requires
            old(heap).wf(),
        ensures
            final(heap).wf(),
            match r {
                Ok(this) => {
                    &&& final(heap)@.contains_key(this.addr())
                    &&& final(heap)@[this.addr()].data is Some
                    &&& final(heap)@[this.addr()].data->Some_0@.len() == v@.len()
                    &&& forall|i: int|
                        0 <= i < v@.len() ==> vstd::pervasive::cloned(
                            v@[i],
                            #[trigger] final(heap)@[this.addr()].data->Some_0@[i],
                        )
                    &&& final(heap).block_added(
                        *old(heap),
                        this.addr(),
                        Self::slice_of(final(heap)@[this.addr()].data->Some_0),
                        false,
                    )
                },
                Err(e) => final(heap).declined(
                    *old(heap),
                    spec_slice_layout::<T>(v@.len() as usize),
                    e,
                ),
            },
    {
        let len = v.len();
        let mut elems: Vec<T> = Vec::new();
        let mut i: usize = 0;
        while i < len
            invariant
                i <= len,
                len == v@.len(),
                elems@.len() == i,
                forall|j: int| 0 <= j < i ==> vstd::pervasive::cloned(v@[j], #[trigger] elems@[j]),
            decreases len - i,
        {
            elems.push(v[i].clone());
            i = i + 1;
        }
        Self::try_from_iter_exact(elems, len, heap)
    }

    /// Like `try_from_slice`, over an allocator that is bound to serve the
    /// request.
    pub fn from_slice(v: &[T], heap: &mut Heap<Vec<T>, A>) -> (this: Self)
        requires
            old(heap).wf(),
            spec_slice_layout::<T>(v@.len() as usize) is Some,
            old(heap).allocator().can_allocate(Self::uninit_slice(v@.len() as usize).layout),
        ensures
            final(heap).wf(),
            final(heap)@.contains_key(this.addr()),
            final(heap)@[this.addr()].data is Some,
            final(heap)@[this.addr()].data->Some_0@.len() == v@.len(),
            forall|i: int|
                0 <= i < v@.len() ==> vstd::pervasive::cloned(
                    v@[i],
                    #[trigger] final(heap)@[this.addr()].data->Some_0@[i],
                ),
            final(heap).block_added(
                *old(heap),
                this.addr(),
                Self::slice_of(final(heap)@[this.addr()].data->Some_0),
                false,
            ),
    {
        match Self::try_from_slice(v, heap) {
            Ok(this) => this,
            Err(_) => vstd::pervasive::unreached(),
        }
    }
}

/// The layout of the block of a string of `len` bytes, where it exists.
pub open spec fn spec_str_layout(len: usize) -> Option<Layout> {
    spec_slice_layout::<u8>(len)
}

impl<A: Allocator> Arc<String, A> {
    /// The block that a shared string of `len` bytes starts with, before its
    /// text is written.
    pub open spec fn uninit_str(len: usize) -> ArcInner<String> {
        ArcInner::spec_new(1, 1, None, Layout::spec_array::<u8>(len as int)->Some_0)
    }

    /// The block of a shared string that holds `text`, which is `len` bytes
    /// long.
    pub open spec fn str_of(text: String, len: usize) -> ArcInner<String> {
        ArcInner::spec_new(1, 1, Some(text), Layout::spec_array::<u8>(len as int)->Some_0)
    }

    /// A block for a string of `len` bytes that is yet to be written.
    pub fn try_allocate_for_str(len: usize, heap: &mut Heap<String, A>) -> (r: Result<
        usize,
        TryReserveError,
    >)
        requires
            old(heap).wf(),
        ensures
            final(heap).wf(),
            match r {
                Ok(p) => final(heap).block_added(*old(heap), p, Self::uninit_str(len), false),
                Err(e) => final(heap).declined(*old(heap), spec_str_layout(len), e),
            },
    {
        let value_layout = match Layout::array::<u8>(len) {
            Ok(layout) => layout,
            Err(_) => {
                return Err(TryReserveError::CapacityOverflow);
            },
        };
        Self::try_allocate_for_layout(value_layout, false, heap)
    }

    /// Like `try_allocate_for_str`, over an allocator that is bound to serve
    /// the request.
    pub fn allocate_for_str(len: usize, heap: &mut Heap<String, A>) -> (p: usize)
        requires
            old(heap).wf(),
            spec_str_layout(len) is Some,
            old(heap).allocator().can_allocate(Self::uninit_str(len).layout),
        ensures
            final(heap).wf(),
            final(heap).block_added(*old(heap), p, Self::uninit_str(len), false),
    {
        match Self::try_allocate_for_str(len, heap) {
            Ok(p) => p,
            Err(_) => vstd::pervasive::unreached(),
        }
    }

    /// A shared string with a copy of the text of `v`.
    pub fn try_copy_from_str(v: &str, heap: &mut Heap<String, A>) -> (r: Result<
        Self,
        TryReserveError,
    >)
        requires
            old(heap).wf(),
        ensures
            final(heap).wf(),
            match r {
                Ok(this) => {
                    &&& final(heap)@.contains_key(this.addr())
                    &&& final(heap)@[this.addr()].data is Some
                    &&& final(heap)@[this.addr()].data->Some_0@ == v@
                    &&& final(heap).block_added(
                        *old(heap),
                        this.addr(),
                        Self::str_of(final(heap)@[this.addr()].data->Some_0, v.len()),
                        false,
                    )
                },
                Err(e) => final(heap).declined(*old(heap), spec_str_layout(v.len()), e),
            },
    {
        let p = match Self::try_allocate_for_str(v.len(), heap) {
            Ok(p) => p,
            Err(e) => {
                return Err(e);
            },
        };
        let mut this = Self::from_inner(p);
        let text = v.to_owned();
        Arc::write(&mut this, text, heap);
        assert(heap@ =~= old(heap)@.insert(p, Self::str_of(text, v.len())));
        Ok(this)
    }

    /// Like `try_copy_from_str`, over an allocator that is bound to serve
    /// the request.
    pub fn copy_from_str(v: &str, heap: &mut Heap<String, A>) -> (this: Self)
        requires
            old(heap).wf(),
            spec_str_layout(v.len()) is Some,
            old(heap).allocator().can_allocate(Self::uninit_str(v.len()).layout),
        ensures
            final(heap).wf(),
            final(heap)@.contains_key(this.addr()),
            final(heap)@[this.addr()].data is Some,
            final(heap)@[this.addr()].data->Some_0@ == v@,
            final(heap).block_added(
                *old(heap),
                this.addr(),
                Self::str_of(final(heap)@[this.addr()].data->Some_0, v.len()),
                false,
            ),
    {
        match Self::try_copy_from_str(v, heap) {
            Ok(this) => this,
            Err(_) => vstd::pervasive::unreached(),
        }
    }
}

} // verus!
