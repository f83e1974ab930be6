//! A growable buffer: one contiguous block sized for a number of elements,
//! with the capacity arithmetic that growing and shrinking it takes.

use vstd::prelude::*;
use vstd::layout::{align_of, size_of};
use core::marker::PhantomData;
use crate::allocator::{
    issued, issued_region, resized_region, AllocError, Allocator, Block, Region,
};
use crate::arena::{Arena, ARENA_BASE};
use crate::collections::TryReserveError;
use crate::layout::{alloc_guard, alloc_guard_limit, round_up, CapacityOverflow, Layout};

verus! {

/// The layout of a buffer of `capacity` values of `T`.
pub open spec fn buffer_layout<T>(capacity: int) -> Layout {
    Layout { size: (capacity * size_of::<T>()) as usize, align: align_of::<T>() as usize }
}

/// How a reservation picks the new capacity.
#[derive(Clone, Copy, Debug, PartialEq, Eq, Structural)]
pub enum ReserveStrategy {
    /// Exactly what is asked for.
    Exact,
    /// At least twice the present capacity.
    Amortized,
}

/// A buffer of `capacity` elements, `used` of them taken, has room for
/// `extra` more. The difference wraps around, so that a `used` above the
/// capacity counts as room.
pub open spec fn has_room(capacity: usize, used: usize, extra: usize) -> bool {
    (if capacity >= used {
        capacity - used
    } else {
        capacity - used + usize::MAX + 1
    }) >= extra
}

/// The capacity that an amortized reservation moves to: twice the present
/// one, or what is needed if that is more.
pub open spec fn amortized_capacity(stored: usize, used: usize, extra: usize) -> int {
    if 2 * stored >= used + extra {
        2 * stored
    } else {
        used + extra
    }
}

/// The capacity that a reservation moves to.
pub open spec fn reserve_target(
    strategy: ReserveStrategy,
    stored: usize,
    used: usize,
    extra: usize,
) -> int {
    match strategy {
        ReserveStrategy::Exact => used + extra,
        ReserveStrategy::Amortized => amortized_capacity(stored, used, extra),
    }
}

/// The capacity that doubling moves to: twice the present one, and from an
/// empty buffer four elements, or a single one that is larger than an eighth
/// of the address space.
pub open spec fn double_target<T>(stored: usize) -> int {
    if stored == 0 {
        if size_of::<T>() > usize::MAX / 8 {
            1
        } else {
            4
        }
    } else {
        2 * stored
    }
}

/// A buffer for elements of `T`, which it neither reads nor destroys.
///
/// The buffer owns at most one block of its allocator. It owns none while its
/// capacity is zero or `T` has no size; its address is then the alignment of
/// `T`, an aligned address that stands for no memory.
pub struct RawVec<T, A: Allocator = Arena> {
    ptr: usize,
    capacity: usize,
    alloc: A,
    _owned: PhantomData<T>,
}

impl<T, A: Allocator> RawVec<T, A> {
    /// The address of the buffer.
    pub closed spec fn addr(&self) -> usize {
        self.ptr
    }

    /// The capacity that the buffer records. For a `T` without size it is
    /// not the capacity that `capacity` reports.
    pub closed spec fn stored_capacity(&self) -> usize {
        self.capacity
    }

    /// The allocator that the buffer owns.
    pub closed spec fn allocator(&self) -> A {
        self.alloc
    }

    /// The address of a buffer that owns no block.
    pub open spec fn dangling() -> usize {
        align_of::<T>() as usize
    }

    /// The number of elements that the buffer has room for: without bound
    /// for a `T` without size.
    pub open spec fn spec_capacity(&self) -> usize {
        if size_of::<T>() == 0 {
            usize::MAX
        } else {
            self.stored_capacity()
        }
    }

    /// The layout of the block that the buffer owns, if it owns one.
    pub open spec fn spec_layout(&self) -> Option<Layout> {
        if size_of::<T>() == 0 || self.stored_capacity() == 0 {
            None
        } else {
            Some(buffer_layout::<T>(self.stored_capacity() as int))
        }
    }

    /// The buffer's block, if it owns one, is issued by its allocator with
    /// the layout of its capacity.
    pub open spec fn wf(&self) -> bool {
        &&& self.allocator().inv()
        &&& match self.spec_layout() {
            Some(layout) => {
                &&& self.stored_capacity() * size_of::<T>() <= isize::MAX
                &&& issued(self.allocator().live(), Block { addr: self.addr(), layout })
            },
            None => self.addr() == Self::dangling(),
        }
    }

    /// An empty buffer over the allocator `a`.
    pub fn new_in(a: A) -> (v: Self)
        requires
            a.inv(),
        ensures
            v.wf(),
            v.addr() == Self::dangling(),
            v.stored_capacity() == (if size_of::<T>() == 0 {
                usize::MAX
            } else {
                0
            }),
            v.spec_layout() is None,
            v.allocator() == a,
    {
        let elem = Layout::new::<T>();
        let capacity: usize = if elem.size == 0 {
            usize::MAX
        } else {
            0
        };
        RawVec { ptr: elem.align, capacity, alloc: a, _owned: PhantomData }
    }

    /// `self` is a buffer for `capacity` elements, made over the allocator
    /// `a`: where that takes memory, `a` has issued one more block, at the
    /// buffer's address, zero-filled if `zeroed`.
    pub open spec fn allocated_from(&self, a: A, capacity: usize, zeroed: bool) -> bool {
        &&& self.wf()
        &&& self.stored_capacity() == capacity
        &&& if capacity * size_of::<T>() == 0 {
            &&& self.allocator() == a
            &&& self.addr() == Self::dangling()
        } else {
            &&& !a.live().contains_key(self.addr())
            &&& self.allocator().live() == a.live().insert(
                self.addr(),
                issued_region(buffer_layout::<T>(capacity as int), zeroed),
            )
        }
    }

    /// A buffer for exactly `capacity` elements over the allocator `a`.
    ///
    /// The allocator is asked only where the buffer takes memory. It is given
    /// up where the call fails.
    pub fn try_with_capacity_in(capacity: usize, a: A) -> (r: Result<Self, TryReserveError>)
        requires
            a.inv(),
        ensures
            r == Err::<Self, _>(TryReserveError::CapacityOverflow) <==> capacity * size_of::<T>()
                > alloc_guard_limit(),
            match r {
                Ok(v) => v.allocated_from(a, capacity, false) && v.spec_capacity() >= capacity,
                Err(TryReserveError::CapacityOverflow) => true,
                Err(TryReserveError::AllocError { layout }) => {
                    &&& capacity * size_of::<T>() > 0
                    &&& layout == buffer_layout::<T>(capacity as int)
                    &&& !a.can_allocate(layout)
                },
            },
    {
        Self::allocate_in(capacity, false, a)
    }

    /// Like `try_with_capacity_in`, with a block that is filled with zero
    /// bytes.
    pub fn try_with_capacity_zeroed_in(capacity: usize, a: A) -> (r: Result<
        Self,
        TryReserveError,
    >)
        requires
            a.inv(),
        ensures
            r == Err::<Self, _>(TryReserveError::CapacityOverflow) <==> capacity * size_of::<T>()
                > alloc_guard_limit(),
            match r {
                Ok(v) => v.allocated_from(a, capacity, true) && v.spec_capacity() >= capacity,
                Err(TryReserveError::CapacityOverflow) => true,
                Err(TryReserveError::AllocError { layout }) => {
                    &&& capacity * size_of::<T>() > 0
                    &&& layout == buffer_layout::<T>(capacity as int)
                    &&& !a.can_allocate(layout)
                },
            },
    {
        Self::allocate_in(capacity, true, a)
    }

    /// A buffer for exactly `capacity` elements over an allocator that is
    /// bound to serve the request.
    pub fn with_capacity_in(capacity: usize, a: A) -> (v: Self)
        requires
            a.inv(),
            capacity * size_of::<T>() <= alloc_guard_limit(),
            capacity * size_of::<T>() > 0 ==> a.can_allocate(buffer_layout::<T>(capacity as int)),
        ensures
            v.allocated_from(a, capacity, false),
            v.spec_capacity() >= capacity,
    {
        match Self::try_with_capacity_in(capacity, a) {
            Ok(v) => v,
            Err(_) => vstd::pervasive::unreached(),
        }
    }

    /// Like `with_capacity_in`, with a block that is filled with zero bytes.
    pub fn with_capacity_zeroed_in(capacity: usize, a: A) -> (v: Self)
        requires
            a.inv(),
            capacity * size_of::<T>() <= alloc_guard_limit(),
            capacity * size_of::<T>() > 0 ==> a.can_allocate(buffer_layout::<T>(capacity as int)),
        ensures
            v.allocated_from(a, capacity, true),
            v.spec_capacity() >= capacity,
    {
        match Self::try_with_capacity_zeroed_in(capacity, a) {
            Ok(v) => v,
            Err(_) => vstd::pervasive::unreached(),
        }
    }

    fn allocate_in(capacity: usize, zeroed: bool, alloc: A) -> (r: Result<Self, TryReserveError>)
        requires
            alloc.inv(),
        ensures
            r == Err::<Self, _>(TryReserveError::CapacityOverflow) <==> capacity * size_of::<T>()
                > alloc_guard_limit(),
            match r {
                Ok(v) => v.allocated_from(alloc, capacity, zeroed),
                Err(TryReserveError::CapacityOverflow) => true,
                Err(TryReserveError::AllocError { layout }) => {
                    &&& capacity * size_of::<T>() > 0
                    &&& layout == buffer_layout::<T>(capacity as int)
                    &&& !alloc.can_allocate(layout)
                },
            },
    {
        let mut alloc = alloc;
        let elem = Layout::new::<T>();
        let alloc_size = match capacity.checked_mul(elem.size) {
            Some(size) => size,
            None => {
                return Err(TryReserveError::CapacityOverflow);
            },
        };
        match alloc_guard(alloc_size) {
            Ok(_) => {},
            Err(_) => {
                return Err(TryReserveError::CapacityOverflow);
            },
        }
        // A capacity of zero and a `T` without size take no memory alike.
        if alloc_size == 0 {
            assert(capacity == 0 || elem.size == 0) by (nonlinear_arith)
                requires
                    capacity * elem.size == 0,
            ;
            return Ok(RawVec { ptr: elem.align, capacity, alloc, _owned: PhantomData });
        }
        assert(capacity > 0 && elem.size > 0) by (nonlinear_arith)
            requires
                capacity * elem.size > 0,
        ;
        let layout = Layout::from_size_align_unchecked(alloc_size, elem.align);
        let result = if zeroed {
            alloc.allocate_zeroed(layout)
        } else {
            alloc.allocate(layout)
        };
        proof {
            alloc.lemma_inv_well_placed();
            if result is Ok {
                assert(alloc.live().contains_key(result->Ok_0.addr));
            }
        }
        Self::from_allocation(capacity, layout, result, alloc)
    }

    /// The buffer's block, if it owns one.
    pub open spec fn spec_block(&self) -> Option<Block> {
        match self.spec_layout() {
            Some(layout) => Some(Block { addr: self.addr(), layout }),
            None => None,
        }
    }

    /// The allocator is bound to serve the move of the buffer to a block
    /// for `capacity` elements.
    pub open spec fn promises(&self, capacity: int) -> bool {
        match self.spec_block() {
            Some(block) => self.allocator().can_reallocate(
                block,
                (capacity * size_of::<T>()) as usize,
            ),
            None => self.allocator().can_allocate(buffer_layout::<T>(capacity)),
        }
    }

    /// The allocator is bound to extend the buffer's block where it lies to
    /// hold `capacity` elements.
    pub open spec fn promises_in_place(&self, capacity: int) -> bool {
        match self.spec_block() {
            Some(block) => self.allocator().can_grow_in_place(
                block,
                (capacity * size_of::<T>()) as usize,
            ),
            None => false,
        }
    }

    /// `self` is `old` after its buffer was moved to a block for `capacity`
    /// elements: the allocator has traded the old block, if there was one,
    /// for the new one.
    pub open spec fn grown_from(&self, old: Self, capacity: int) -> bool {
        let layout = buffer_layout::<T>(capacity);
        &&& self.wf()
        &&& self.stored_capacity() == capacity
        &&& self.spec_layout() == Some(layout)
        &&& match old.spec_block() {
            Some(block) => {
                &&& self.addr() == block.addr || !old.allocator().live().contains_key(self.addr())
                &&& self.allocator().live() == old.allocator().live().remove(block.addr).insert(
                    self.addr(),
                    resized_region(old.allocator().live()[block.addr], layout.size),
                )
            },
            None => {
                &&& !old.allocator().live().contains_key(self.addr())
                &&& self.allocator().live() == old.allocator().live().insert(
                    self.addr(),
                    issued_region(layout, false),
                )
            },
        }
    }

    /// `self` is `old` after its block was extended where it lies to hold
    /// `capacity` elements.
    pub open spec fn grown_in_place_from(&self, old: Self, capacity: int) -> bool {
        &&& self.wf()
        &&& self.stored_capacity() == capacity
        &&& self.addr() == old.addr()
        &&& self.allocator().live() == old.allocator().live().insert(
            self.addr(),
            resized_region(
                old.allocator().live()[old.addr()],
                buffer_layout::<T>(capacity).size,
            ),
        )
    }

    /// `self` is `old` after its block, if it had one, was released.
    pub open spec fn released_from(&self, old: Self) -> bool {
        &&& self.allocator().inv()
        &&& self.allocator().live() == match old.spec_block() {
            Some(block) => old.allocator().live().remove(block.addr),
            None => old.allocator().live(),
        }
    }

    /// A buffer of `capacity` elements in the block that the allocator
    /// issued for it, or the report that it declined a block of `layout`.
    pub fn from_allocation(
        capacity: usize,
        layout: Layout,
        issued: Result<Block, AllocError>,
        alloc: A,
    ) -> (r: Result<Self, TryReserveError>)
        ensures
            match issued {
                Ok(block) => {
                    &&& r is Ok
                    &&& r->Ok_0.addr() == block.addr
                    &&& r->Ok_0.stored_capacity() == capacity
                    &&& r->Ok_0.allocator() == alloc
                },
                Err(_) => r == Err::<Self, _>(TryReserveError::AllocError { layout }),
            },
    {
        match issued {
            Ok(block) => Ok(RawVec { ptr: block.addr, capacity, alloc, _owned: PhantomData }),
            Err(_) => Err(TryReserveError::AllocError { layout }),
        }
    }

    /// Takes up the block that the allocator moved the buffer to, as one
    /// for `new_cap` elements, or reports that it declined a block of
    /// `new_layout` and leaves the buffer as it is.
    pub fn finish_grow(
        &mut self,
        new_cap: usize,
        new_layout: Layout,
        moved: Result<Block, AllocError>,
    ) -> (r: Result<(), TryReserveError>)
        ensures
            final(self).allocator() == old(self).allocator(),
            match moved {
                Ok(block) => {
                    &&& r is Ok
                    &&& final(self).addr() == block.addr
                    &&& final(self).stored_capacity() == new_cap
                },
                Err(_) => {
                    &&& r == Err::<(), _>(TryReserveError::AllocError { layout: new_layout })
                    &&& *final(self) == *old(self)
                },
            },
    {
        match moved {
            Ok(block) => {
                self.ptr = block.addr;
                self.capacity = new_cap;
                Ok(())
            },
            Err(_) => Err(TryReserveError::AllocError { layout: new_layout }),
        }
    }

    /// Takes up the room for `new_cap` elements where the allocator has
    /// extended the block, and leaves the buffer as it is where it has not.
    pub fn finish_grow_in_place(&mut self, new_cap: usize, grown: bool) -> (r: bool)
        ensures
            r == grown,
            final(self).addr() == old(self).addr(),
            final(self).allocator() == old(self).allocator(),
            final(self).stored_capacity() == (if grown {
                new_cap
            } else {
                old(self).stored_capacity()
            }),
    {
        if grown {
            self.capacity = new_cap;
        }
        grown
    }

    /// A buffer from its parts. It is well formed where `ptr` is the address
    /// of a block that `build_alloc` has issued for `capacity` elements, or
    /// the buffer takes no memory and `ptr` is the alignment of `T`.
    pub fn from_raw_parts_in(ptr: usize, capacity: usize, build_alloc: A) -> (v: Self)
        ensures
            v.addr() == ptr,
            v.stored_capacity() == capacity,
            v.allocator() == build_alloc,
    {
        RawVec { ptr, capacity, alloc: build_alloc, _owned: PhantomData }
    }

    /// The layout of the block that the buffer owns, if it owns one.
    pub fn current_layout(&self) -> (r: Option<Layout>)
        requires
            self.wf(),
        ensures
            r == self.spec_layout(),
    {
        let elem = Layout::new::<T>();
        if elem.size == 0 || self.capacity == 0 {
            None
        } else {
            assert(self.capacity * elem.size <= isize::MAX);
            Some(Layout { size: self.capacity * elem.size, align: elem.align })
        }
    }

    /// The buffer's allocator, for change, and the layout of the block that
    /// the buffer owns, if it owns one.
    pub fn alloc_ref(&mut self) -> (r: (&mut A, Option<Layout>))
        requires
            old(self).wf(),
        ensures
            *r.0 == old(self).allocator(),
            r.1 == old(self).spec_layout(),
            final(self).allocator() == *final(r.0),
            final(self).addr() == old(self).addr(),
            final(self).stored_capacity() == old(self).stored_capacity(),
    {
        let layout = self.current_layout();
        (&mut self.alloc, layout)
    }

    /// The capacity that an amortized reservation moves to.
    fn amortized_new_size(&self, used_capacity: usize, needed_extra_capacity: usize) -> (r: Result<
        usize,
        CapacityOverflow,
    >)
        requires
            used_capacity + needed_extra_capacity <= usize::MAX ==> 2 * self.stored_capacity()
                <= usize::MAX,
        ensures
            r is Err <==> used_capacity + needed_extra_capacity > usize::MAX,
            r is Ok ==> r->Ok_0 == amortized_capacity(
                self.stored_capacity(),
                used_capacity,
                needed_extra_capacity,
            ),
    {
        let required_cap = match used_capacity.checked_add(needed_extra_capacity) {
            Some(cap) => cap,
            None => {
                return Err(CapacityOverflow);
            },
        };
        let double_cap = self.capacity * 2;
        if double_cap >= required_cap {
            Ok(double_cap)
        } else {
            Ok(required_cap)
        }
    }

    /// Moves the buffer to a block with room for `used_capacity +
    /// needed_extra_capacity` elements, unless it has that room already.
    fn reserve_internal(
        &mut self,
        used_capacity: usize,
        needed_extra_capacity: usize,
        strategy: ReserveStrategy,
    ) -> (r: Result<(), TryReserveError>)
        requires
            old(self).wf(),
        ensures
            final(self).wf(),
            r is Ok ==> has_room(final(self).spec_capacity(), used_capacity, needed_extra_capacity),
            has_room(old(self).spec_capacity(), used_capacity, needed_extra_capacity) ==> r is Ok
                && *final(self) == *old(self),
            r == Err::<(), _>(TryReserveError::CapacityOverflow) <==> {
                &&& !has_room(old(self).spec_capacity(), used_capacity, needed_extra_capacity)
                &&& (used_capacity + needed_extra_capacity > usize::MAX || reserve_target(
                    strategy,
                    old(self).stored_capacity(),
                    used_capacity,
                    needed_extra_capacity,
                ) * size_of::<T>() > isize::MAX)
            },
            !has_room(old(self).spec_capacity(), used_capacity, needed_extra_capacity) ==> ({
                let target = reserve_target(
                    strategy,
                    old(self).stored_capacity(),
                    used_capacity,
                    needed_extra_capacity,
                );
                match r {
                    Ok(_) => final(self).grown_from(*old(self), target),
                    Err(TryReserveError::CapacityOverflow) => *final(self) == *old(self),
                    Err(TryReserveError::AllocError { layout }) => {
                        &&& *final(self) == *old(self)
                        &&& layout == buffer_layout::<T>(target)
                        &&& !old(self).promises(target)
                    },
                }
            }),
    {
        // Wrapping, in case the caller gave a `used_capacity` above the
        // capacity.
        if self.capacity().wrapping_sub(used_capacity) >= needed_extra_capacity {
            return Ok(());
        }
        let elem = Layout::new::<T>();
        let new_cap = match strategy {
            ReserveStrategy::Exact => match used_capacity.checked_add(needed_extra_capacity) {
                Some(cap) => cap,
                None => {
                    return Err(TryReserveError::CapacityOverflow);
                },
            },
            ReserveStrategy::Amortized => {
                proof {
                    if elem.size > 0 && self.capacity > 0 {
                        assert(self.capacity <= isize::MAX) by (nonlinear_arith)
                            requires
                                self.capacity * elem.size <= isize::MAX,
                                elem.size > 0,
                        ;
                    }
                }
                match self.amortized_new_size(used_capacity, needed_extra_capacity) {
                    Ok(cap) => cap,
                    Err(_) => {
                        return Err(TryReserveError::CapacityOverflow);
                    },
                }
            },
        };
        let new_layout = match Layout::array::<T>(new_cap) {
            Ok(layout) => layout,
            Err(_) => {
                return Err(TryReserveError::CapacityOverflow);
            },
        };
        match alloc_guard(new_layout.size()) {
            Ok(_) => {},
            Err(_) => {
                return Err(TryReserveError::CapacityOverflow);
            },
        }
        assert(new_cap > 0 && elem.size > 0 && new_layout.size > 0) by (nonlinear_arith)
            requires
                new_cap >= used_capacity + needed_extra_capacity,
                needed_extra_capacity > 0,
                elem.size > 0,
                new_layout.size == new_cap * elem.size,
        ;
        let result = match self.current_layout() {
            Some(layout) => self.alloc.reallocate(
                Block { addr: self.ptr, layout },
                new_layout.size(),
            ),
            None => self.alloc.allocate(new_layout),
        };
        proof {
            self.alloc.lemma_inv_well_placed();
            if result is Ok {
                assert(self.alloc.live().contains_key(result->Ok_0.addr));
            }
        }
        self.finish_grow(new_cap, new_layout, result)
    }

    /// Makes room for `needed_extra_capacity` elements beyond the
    /// `used_capacity` that are taken, with headroom: unless the buffer has
    /// that room already, it moves to twice its capacity, or to what is
    /// needed if that is more.
    pub fn try_reserve(&mut self, used_capacity: usize, needed_extra_capacity: usize) -> (r: Result<
        (),
        TryReserveError,
    >)
        requires
            old(self).wf(),
        ensures
            final(self).wf(),
            r is Ok ==> has_room(final(self).spec_capacity(), used_capacity, needed_extra_capacity),
            has_room(old(self).spec_capacity(), used_capacity, needed_extra_capacity) ==> r is Ok
                && *final(self) == *old(self),
            r == Err::<(), _>(TryReserveError::CapacityOverflow) <==> {
                &&& !has_room(old(self).spec_capacity(), used_capacity, needed_extra_capacity)
                &&& (used_capacity + needed_extra_capacity > usize::MAX || amortized_capacity(
                    old(self).stored_capacity(),
                    used_capacity,
                    needed_extra_capacity,
                ) * size_of::<T>() > isize::MAX)
            },
            !has_room(old(self).spec_capacity(), used_capacity, needed_extra_capacity) ==> ({
                let target = amortized_capacity(
                    old(self).stored_capacity(),
                    used_capacity,
                    needed_extra_capacity,
                );
                match r {
                    Ok(_) => final(self).grown_from(*old(self), target),
                    Err(TryReserveError::CapacityOverflow) => *final(self) == *old(self),
                    Err(TryReserveError::AllocError { layout }) => {
                        &&& *final(self) == *old(self)
                        &&& layout == buffer_layout::<T>(target)
                        &&& !old(self).promises(target)
                    },
                }
            }),
    {
        self.reserve_internal(used_capacity, needed_extra_capacity, ReserveStrategy::Amortized)
    }

    /// Makes room for `needed_extra_capacity` elements beyond the
    /// `used_capacity` that are taken, without headroom: unless the buffer
    /// has that room already, it moves to exactly what is needed.
    pub fn try_reserve_exact(
        &mut self,
        used_capacity: usize,
        needed_extra_capacity: usize,
    ) -> (r: Result<(), TryReserveError>)
        requires
            old(self).wf(),
        ensures
            final(self).wf(),
            r is Ok ==> has_room(final(self).spec_capacity(), used_capacity, needed_extra_capacity),
            has_room(old(self).spec_capacity(), used_capacity, needed_extra_capacity) ==> r is Ok
                && *final(self) == *old(self),
            r == Err::<(), _>(TryReserveError::CapacityOverflow) <==> {
                &&& !has_room(old(self).spec_capacity(), used_capacity, needed_extra_capacity)
                &&& (used_capacity + needed_extra_capacity > usize::MAX || (used_capacity
                    + needed_extra_capacity) * size_of::<T>() > isize::MAX)
            },
            !has_room(old(self).spec_capacity(), used_capacity, needed_extra_capacity) ==> ({
                let target = used_capacity + needed_extra_capacity;
                match r {
                    Ok(_) => final(self).grown_from(*old(self), target),
                    Err(TryReserveError::CapacityOverflow) => *final(self) == *old(self),
                    Err(TryReserveError::AllocError { layout }) => {
                        &&& *final(self) == *old(self)
                        &&& layout == buffer_layout::<T>(target)
                        &&& !old(self).promises(target)
                    },
                }
            }),
    {
        self.reserve_internal(used_capacity, needed_extra_capacity, ReserveStrategy::Exact)
    }

    /// Like `try_reserve`, for a call that cannot fail: the new capacity is
    /// in range and the allocator is bound to serve the move.
    pub fn reserve(&mut self, used_capacity: usize, needed_extra_capacity: usize)
        requires
            old(self).wf(),
            !has_room(old(self).spec_capacity(), used_capacity, needed_extra_capacity) ==> {
                &&& used_capacity + needed_extra_capacity <= usize::MAX
                &&& amortized_capacity(
                    old(self).stored_capacity(),
                    used_capacity,
                    needed_extra_capacity,
                ) * size_of::<T>() <= isize::MAX
                &&& old(self).promises(
                    amortized_capacity(
                        old(self).stored_capacity(),
                        used_capacity,
                        needed_extra_capacity,
                    ),
                )
            },
        ensures
            final(self).wf(),
            has_room(final(self).spec_capacity(), used_capacity, needed_extra_capacity),
            if has_room(old(self).spec_capacity(), used_capacity, needed_extra_capacity) {
                *final(self) == *old(self)
            } else {
                final(self).grown_from(
                    *old(self),
                    amortized_capacity(
                        old(self).stored_capacity(),
                        used_capacity,
                        needed_extra_capacity,
                    ),
                )
            },
    {
        match self.try_reserve(used_capacity, needed_extra_capacity) {
            Ok(_) => {},
            Err(_) => vstd::pervasive::unreached(),
        }
    }

    /// Like `try_reserve_exact`, for a call that cannot fail: the new
    /// capacity is in range and the allocator is bound to serve the move.
    pub fn reserve_exact(&mut self, used_capacity: usize, needed_extra_capacity: usize)
        requires
            old(self).wf(),
            !has_room(old(self).spec_capacity(), used_capacity, needed_extra_capacity) ==> {
                &&& used_capacity + needed_extra_capacity <= usize::MAX
                &&& (used_capacity + needed_extra_capacity) * size_of::<T>() <= isize::MAX
                &&& old(self).promises(used_capacity + needed_extra_capacity)
            },
        ensures
            final(self).wf(),
            has_room(final(self).spec_capacity(), used_capacity, needed_extra_capacity),
            if has_room(old(self).spec_capacity(), used_capacity, needed_extra_capacity) {
                *final(self) == *old(self)
            } else {
                final(self).grown_from(*old(self), used_capacity + needed_extra_capacity)
            },
    {
        match self.try_reserve_exact(used_capacity, needed_extra_capacity) {
            Ok(_) => {},
            Err(_) => vstd::pervasive::unreached(),
        }
    }

    /// Doubles the buffer: an empty one moves to its first few elements, any
    /// other to twice its capacity. A buffer of elements without size cannot
    /// be doubled, as it is never full.
    pub fn try_double(&mut self) -> (r: Result<(), TryReserveError>)
        requires
            old(self).wf(),
        ensures
            final(self).wf(),
            r == Err::<(), _>(TryReserveError::CapacityOverflow) <==> {
                ||| size_of::<T>() == 0
                ||| old(self).stored_capacity() > 0 && 2 * old(self).stored_capacity()
                    * size_of::<T>() > alloc_guard_limit()
            },
            match r {
                Ok(_) => final(self).grown_from(
                    *old(self),
                    double_target::<T>(old(self).stored_capacity()),
                ),
                Err(TryReserveError::CapacityOverflow) => *final(self) == *old(self),
                Err(TryReserveError::AllocError { layout }) => {
                    &&& *final(self) == *old(self)
                    &&& layout == buffer_layout::<T>(
                        double_target::<T>(old(self).stored_capacity()),
                    )
                    &&& !old(self).promises(double_target::<T>(old(self).stored_capacity()))
                },
            },
    {
        let elem = Layout::new::<T>();
        // A buffer of elements without size has every capacity there is.
        if elem.size == 0 {
            return Err(TryReserveError::CapacityOverflow);
        }
        let (new_cap, new_layout, result) = match self.current_layout() {
            Some(layout) => {
                assert(2 * self.capacity * elem.size <= usize::MAX) by (nonlinear_arith)
                    requires
                        self.capacity * elem.size <= isize::MAX,
                        isize::MAX * 2 < usize::MAX,
                ;
                assert(2 * self.capacity <= 2 * self.capacity * elem.size) by (nonlinear_arith)
                    requires
                        elem.size >= 1,
                ;
                let new_cap = 2 * self.capacity;
                let new_size = new_cap * elem.size;
                match alloc_guard(new_size) {
                    Ok(_) => {},
                    Err(_) => {
                        return Err(TryReserveError::CapacityOverflow);
                    },
                }
                let new_layout = Layout::from_size_align_unchecked(new_size, layout.align());
                (new_cap, new_layout, self.alloc.reallocate(Block { addr: self.ptr, layout }, new_size))
            },
            None => {
                // Skip to four elements, unless they would not fit.
                let new_cap: usize = if elem.size > usize::MAX / 8 {
                    1
                } else {
                    4
                };
                assert(new_cap * elem.size <= isize::MAX) by (nonlinear_arith)
                    requires
                        elem.size <= isize::MAX,
                        new_cap == 1 || (new_cap == 4 && elem.size <= usize::MAX / 8),
                        usize::MAX == 2 * isize::MAX + 1,
                ;
                let new_layout = Layout::from_size_align_unchecked(new_cap * elem.size, elem.align);
                (new_cap, new_layout, self.alloc.allocate(new_layout))
            },
        };
        proof {
            self.alloc.lemma_inv_well_placed();
            if result is Ok {
                assert(self.alloc.live().contains_key(result->Ok_0.addr));
            }
        }
        self.finish_grow(new_cap, new_layout, result)
    }

    /// Like `try_double`, for a call that cannot fail: the element has a
    /// size, the new capacity is in range and the allocator is bound to serve
    /// the move.
    pub fn double(&mut self)
        requires
            old(self).wf(),
            size_of::<T>() > 0,
            2 * old(self).stored_capacity() * size_of::<T>() <= alloc_guard_limit(),
            old(self).promises(double_target::<T>(old(self).stored_capacity())),
        ensures
            final(self).grown_from(*old(self), double_target::<T>(old(self).stored_capacity())),
    {
        match self.try_double() {
            Ok(_) => {},
            Err(_) => vstd::pervasive::unreached(),
        }
    }

    /// Tries to double the buffer where it lies, and says whether the
    /// allocator did. A buffer without a block has nothing to double.
    pub fn try_double_in_place(&mut self) -> (r: Result<bool, CapacityOverflow>)
        requires
            old(self).wf(),
        ensures
            final(self).wf(),
            r is Err <==> {
                ||| size_of::<T>() == 0
                ||| old(self).stored_capacity() > 0 && 2 * old(self).stored_capacity()
                    * size_of::<T>() > alloc_guard_limit()
            },
            size_of::<T>() > 0 && old(self).stored_capacity() == 0 ==> r == Ok::<
                _,
                CapacityOverflow,
            >(false),
            r is Ok && old(self).promises_in_place(2 * old(self).stored_capacity()) ==> r == Ok::<
                _,
                CapacityOverflow,
            >(true),
            match r {
                Ok(true) => final(self).grown_in_place_from(
                    *old(self),
                    2 * old(self).stored_capacity(),
                ),
                _ => *final(self) == *old(self),
            },
    {
        let elem = Layout::new::<T>();
        if elem.size == 0 {
            return Err(CapacityOverflow);
        }
        let old_layout = match self.current_layout() {
            Some(layout) => layout,
            None => {
                return Ok(false);
            },
        };
        assert(2 * self.capacity * elem.size <= usize::MAX) by (nonlinear_arith)
            requires
                self.capacity * elem.size <= isize::MAX,
                isize::MAX * 2 < usize::MAX,
        ;
        assert(2 * self.capacity <= 2 * self.capacity * elem.size) by (nonlinear_arith)
            requires
                elem.size >= 1,
        ;
        let new_cap = 2 * self.capacity;
        let new_size = new_cap * elem.size;
        match alloc_guard(new_size) {
            Ok(_) => {},
            Err(_) => {
                return Err(CapacityOverflow);
            },
        }
        assert(new_size >= old_layout.size) by (nonlinear_arith)
            requires
                new_size == 2 * self.capacity * elem.size,
                old_layout.size == self.capacity * elem.size,
        ;
        let grown = self.alloc.grow_in_place(Block { addr: self.ptr, layout: old_layout }, new_size);
        proof {
            self.alloc.lemma_inv_well_placed();
            if grown {
                assert(self.alloc.live().contains_key(self.ptr));
            }
        }
        Ok(self.finish_grow_in_place(new_cap, grown))
    }

    /// Like `try_double_in_place`, for a call that cannot fail.
    pub fn double_in_place(&mut self) -> (grown: bool)
        requires
            old(self).wf(),
            size_of::<T>() > 0,
            2 * old(self).stored_capacity() * size_of::<T>() <= alloc_guard_limit(),
        ensures
            final(self).wf(),
            old(self).stored_capacity() == 0 ==> !grown,
            old(self).promises_in_place(2 * old(self).stored_capacity()) ==> grown,
            if grown {
                final(self).grown_in_place_from(*old(self), 2 * old(self).stored_capacity())
            } else {
                *final(self) == *old(self)
            },
    {
        match self.try_double_in_place() {
            Ok(grown) => grown,
            Err(_) => vstd::pervasive::unreached(),
        }
    }

    /// Tries to make room as `try_reserve` does, but only by extending the
    /// block where it lies, and says whether the allocator did. That the
    /// block cannot be extended is no failure.
    pub fn try_reserve_in_place(
        &mut self,
        used_capacity: usize,
        needed_extra_capacity: usize,
    ) -> (r: Result<bool, CapacityOverflow>)
        requires
            old(self).wf(),
        ensures
            final(self).wf(),
            r is Err <==> {
                &&& !has_room(old(self).spec_capacity(), used_capacity, needed_extra_capacity)
                &&& old(self).spec_layout() is Some
                &&& (used_capacity + needed_extra_capacity > usize::MAX || amortized_capacity(
                    old(self).stored_capacity(),
                    used_capacity,
                    needed_extra_capacity,
                ) * size_of::<T>() > alloc_guard_limit())
            },
            has_room(old(self).spec_capacity(), used_capacity, needed_extra_capacity) || old(
                self,
            ).spec_layout() is None ==> r == Ok::<_, CapacityOverflow>(false),
            r is Ok && !has_room(old(self).spec_capacity(), used_capacity, needed_extra_capacity)
                && old(self).promises_in_place(
                amortized_capacity(
                    old(self).stored_capacity(),
                    used_capacity,
                    needed_extra_capacity,
                ),
            ) ==> r == Ok::<_, CapacityOverflow>(true),
            match r {
                Ok(true) => final(self).grown_in_place_from(
                    *old(self),
                    amortized_capacity(
                        old(self).stored_capacity(),
                        used_capacity,
                        needed_extra_capacity,
                    ),
                ),
                _ => *final(self) == *old(self),
            },
    {
        // A buffer of elements without size falls through to the buffer
        // without a block: it has nothing to extend.
        if self.capacity().wrapping_sub(used_capacity) >= needed_extra_capacity {
            return Ok(false);
        }
        let old_layout = match self.current_layout() {
            Some(layout) => layout,
            None => {
                return Ok(false);
            },
        };
        let elem = Layout::new::<T>();
        assert(self.capacity <= isize::MAX) by (nonlinear_arith)
            requires
                self.capacity * elem.size <= isize::MAX,
                elem.size > 0,
        ;
        let new_cap = match self.amortized_new_size(used_capacity, needed_extra_capacity) {
            Ok(cap) => cap,
            Err(e) => {
                return Err(e);
            },
        };
        let new_size = match new_cap.checked_mul(elem.size) {
            Some(size) => size,
            None => {
                return Err(CapacityOverflow);
            },
        };
        match alloc_guard(new_size) {
            Ok(_) => {},
            Err(e) => {
                return Err(e);
            },
        }
        assert(new_size >= old_layout.size) by (nonlinear_arith)
            requires
                new_size == new_cap * elem.size,
                old_layout.size == self.capacity * elem.size,
                new_cap >= 2 * self.capacity,
        ;
        let grown = self.alloc.grow_in_place(Block { addr: self.ptr, layout: old_layout }, new_size);
        proof {
            self.alloc.lemma_inv_well_placed();
            if grown {
                assert(self.alloc.live().contains_key(self.ptr));
            }
        }
        Ok(self.finish_grow_in_place(new_cap, grown))
    }

    /// Like `try_reserve_in_place`, for a call that cannot fail.
    pub fn reserve_in_place(&mut self, used_capacity: usize, needed_extra_capacity: usize) -> (grown:
        bool)
        requires
            old(self).wf(),
            !has_room(old(self).spec_capacity(), used_capacity, needed_extra_capacity) && old(
                self,
            ).spec_layout() is Some ==> {
                &&& used_capacity + needed_extra_capacity <= usize::MAX
                &&& amortized_capacity(
                    old(self).stored_capacity(),
                    used_capacity,
                    needed_extra_capacity,
                ) * size_of::<T>() <= alloc_guard_limit()
            },
        ensures
            final(self).wf(),
            has_room(old(self).spec_capacity(), used_capacity, needed_extra_capacity) || old(
                self,
            ).spec_layout() is None ==> !grown,
            !has_room(old(self).spec_capacity(), used_capacity, needed_extra_capacity) && old(
                self,
            ).promises_in_place(
                amortized_capacity(
                    old(self).stored_capacity(),
                    used_capacity,
                    needed_extra_capacity,
                ),
            ) ==> grown,
            if grown {
                final(self).grown_in_place_from(
                    *old(self),
                    amortized_capacity(
                        old(self).stored_capacity(),
                        used_capacity,
                        needed_extra_capacity,
                    ),
                )
            } else {
                *final(self) == *old(self)
            },
    {
        match self.try_reserve_in_place(used_capacity, needed_extra_capacity) {
            Ok(grown) => grown,
            Err(_) => vstd::pervasive::unreached(),
        }
    }

    /// Shrinks the buffer to exactly `amount` elements. With an `amount` of
    /// zero the block is released and the buffer is empty again. For
    /// elements without size only the recorded capacity changes.
    pub fn try_shrink_to_fit(&mut self, amount: usize) -> (r: Result<(), TryReserveError>)
        requires
            old(self).wf(),
        ensures
            final(self).wf(),
            r == Err::<(), _>(TryReserveError::CapacityOverflow) <==> size_of::<T>() > 0 && old(
                self,
            ).stored_capacity() < amount,
            r is Ok && amount == 0 ==> {
                &&& final(self).spec_layout() is None
                &&& final(self).spec_capacity() == (if size_of::<T>() == 0 {
                    usize::MAX
                } else {
                    0
                })
            },
            match r {
                Ok(_) => {
                    if size_of::<T>() == 0 {
                        &&& final(self).stored_capacity() == amount
                        &&& final(self).addr() == old(self).addr()
                        &&& final(self).allocator() == old(self).allocator()
                    } else if amount == 0 {
                        &&& final(self).stored_capacity() == 0
                        &&& final(self).addr() == Self::dangling()
                        &&& final(self).released_from(*old(self))
                    } else if amount == old(self).stored_capacity() {
                        *final(self) == *old(self)
                    } else {
                        final(self).grown_from(*old(self), amount as int)
                    }
                },
                Err(TryReserveError::CapacityOverflow) => *final(self) == *old(self),
                Err(TryReserveError::AllocError { layout }) => {
                    &&& size_of::<T>() > 0
                    &&& 0 < amount < old(self).stored_capacity()
                    &&& *final(self) == *old(self)
                    &&& layout == buffer_layout::<T>(amount as int)
                    &&& !old(self).promises(amount as int)
                },
            },
    {
        let elem = Layout::new::<T>();
        // Set the capacity, in case the buffer is about to become a
        // fixed-size block.
        if elem.size == 0 {
            self.capacity = amount;
            return Ok(());
        }
        if self.capacity < amount {
            return Err(TryReserveError::CapacityOverflow);
        }
        if amount == 0 {
            self.dealloc_buffer();
            self.ptr = elem.align;
            self.capacity = 0;
        } else if self.capacity != amount {
            assert(amount * elem.size <= self.capacity * elem.size) by (nonlinear_arith)
                requires
                    amount <= self.capacity,
            ;
            assert(amount * elem.size > 0) by (nonlinear_arith)
                requires
                    amount > 0,
                    elem.size > 0,
            ;
            let old_size = elem.size * self.capacity;
            let new_size = elem.size * amount;
            let old_layout = Layout::from_size_align_unchecked(old_size, elem.align);
            let new_layout = Layout::from_size_align_unchecked(new_size, elem.align);
            assert(elem.size * self.capacity == self.capacity * elem.size) by (nonlinear_arith);
            assert(elem.size * amount == amount * elem.size) by (nonlinear_arith);
            let moved = self.alloc.reallocate(Block { addr: self.ptr, layout: old_layout }, new_size);
            proof {
                self.alloc.lemma_inv_well_placed();
                if moved is Ok {
                    assert(self.alloc.live().contains_key(moved->Ok_0.addr));
                }
            }
            return self.finish_grow(amount, new_layout, moved);
        }
        Ok(())
    }

    /// Like `try_shrink_to_fit`, for a call that cannot fail: `amount` is
    /// no more than the capacity and the allocator is bound to serve the
    /// move.
    pub fn shrink_to_fit(&mut self, amount: usize)
        requires
            old(self).wf(),
            size_of::<T>() > 0 ==> amount <= old(self).stored_capacity(),
            size_of::<T>() > 0 && 0 < amount < old(self).stored_capacity() ==> old(self).promises(
                amount as int,
            ),
        ensures
            final(self).wf(),
            amount == 0 ==> {
                &&& final(self).spec_layout() is None
                &&& final(self).spec_capacity() == (if size_of::<T>() == 0 {
                    usize::MAX
                } else {
                    0
                })
            },
            if size_of::<T>() == 0 {
                &&& final(self).stored_capacity() == amount
                &&& final(self).addr() == old(self).addr()
                &&& final(self).allocator() == old(self).allocator()
            } else if amount == 0 {
                &&& final(self).stored_capacity() == 0
                &&& final(self).addr() == Self::dangling()
                &&& final(self).released_from(*old(self))
            } else if amount == old(self).stored_capacity() {
                *final(self) == *old(self)
            } else {
                final(self).grown_from(*old(self), amount as int)
            },
    {
        match self.try_shrink_to_fit(amount) {
            Ok(_) => {},
            Err(_) => vstd::pervasive::unreached(),
        }
    }

    /// Releases the buffer's block, if it owns one, and leaves address and
    /// capacity as they are: the buffer is not well formed afterwards, and is
    /// to be reset or given up.
    pub fn dealloc_buffer(&mut self)
        requires
            old(self).wf(),
        ensures
            final(self).addr() == old(self).addr(),
            final(self).stored_capacity() == old(self).stored_capacity(),
            final(self).released_from(*old(self)),
    {
        match self.current_layout() {
            Some(layout) => {
                self.alloc.deallocate(Block { addr: self.ptr, layout });
            },
            None => {},
        }
    }

    /// Gives the buffer up: its block, if it owns one, is released, and the
    /// allocator is handed back. The elements are not touched.
    pub fn drop(self) -> (a: A)
        requires
            self.wf(),
        ensures
            a.inv(),
            a.live() == match self.spec_block() {
                Some(block) => self.allocator().live().remove(block.addr),
                None => self.allocator().live(),
            },
    {
        let mut this = self;
        this.dealloc_buffer();
        this.alloc
    }

    /// The address of the buffer.
    pub fn ptr(&self) -> (p: usize)
        ensures
            p == self.addr(),
    {
        self.ptr
    }

    /// The number of elements that the buffer has room for.
    pub fn capacity(&self) -> (c: usize)
        ensures
            c == self.spec_capacity(),
    {
        if core::mem::size_of::<T>() == 0 {
            usize::MAX
        } else {
            self.capacity
        }
    }

    /// The buffer's allocator.
    pub fn build_alloc(&self) -> (a: &A)
        ensures
            *a == self.allocator(),
    {
        &self.alloc
    }

    /// The buffer's allocator, for change. The buffer stays well formed only
    /// if its block stays issued.
    pub fn build_alloc_mut(&mut self) -> (a: &mut A)
        ensures
            *a == old(self).allocator(),
            final(self).allocator() == *final(a),
            final(self).addr() == old(self).addr(),
            final(self).stored_capacity() == old(self).stored_capacity(),
    {
        &mut self.alloc
    }
}

/// A buffer of `capacity` elements of `T` is within the guard, and a new
/// arena is bound to issue its block.
pub open spec fn fits_new_arena<T>(capacity: usize) -> bool {
    &&& capacity * size_of::<T>() <= alloc_guard_limit()
    &&& capacity * size_of::<T>() > 0 ==> {
        &&& capacity * size_of::<T>() <= isize::MAX
        &&& round_up(ARENA_BASE as int, align_of::<T>() as int) + capacity * size_of::<T>()
            <= usize::MAX
    }
}

impl<T> RawVec<T, Arena> {
    /// An empty buffer over an arena of its own. Nothing is allocated.
    pub fn new() -> (v: Self)
        ensures
            v.wf(),
            v.addr() == Self::dangling(),
            v.stored_capacity() == (if size_of::<T>() == 0 {
                usize::MAX
            } else {
                0
            }),
            v.spec_layout() is None,
            v.allocator().live() == Map::<usize, Region>::empty(),
            v.allocator().next() == ARENA_BASE,
            v.allocator().end() == usize::MAX,
    {
        Self::new_in(Arena::new())
    }

    /// A buffer for exactly `capacity` elements over an arena of its own.
    pub fn with_capacity(capacity: usize) -> (v: Self)
        requires
            fits_new_arena::<T>(capacity),
        ensures
            v.wf(),
            v.stored_capacity() == capacity,
            v.spec_capacity() >= capacity,
            if capacity * size_of::<T>() == 0 {
                &&& v.addr() == Self::dangling()
                &&& v.allocator().live() == Map::<usize, Region>::empty()
            } else {
                v.allocator().live() == Map::<usize, Region>::empty().insert(
                    v.addr(),
                    issued_region(buffer_layout::<T>(capacity as int), false),
                )
            },
    {
        vstd::layout::layout_for_type_is_valid::<T>();
        Self::with_capacity_in(capacity, Arena::new())
    }

    /// Like `with_capacity`, with a block that is filled with zero bytes.
    pub fn with_capacity_zeroed(capacity: usize) -> (v: Self)
        requires
            fits_new_arena::<T>(capacity),
        ensures
            v.wf(),
            v.stored_capacity() == capacity,
            v.spec_capacity() >= capacity,
            if capacity * size_of::<T>() == 0 {
                &&& v.addr() == Self::dangling()
                &&& v.allocator().live() == Map::<usize, Region>::empty()
            } else {
                v.allocator().live() == Map::<usize, Region>::empty().insert(
                    v.addr(),
                    issued_region(buffer_layout::<T>(capacity as int), true),
                )
            },
    {
        vstd::layout::layout_for_type_is_valid::<T>();
        Self::with_capacity_zeroed_in(capacity, Arena::new())
    }
}

/// A block of fixed size: the address of `len` elements and the allocator
/// that issued them.
pub struct BoxedSlice<A: Allocator> {
    pub ptr: usize,
    pub len: usize,
    pub alloc: A,
}

impl<T, A: Allocator> RawVec<T, A> {
    /// Turns the whole buffer into a block of fixed size. The length is the
    /// capacity that the buffer records, also for elements without size.
    pub fn into_box(self) -> (b: BoxedSlice<A>)
        ensures
            b.ptr == self.addr(),
            b.len == self.stored_capacity(),
            b.alloc == self.allocator(),
    {
        BoxedSlice { ptr: self.ptr, len: self.capacity, alloc: self.alloc }
    }

    /// Turns a block of fixed size into a buffer whose capacity is the
    /// block's length.
    pub fn from_box(slice: BoxedSlice<A>) -> (v: Self)
        ensures
            v.addr() == slice.ptr,
            v.stored_capacity() == slice.len,
            v.allocator() == slice.alloc,
    {
        RawVec { ptr: slice.ptr, capacity: slice.len, alloc: slice.alloc, _owned: PhantomData }
    }
}

/// A reservation that succeeded is not repeated: the capacity that it moved to
/// has the room that was asked for, so that the same call finds it and leaves
/// the buffer and its allocator alone.
pub proof fn lemma_reserve_idempotent(
    strategy: ReserveStrategy,
    stored: usize,
    used: usize,
    extra: usize,
)
    requires
        reserve_target(strategy, stored, used, extra) <= usize::MAX,
    ensures
        has_room(reserve_target(strategy, stored, used, extra) as usize, used, extra),
{
}

/// Doubling a buffer that has a capacity yields at least twice that capacity;
/// doubling an empty buffer yields room for four elements, or for one.
pub proof fn lemma_double_target<T>(stored: usize)
    ensures
        stored > 0 ==> double_target::<T>(stored) >= 2 * stored,
        stored == 0 ==> double_target::<T>(stored) == 4 || double_target::<T>(stored) == 1,
        stored == 0 && size_of::<T>() <= usize::MAX / 8 ==> double_target::<T>(stored) == 4,
{
}

} // verus!
