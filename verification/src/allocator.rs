//! The allocator abstraction: the capability to request, release and resize
//! blocks of raw memory.

use vstd::prelude::*;
use vstd::arithmetic::power2::is_pow2;
use crate::layout::Layout;

verus! {

/// A region of memory issued by an allocator: its base address and the layout
/// it was requested with.
#[derive(Clone, Copy, Debug, PartialEq, Eq, Structural)]
pub struct Block {
    pub addr: usize,
    pub layout: Layout,
}

/// What an allocator records of a block it has issued.
#[derive(Clone, Copy, Debug, PartialEq, Eq, Structural)]
pub struct Region {
    /// The layout the block currently has.
    pub layout: Layout,
    /// The number of bytes at the start of the block that the allocator
    /// filled with zeros when it issued the block, and has carried along
    /// since.
    pub zeroed: usize,
}

/// The allocator declined a request.
#[derive(Clone, Copy, Debug, PartialEq, Eq, Structural)]
pub struct AllocError;

/// The bytes `[a, a + a_size)` and `[b, b + b_size)` do not meet.
pub open spec fn disjoint(a: int, a_size: int, b: int, b_size: int) -> bool {
    a + a_size <= b || b + b_size <= a
}

/// A block of `layout` may lie at `addr`: the address is not null and is
/// aligned, the block is not empty, is no larger than `isize::MAX` and ends
/// within the address space.
pub open spec fn placed(addr: usize, layout: Layout) -> bool {
    &&& addr > 0
    &&& is_pow2(layout.align as int)
    &&& addr as int % layout.align as int == 0
    &&& 0 < layout.size <= isize::MAX
    &&& addr + layout.size <= usize::MAX
}

/// What an allocator records of a block of `layout` that it has just
/// issued, filled with zeros if `zeroed`.
pub open spec fn issued_region(layout: Layout, zeroed: bool) -> Region {
    Region {
        layout,
        zeroed: if zeroed {
            layout.size
        } else {
            0
        },
    }
}

/// What an allocator records of a block that was `region` and has been
/// resized to `new_size` bytes: the bytes that the old and the new block
/// share are carried along, so as many of them as before are zero.
pub open spec fn resized_region(region: Region, new_size: usize) -> Region {
    Region {
        layout: Layout { size: new_size, align: region.layout.align },
        zeroed: if region.zeroed <= new_size {
            region.zeroed
        } else {
            new_size
        },
    }
}

/// Every issued block is placed properly, and no two of them overlap.
pub open spec fn well_placed(live: Map<usize, Region>) -> bool {
    &&& forall|a: usize| #[trigger]
        live.contains_key(a) ==> placed(a, live[a].layout) && live[a].zeroed
            <= live[a].layout.size
    &&& forall|a: usize, b: usize|
        #![trigger live.contains_key(a), live.contains_key(b)]
        live.contains_key(a) && live.contains_key(b) && a != b ==> disjoint(
            a as int,
            live[a].layout.size as int,
            b as int,
            live[b].layout.size as int,
        )
}

/// `block` is issued in `live`, with the layout that it names.
pub open spec fn issued(live: Map<usize, Region>, block: Block) -> bool {
    live.contains_key(block.addr) && live[block.addr].layout == block.layout
}

/// The layout of `block` with its size replaced by `new_size`.
pub open spec fn resized(block: Block, new_size: usize) -> Layout {
    Layout { size: new_size, align: block.layout.align }
}

/// A source of memory blocks.
///
/// An allocator keeps a record of the blocks it has issued, `live`, and every
/// operation says how that record changes. A call that fails leaves the
/// allocator as it was. Requests are never empty, and one for more than
/// `isize::MAX` bytes is declined. A block that is resized
/// keeps the bytes that the old and the new block share; the record shows
/// this of the bytes that the allocator itself has written, the zeros of a
/// block that was issued zero-filled.
///
/// An allocator may promise beforehand to serve a request (`can_allocate`,
/// `can_reallocate`, `can_grow_in_place`); one that stops the process when it
/// runs out of memory promises every request for a block, and one that
/// promises nothing is still an allocator. The entry points that do not report failure are for requests
/// that were promised.
pub trait Allocator: Sized {
    /// The allocator's own consistency condition.
    spec fn inv(&self) -> bool;

    /// The blocks that are issued at present, by base address.
    spec fn live(&self) -> Map<usize, Region>;

    /// The allocator is bound to serve a request for `layout`.
    spec fn can_allocate(&self, layout: Layout) -> bool;

    /// The allocator is bound to serve a request to resize `block` to
    /// `new_size` bytes.
    spec fn can_reallocate(&self, block: Block, new_size: usize) -> bool;

    /// The allocator is bound to extend `block` to `new_size` bytes where it
    /// lies.
    spec fn can_grow_in_place(&self, block: Block, new_size: usize) -> bool;

    /// A consistent allocator has its blocks placed properly and apart.
    proof fn lemma_inv_well_placed(&self)
        requires
            self.inv(),
        ensures
            well_placed(self.live()),
    ;

    /// Issues a block of `layout`.
    fn allocate(&mut self, layout: Layout) -> (r: Result<Block, AllocError>)
        requires
            old(self).inv(),
            layout.size > 0,
            is_pow2(layout.align as int),
        ensures
            final(self).inv(),
            old(self).can_allocate(layout) ==> r is Ok,
            layout.size > isize::MAX ==> r is Err,
            match r {
                Ok(block) => {
                    &&& block.layout == layout
                    &&& !old(self).live().contains_key(block.addr)
                    &&& final(self).live() == old(self).live().insert(
                        block.addr,
                        issued_region(layout, false),
                    )
                },
                Err(_) => *final(self) == *old(self),
            },
    ;

    /// Issues a block of `layout` that is filled with zero bytes.
    fn allocate_zeroed(&mut self, layout: Layout) -> (r: Result<Block, AllocError>)
        requires
            old(self).inv(),
            layout.size > 0,
            is_pow2(layout.align as int),
        ensures
            final(self).inv(),
            old(self).can_allocate(layout) ==> r is Ok,
            layout.size > isize::MAX ==> r is Err,
            match r {
                Ok(block) => {
                    &&& block.layout == layout
                    &&& !old(self).live().contains_key(block.addr)
                    &&& final(self).live() == old(self).live().insert(
                        block.addr,
                        issued_region(layout, true),
                    )
                },
                Err(_) => *final(self) == *old(self),
            },
    ;

    /// Takes `block` back.
    fn deallocate(&mut self, block: Block)
        requires
            old(self).inv(),
            issued(old(self).live(), block),
        ensures
            final(self).inv(),
            final(self).live() == old(self).live().remove(block.addr),
    ;

    /// Tries to extend `block` to `new_size` bytes where it lies, and says
    /// whether it did.
    fn grow_in_place(&mut self, block: Block, new_size: usize) -> (grown: bool)
        requires
            old(self).inv(),
            issued(old(self).live(), block),
            new_size >= block.layout.size,
        ensures
            final(self).inv(),
            old(self).can_grow_in_place(block, new_size) ==> grown,
            new_size > isize::MAX ==> !grown,
            grown ==> final(self).live() == old(self).live().insert(
                block.addr,
                resized_region(old(self).live()[block.addr], new_size),
            ),
            !grown ==> *final(self) == *old(self),
    ;

    /// Resizes `block` to `new_size` bytes, moving it where it has to.
    fn reallocate(&mut self, block: Block, new_size: usize) -> (r: Result<Block, AllocError>)
        requires
            old(self).inv(),
            issued(old(self).live(), block),
            new_size > 0,
        ensures
            final(self).inv(),
            old(self).can_reallocate(block, new_size) ==> r is Ok,
            new_size > isize::MAX ==> r is Err,
            match r {
                Ok(moved) => {
                    &&& moved.layout == resized(block, new_size)
                    &&& moved.addr == block.addr || !old(self).live().contains_key(moved.addr)
                    &&& final(self).live() == old(self).live().remove(block.addr).insert(
                        moved.addr,
                        resized_region(old(self).live()[block.addr], new_size),
                    )
                },
                Err(_) => *final(self) == *old(self),
            },
    ;
}

} // verus!
