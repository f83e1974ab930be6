//! A bump arena: the allocator that the library uses where none is named.

use vstd::prelude::*;
use vstd::arithmetic::power2::is_pow2;
use std::collections::HashMap;
use crate::layout::{Layout, round_up, lemma_round_up};
use crate::allocator::{
    issued, issued_region, resized, resized_region, well_placed, AllocError, Allocator, Block,
    Region,
};

verus! {

/// The first address that a default arena issues.
pub const ARENA_BASE: usize = 4096;

/// An allocator over a range of addresses that issues blocks in rising
/// order.
///
/// A block that was taken back is not issued again. The block that was issued
/// last can grow where it lies; any block can shrink where it lies.
pub struct Arena {
    next: usize,
    end: usize,
    blocks: HashMap<usize, Region>,
}

impl Arena {
    /// The first address that has not been issued.
    pub closed spec fn next(&self) -> usize {
        self.next
    }

    /// The end of the arena's range: no block reaches beyond it.
    pub closed spec fn end(&self) -> usize {
        self.end
    }

    /// `block` is the one that was issued last and has not been released, so
    /// that it borders the unused part of the range.
    pub open spec fn is_top(&self, block: Block) -> bool {
        block.addr + block.layout.size == self.next()
    }

    /// An arena over the addresses from `ARENA_BASE` upwards.
    pub fn new() -> (arena: Arena)
        ensures
            arena.inv(),
            arena.live() == Map::<usize, Region>::empty(),
            arena.next() == ARENA_BASE,
            arena.end() == usize::MAX,
    {
        Arena { next: ARENA_BASE, end: usize::MAX, blocks: HashMap::new() }
    }

    /// An arena over the addresses in `[start, end)`.
    pub fn with_range(start: usize, end: usize) -> (arena: Arena)
        requires
            0 < start <= end,
        ensures
            arena.inv(),
            arena.live() == Map::<usize, Region>::empty(),
            arena.next() == start,
            arena.end() == end,
    {
        Arena { next: start, end, blocks: HashMap::new() }
    }

    /// The number of blocks that are issued.
    pub fn live_count(&self) -> (n: usize)
        requires
            self.inv(),
        ensures
            n == self.live().len(),
    {
        self.blocks.len()
    }

    /// What the arena records of the block at `addr`, if one is issued there.
    pub fn region(&self, addr: usize) -> (r: Option<Region>)
        requires
            self.inv(),
        ensures
            r == if self.live().contains_key(addr) {
                Some(self.live()[addr])
            } else {
                None
            },
    {
        match self.blocks.get(&addr) {
            Some(region) => Some(*region),
            None => None,
        }
    }

    /// What the arena records of `block` once it is resized to `new_size`
    /// bytes.
    fn carried(&self, block: Block, new_size: usize) -> (region: Region)
        requires
            self.inv(),
            issued(self.live(), block),
        ensures
            region == resized_region(self.live()[block.addr], new_size),
    {
        let zeroed = match self.blocks.get(&block.addr) {
            Some(region) => region.zeroed,
            None => 0,
        };
        Region {
            layout: Layout { size: new_size, align: block.layout.align },
            zeroed: if zeroed <= new_size {
                zeroed
            } else {
                new_size
            },
        }
    }

    fn issue(&mut self, layout: Layout, zeroed: bool) -> (r: Result<Block, AllocError>)
        requires
            old(self).inv(),
            layout.size > 0,
            is_pow2(layout.align as int),
        ensures
            final(self).inv(),
            r is Ok <==> old(self).can_allocate(layout),
            match r {
                Ok(block) => {
                    &&& block.layout == layout
                    &&& block.addr == round_up(old(self).next() as int, layout.align as int)
                    &&& !old(self).live().contains_key(block.addr)
                    &&& final(self).live() == old(self).live().insert(
                        block.addr,
                        issued_region(layout, zeroed),
                    )
                    &&& final(self).next() == block.addr + layout.size
                    &&& final(self).end() == old(self).end()
                },
                Err(_) => *final(self) == *old(self),
            },
    {
        proof {
            reveal(is_pow2);
            lemma_round_up(self.next as int, layout.align as int);
        }
        if layout.size > isize::MAX as usize {
            return Err(AllocError);
        }
        let pad = (layout.align - self.next % layout.align) % layout.align;
        if pad > self.end - self.next {
            return Err(AllocError);
        }
        let addr = self.next + pad;
        if layout.size > self.end - addr {
            return Err(AllocError);
        }
        self.next = addr + layout.size;
        let filled = if zeroed {
            layout.size
        } else {
            0
        };
        self.blocks.insert(addr, Region { layout, zeroed: filled });
        Ok(Block { addr, layout })
    }
}

impl Allocator for Arena {
    closed spec fn inv(&self) -> bool {
        &&& 0 < self.next <= self.end
        &&& well_placed(self.blocks@)
        &&& forall|a: usize| #[trigger]
            self.blocks@.contains_key(a) ==> a + self.blocks@[a].layout.size <= self.next
    }

    closed spec fn live(&self) -> Map<usize, Region> {
        self.blocks@
    }

    open spec fn can_allocate(&self, layout: Layout) -> bool {
        &&& layout.size <= isize::MAX
        &&& round_up(self.next() as int, layout.align as int) + layout.size <= self.end()
    }

    open spec fn can_reallocate(&self, block: Block, new_size: usize) -> bool {
        ||| new_size <= block.layout.size
        ||| self.can_grow_in_place(block, new_size)
        ||| self.can_allocate(resized(block, new_size))
    }

    open spec fn can_grow_in_place(&self, block: Block, new_size: usize) -> bool {
        self.is_top(block) && new_size <= isize::MAX && block.addr + new_size <= self.end()
    }

    proof fn lemma_inv_well_placed(&self) {
    }

    fn allocate(&mut self, layout: Layout) -> (r: Result<Block, AllocError>)
        ensures
            r is Ok ==> old(self).can_allocate(layout),
            r is Ok ==> r->Ok_0.addr == round_up(old(self).next() as int, layout.align as int),
    {
        self.issue(layout, false)
    }

    fn allocate_zeroed(&mut self, layout: Layout) -> (r: Result<Block, AllocError>)
        ensures
            r is Ok ==> old(self).can_allocate(layout),
            r is Ok ==> r->Ok_0.addr == round_up(old(self).next() as int, layout.align as int),
    {
        self.issue(layout, true)
    }

    fn deallocate(&mut self, block: Block)
        ensures
            final(self).next() == old(self).next(),
            final(self).end() == old(self).end(),
    {
        self.blocks.remove(&block.addr);
    }

    fn grow_in_place(&mut self, block: Block, new_size: usize) -> (grown: bool)
        ensures
            grown <==> old(self).can_grow_in_place(block, new_size),
    {
        if self.next - block.addr == block.layout.size && new_size <= isize::MAX as usize
            && new_size <= self.end - block.addr {
            let region = self.carried(block, new_size);
            self.next = block.addr + new_size;
            self.blocks.insert(block.addr, region);
            true
        } else {
            false
        }
    }

    fn reallocate(&mut self, block: Block, new_size: usize) -> (r: Result<Block, AllocError>)
        ensures
            r is Ok <==> old(self).can_reallocate(block, new_size),
    {
        let layout = Layout { size: new_size, align: block.layout.align };
        let region = self.carried(block, new_size);
        if new_size <= block.layout.size {
            self.blocks.insert(block.addr, region);
            return Ok(Block { addr: block.addr, layout });
        }
        if self.grow_in_place(block, new_size) {
            return Ok(Block { addr: block.addr, layout });
        }
        match self.issue(layout, false) {
            Ok(moved) => {
                self.blocks.remove(&block.addr);
                self.blocks.insert(moved.addr, region);
                Ok(moved)
            },
            Err(e) => Err(e),
        }
    }
}

} // verus!
