use alloc_wg::allocator::{AllocError, Allocator, Block, Region};
use alloc_wg::arena::{Arena, ARENA_BASE};
use alloc_wg::layout::Layout;

fn layout(size: usize, align: usize) -> Layout {
    Layout { size, align }
}

#[test]
fn a_new_arena_has_issued_nothing() {
    let a = Arena::new();
    assert_eq!(a.live_count(), 0);
    assert_eq!(a.region(ARENA_BASE), None);
    assert_eq!(ARENA_BASE, 4096);
}

#[test]
fn blocks_are_issued_in_rising_order_and_aligned() {
    let mut a = Arena::with_range(100, 1000);
    let b1 = a.allocate(layout(3, 1)).unwrap();
    assert_eq!(b1, Block { addr: 100, layout: layout(3, 1) });
    let b2 = a.allocate(layout(8, 8)).unwrap();
    assert_eq!(b2, Block { addr: 104, layout: layout(8, 8) });
    let b3 = a.allocate(layout(1, 64)).unwrap();
    assert_eq!(b3.addr, 128);
    assert_eq!(a.live_count(), 3);
    assert_eq!(a.region(104), Some(Region { layout: layout(8, 8), zeroed: 0 }));
}

#[test]
fn zeroed_blocks_are_recorded() {
    let mut a = Arena::new();
    let b = a.allocate_zeroed(layout(16, 4)).unwrap();
    assert_eq!(a.region(b.addr), Some(Region { layout: layout(16, 4), zeroed: 16 }));
    // A block that is resized keeps the bytes that it had.
    let c = a.reallocate(b, 32).unwrap();
    assert_eq!(a.region(c.addr), Some(Region { layout: layout(32, 4), zeroed: 16 }));
    let d = a.reallocate(c, 8).unwrap();
    assert_eq!(a.region(d.addr), Some(Region { layout: layout(8, 4), zeroed: 8 }));
    let _wall = a.allocate(layout(1, 1)).unwrap();
    let e = a.reallocate(d, 64).unwrap();
    assert_ne!(e.addr, d.addr);
    assert_eq!(a.region(e.addr), Some(Region { layout: layout(64, 4), zeroed: 8 }));
    assert_eq!(a.region(d.addr), None);
}

#[test]
fn a_request_beyond_the_range_is_declined_and_changes_nothing() {
    let mut a = Arena::with_range(100, 120);
    assert_eq!(a.allocate(layout(21, 1)), Err(AllocError));
    assert_eq!(a.allocate(layout(8, 64)), Err(AllocError));
    assert_eq!(a.allocate_zeroed(layout(isize::MAX as usize + 1, 1)), Err(AllocError));
    assert_eq!(a.live_count(), 0);
    // The arena is as it was: the whole range is still to be had.
    assert_eq!(a.allocate(layout(20, 1)), Ok(Block { addr: 100, layout: layout(20, 1) }));
    assert_eq!(a.allocate(layout(1, 1)), Err(AllocError));
}

#[test]
fn a_block_is_taken_back() {
    let mut a = Arena::new();
    let b1 = a.allocate(layout(8, 8)).unwrap();
    let b2 = a.allocate(layout(8, 8)).unwrap();
    a.deallocate(b1);
    assert_eq!(a.live_count(), 1);
    assert_eq!(a.region(b1.addr), None);
    assert!(a.region(b2.addr).is_some());
    // An address is not issued twice.
    let b3 = a.allocate(layout(8, 8)).unwrap();
    assert!(b3.addr > b2.addr);
}

#[test]
fn only_the_last_block_grows_in_place() {
    let mut a = Arena::with_range(100, 200);
    let b1 = a.allocate(layout(10, 1)).unwrap();
    let b2 = a.allocate(layout(10, 1)).unwrap();
    assert!(!a.grow_in_place(b1, 20));
    assert_eq!(a.region(b1.addr), Some(Region { layout: layout(10, 1), zeroed: 0 }));
    assert!(a.grow_in_place(b2, 20));
    assert_eq!(a.region(b2.addr), Some(Region { layout: layout(20, 1), zeroed: 0 }));
    let b2 = Block { addr: b2.addr, layout: layout(20, 1) };
    // Not beyond the range.
    assert!(!a.grow_in_place(b2, 91));
    assert!(a.grow_in_place(b2, 90));
    assert_eq!(a.allocate(layout(1, 1)), Err(AllocError));
}

#[test]
fn reallocate_shrinks_in_place_and_moves_to_grow() {
    let mut a = Arena::with_range(100, 1000);
    let b1 = a.allocate(layout(16, 4)).unwrap();
    let b2 = a.allocate(layout(16, 4)).unwrap();
    let s = a.reallocate(b1, 8).unwrap();
    assert_eq!(s, Block { addr: b1.addr, layout: layout(8, 4) });
    let g = a.reallocate(s, 32).unwrap();
    assert_eq!(g, Block { addr: 132, layout: layout(32, 4) });
    assert_eq!(a.region(b1.addr), None);
    assert_eq!(a.live_count(), 2);
    // The last block grows where it lies.
    let h = a.reallocate(g, 64).unwrap();
    assert_eq!(h, Block { addr: 132, layout: layout(64, 4) });
    assert!(a.region(b2.addr).is_some());
}

#[test]
fn a_declined_reallocation_changes_nothing() {
    let mut a = Arena::with_range(100, 140);
    let b1 = a.allocate(layout(16, 4)).unwrap();
    let _b2 = a.allocate(layout(16, 4)).unwrap();
    assert_eq!(a.reallocate(b1, 20), Err(AllocError));
    assert_eq!(a.region(b1.addr), Some(Region { layout: layout(16, 4), zeroed: 0 }));
    assert_eq!(a.live_count(), 2);
}
