use alloc_wg::allocator::{AllocError, Allocator, Block, Region};
use alloc_wg::arena::{Arena, ARENA_BASE};
use alloc_wg::collections::TryReserveError;
use alloc_wg::layout::{CapacityOverflow, Layout};
use alloc_wg::raw_vec::{BoxedSlice, RawVec};

#[test]
fn reserve_grows_from_empty_then_doubles() {
    let mut v: RawVec<u64> = RawVec::new();
    assert_eq!(v.capacity(), 0);
    v.reserve(0, 5);
    assert!(v.capacity() >= 5);
    assert_eq!(v.capacity(), 5);
    // Five slots are taken: one more element doubles the buffer.
    v.reserve(5, 1);
    assert_eq!(v.capacity(), 10);
}

#[test]
fn new_buffer_is_empty_and_dangling() {
    let v: RawVec<u32> = RawVec::new();
    assert_eq!(v.capacity(), 0);
    assert_eq!(v.ptr(), core::mem::align_of::<u32>());
    assert_eq!(v.build_alloc().live_count(), 0);
}

#[test]
fn unsized_elements_have_unbounded_capacity() {
    let v: RawVec<()> = RawVec::new();
    assert_eq!(v.capacity(), usize::MAX);
    let w: RawVec<()> = RawVec::with_capacity(7);
    assert_eq!(w.capacity(), usize::MAX);
    assert_eq!(w.build_alloc().live_count(), 0);
    assert_eq!(w.ptr(), 1);
}

#[test]
fn with_capacity_allocates_exactly() {
    let v: RawVec<u64> = RawVec::with_capacity(3);
    assert_eq!(v.capacity(), 3);
    assert_eq!(v.ptr(), ARENA_BASE);
    assert_eq!(
        v.build_alloc().region(v.ptr()),
        Some(Region { layout: Layout { size: 24, align: 8 }, zeroed: 0 })
    );
}

#[test]
fn with_capacity_zero_allocates_nothing() {
    let v: RawVec<u64> = RawVec::with_capacity(0);
    assert_eq!(v.capacity(), 0);
    assert_eq!(v.ptr(), 8);
    assert_eq!(v.build_alloc().live_count(), 0);
}

#[test]
fn with_capacity_zeroed_records_the_fill() {
    let v: RawVec<u16> = RawVec::with_capacity_zeroed(4);
    assert_eq!(v.capacity(), 4);
    assert_eq!(
        v.build_alloc().region(v.ptr()),
        Some(Region { layout: Layout { size: 8, align: 2 }, zeroed: 8 })
    );
}

#[test]
fn try_with_capacity_reports_capacity_overflow() {
    let r: Result<RawVec<u64, Arena>, _> = RawVec::try_with_capacity_in(usize::MAX, Arena::new());
    assert!(matches!(r, Err(TryReserveError::CapacityOverflow)));
    let r: Result<RawVec<u64, Arena>, _> =
        RawVec::try_with_capacity_zeroed_in(usize::MAX / 4, Arena::new());
    assert!(matches!(r, Err(TryReserveError::CapacityOverflow)));
}

#[test]
fn try_with_capacity_reports_the_declined_layout() {
    let a = Arena::with_range(64, 128);
    let r: Result<RawVec<u32, Arena>, _> = RawVec::try_with_capacity_in(100, a);
    match r {
        Err(TryReserveError::AllocError { layout }) => {
            assert_eq!(layout, Layout { size: 400, align: 4 });
        }
        _ => panic!("the arena has no room for 400 bytes"),
    }
}

#[test]
fn a_user_allocator_backs_a_buffer() {
    let a = Arena::with_range(64, 1024);
    let v: RawVec<u32, Arena> = RawVec::with_capacity_in(4, a);
    assert_eq!(v.capacity(), 4);
    assert_eq!(v.ptr(), 64);
    assert_eq!(v.build_alloc().live_count(), 1);
}

#[test]
fn reserve_is_idempotent() {
    let mut v: RawVec<u32, Arena> = RawVec::new_in(Arena::with_range(64, 4096));
    assert_eq!(v.try_reserve(0, 3), Ok(()));
    let ptr = v.ptr();
    let capacity = v.capacity();
    let region = v.build_alloc().region(ptr);
    assert_eq!(v.try_reserve(0, 3), Ok(()));
    assert_eq!(v.ptr(), ptr);
    assert_eq!(v.capacity(), capacity);
    assert_eq!(v.build_alloc().region(ptr), region);
    assert_eq!(v.build_alloc().live_count(), 1);
}

#[test]
fn reserve_with_room_changes_nothing() {
    let mut v: RawVec<u8> = RawVec::with_capacity(16);
    let ptr = v.ptr();
    v.reserve(4, 12);
    assert_eq!(v.capacity(), 16);
    assert_eq!(v.ptr(), ptr);
}

#[test]
fn reserve_takes_the_larger_of_double_and_needed() {
    let mut v: RawVec<u8> = RawVec::with_capacity(4);
    v.reserve(4, 1);
    assert_eq!(v.capacity(), 8);
    let mut w: RawVec<u8> = RawVec::with_capacity(4);
    w.reserve(4, 20);
    assert_eq!(w.capacity(), 24);
}

#[test]
fn reserve_exact_takes_no_headroom() {
    let mut v: RawVec<u8> = RawVec::with_capacity(4);
    v.reserve_exact(4, 1);
    assert_eq!(v.capacity(), 5);
    assert_eq!(v.try_reserve_exact(5, 2), Ok(()));
    assert_eq!(v.capacity(), 7);
}

#[test]
fn reserve_wraps_around_a_bad_used_capacity() {
    // A `used_capacity` above the capacity counts as room.
    let mut v: RawVec<u8> = RawVec::with_capacity(4);
    assert_eq!(v.try_reserve(5, 1), Ok(()));
    assert_eq!(v.capacity(), 4);
}

#[test]
fn try_reserve_reports_capacity_overflow() {
    let mut v: RawVec<u64> = RawVec::with_capacity(4);
    assert_eq!(v.try_reserve(usize::MAX, 8), Err(TryReserveError::CapacityOverflow));
    assert_eq!(v.try_reserve(4, usize::MAX / 8), Err(TryReserveError::CapacityOverflow));
    assert_eq!(v.try_reserve_exact(4, usize::MAX / 8), Err(TryReserveError::CapacityOverflow));
    assert_eq!(v.capacity(), 4);
    let mut z: RawVec<()> = RawVec::new();
    assert_eq!(z.try_reserve(usize::MAX, 1), Err(TryReserveError::CapacityOverflow));
    assert_eq!(z.try_reserve(usize::MAX - 1, 1), Ok(()));
}

#[test]
fn try_reserve_reports_the_declined_layout_and_keeps_the_buffer() {
    let mut v: RawVec<u32, Arena> = RawVec::with_capacity_in(4, Arena::with_range(64, 90));
    let ptr = v.ptr();
    assert_eq!(
        v.try_reserve(4, 4),
        Err(TryReserveError::AllocError { layout: Layout { size: 32, align: 4 } })
    );
    assert_eq!(v.capacity(), 4);
    assert_eq!(v.ptr(), ptr);
    assert_eq!(v.build_alloc().live_count(), 1);
}

#[test]
fn double_from_empty_yields_four() {
    let mut v: RawVec<u32> = RawVec::new();
    v.double();
    assert_eq!(v.capacity(), 4);
}

#[test]
fn double_from_empty_yields_four_for_large_elements() {
    let mut v: RawVec<[u8; 1 << 40], Arena> = RawVec::new_in(Arena::new());
    assert_eq!(v.try_double(), Ok(()));
    assert_eq!(v.capacity(), 4);
    assert_eq!(
        v.build_alloc().region(v.ptr()).map(|r| r.layout),
        Some(Layout { size: 1 << 42, align: 1 })
    );
}

#[test]
fn double_doubles() {
    let mut v: RawVec<u32> = RawVec::with_capacity(3);
    v.double();
    assert_eq!(v.capacity(), 6);
    v.double();
    assert_eq!(v.capacity(), 12);
    assert_eq!(v.build_alloc().live_count(), 1);
}

#[test]
fn try_double_fails_without_element_size() {
    let mut v: RawVec<()> = RawVec::new();
    assert_eq!(v.try_double(), Err(TryReserveError::CapacityOverflow));
    assert_eq!(v.try_double_in_place(), Err(CapacityOverflow));
}

#[test]
fn try_double_reports_the_declined_layout() {
    let mut v: RawVec<u32, Arena> = RawVec::with_capacity_in(4, Arena::with_range(64, 90));
    assert_eq!(
        v.try_double(),
        Err(TryReserveError::AllocError { layout: Layout { size: 32, align: 4 } })
    );
    assert_eq!(v.capacity(), 4);
}

#[test]
fn double_in_place_extends_the_last_block() {
    let mut v: RawVec<u32> = RawVec::with_capacity(3);
    let ptr = v.ptr();
    assert!(v.double_in_place());
    assert_eq!(v.capacity(), 6);
    assert_eq!(v.ptr(), ptr);
}

#[test]
fn double_in_place_has_nothing_to_double_when_empty() {
    let mut v: RawVec<u32> = RawVec::new();
    assert!(!v.double_in_place());
    assert_eq!(v.capacity(), 0);
}

#[test]
fn reserve_in_place_reports_what_the_allocator_did() {
    let mut a = Arena::with_range(64, 4096);
    let first = a.allocate(Layout { size: 16, align: 4 }).unwrap();
    let second = a.allocate(Layout { size: 16, align: 4 }).unwrap();
    // The first block is walled in by the second: it cannot grow.
    let mut walled: RawVec<u32, Arena> = RawVec::from_raw_parts_in(first.addr, 4, a);
    assert_eq!(walled.try_reserve_in_place(4, 1), Ok(false));
    assert_eq!(walled.capacity(), 4);
    // The second one is the last: it can.
    let a = walled.into_box().alloc;
    let mut last: RawVec<u32, Arena> = RawVec::from_raw_parts_in(second.addr, 4, a);
    assert_eq!(last.try_reserve_in_place(4, 1), Ok(true));
    assert_eq!(last.capacity(), 8);
    assert_eq!(last.ptr(), second.addr);
    assert!(!last.reserve_in_place(4, 1));
}

#[test]
fn reserve_in_place_fails_only_on_overflow() {
    let mut v: RawVec<u32> = RawVec::with_capacity(4);
    assert_eq!(v.try_reserve_in_place(usize::MAX, 8), Err(CapacityOverflow));
    assert_eq!(v.try_reserve_in_place(4, usize::MAX / 2), Err(CapacityOverflow));
    let mut empty: RawVec<u32> = RawVec::new();
    assert_eq!(empty.try_reserve_in_place(0, 1), Ok(false));
    let mut z: RawVec<()> = RawVec::new();
    assert_eq!(z.try_reserve_in_place(usize::MAX, 1), Ok(false));
}

#[test]
fn shrink_to_fit_shrinks_to_the_amount() {
    let mut v: RawVec<u32> = RawVec::with_capacity(8);
    v.shrink_to_fit(3);
    assert_eq!(v.capacity(), 3);
    assert_eq!(
        v.build_alloc().region(v.ptr()).map(|r| r.layout),
        Some(Layout { size: 12, align: 4 })
    );
}

#[test]
fn shrink_to_zero_releases_the_block() {
    let mut v: RawVec<u32> = RawVec::with_capacity(8);
    assert_eq!(v.build_alloc().live_count(), 1);
    v.shrink_to_fit(0);
    assert_eq!(v.capacity(), 0);
    assert_eq!(v.ptr(), 4);
    assert_eq!(v.build_alloc().live_count(), 0);
}

#[test]
fn shrink_to_a_larger_amount_is_refused() {
    let mut v: RawVec<u32> = RawVec::with_capacity(8);
    assert_eq!(v.try_shrink_to_fit(9), Err(TryReserveError::CapacityOverflow));
    assert_eq!(v.capacity(), 8);
    assert_eq!(v.try_shrink_to_fit(8), Ok(()));
    assert_eq!(v.capacity(), 8);
}

#[test]
fn shrink_sets_the_recorded_capacity_of_unsized_elements() {
    let mut v: RawVec<()> = RawVec::new();
    v.shrink_to_fit(5);
    assert_eq!(v.capacity(), usize::MAX);
    assert_eq!(v.into_box().len, 5);
}

#[test]
fn drop_releases_the_block() {
    let v: RawVec<u32> = RawVec::with_capacity(8);
    let a = v.drop();
    assert_eq!(a.live_count(), 0);
}

#[test]
fn dealloc_buffer_keeps_address_and_capacity() {
    let mut v: RawVec<u32> = RawVec::with_capacity(8);
    let ptr = v.ptr();
    v.dealloc_buffer();
    assert_eq!(v.ptr(), ptr);
    assert_eq!(v.capacity(), 8);
    assert_eq!(v.build_alloc().live_count(), 0);
}

#[test]
fn alloc_ref_gives_the_layout_in_use() {
    let mut v: RawVec<u32> = RawVec::with_capacity(8);
    let (_, layout) = v.alloc_ref();
    assert_eq!(layout, Some(Layout { size: 32, align: 4 }));
    let mut e: RawVec<u32> = RawVec::new();
    assert_eq!(e.alloc_ref().1, None);
    assert_eq!(e.current_layout(), None);
}

#[test]
fn build_alloc_mut_reaches_the_allocator() {
    let mut v: RawVec<u32> = RawVec::new();
    let block = v.build_alloc_mut().allocate(Layout { size: 4, align: 4 }).unwrap();
    assert_eq!(block.addr, ARENA_BASE);
    assert_eq!(v.build_alloc().live_count(), 1);
}

#[test]
fn a_buffer_and_a_boxed_slice_convert_into_each_other() {
    let v: RawVec<u32> = RawVec::with_capacity(8);
    let ptr = v.ptr();
    let b: BoxedSlice<Arena> = v.into_box();
    assert_eq!(b.ptr, ptr);
    assert_eq!(b.len, 8);
    let w: RawVec<u32> = RawVec::from_box(b);
    assert_eq!(w.ptr(), ptr);
    assert_eq!(w.capacity(), 8);
    assert_eq!(w.drop().live_count(), 0);
}

#[test]
fn the_answer_of_the_allocator_decides_the_result() {
    let layout = Layout { size: 16, align: 4 };
    let declined: Result<RawVec<u32, Arena>, _> =
        RawVec::from_allocation(4, layout, Err(AllocError), Arena::new());
    assert!(matches!(declined, Err(TryReserveError::AllocError { layout: l }) if l == layout));
    let issued: Result<RawVec<u32, Arena>, _> =
        RawVec::from_allocation(4, layout, Ok(Block { addr: 256, layout }), Arena::new());
    let mut v = issued.ok().unwrap();
    assert_eq!((v.ptr(), v.capacity()), (256, 4));

    let larger = Layout { size: 32, align: 4 };
    assert_eq!(
        v.finish_grow(8, larger, Err(AllocError)),
        Err(TryReserveError::AllocError { layout: larger })
    );
    assert_eq!((v.ptr(), v.capacity()), (256, 4));
    assert_eq!(v.finish_grow(8, larger, Ok(Block { addr: 512, layout: larger })), Ok(()));
    assert_eq!((v.ptr(), v.capacity()), (512, 8));

    assert!(!v.finish_grow_in_place(16, false));
    assert_eq!((v.ptr(), v.capacity()), (512, 8));
    assert!(v.finish_grow_in_place(16, true));
    assert_eq!((v.ptr(), v.capacity()), (512, 16));
}

#[test]
fn a_zeroed_buffer_keeps_its_zeros_when_it_grows() {
    let mut v: RawVec<u16> = RawVec::with_capacity_zeroed(4);
    v.reserve(4, 1);
    assert_eq!(
        v.build_alloc().region(v.ptr()),
        Some(Region { layout: Layout { size: 16, align: 2 }, zeroed: 8 })
    );
    v.shrink_to_fit(2);
    assert_eq!(
        v.build_alloc().region(v.ptr()),
        Some(Region { layout: Layout { size: 4, align: 2 }, zeroed: 4 })
    );
}
