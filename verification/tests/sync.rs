use alloc_wg::allocator::{Block, Region};
use alloc_wg::arena::{Arena, ARENA_BASE};
use alloc_wg::collections::TryReserveError;
use alloc_wg::layout::Layout;
use alloc_wg::allocator::AllocError;
use alloc_wg::refcount::{ArcInner, DANGLING, LOCKED, MAX_REFCOUNT};
use alloc_wg::sync::{data_offset_align, header, inner_layout, is_dangling, Arc, Heap, Weak};

fn counters<T>(heap: &Heap<T, Arena>, p: usize) -> (usize, usize) {
    let inner = heap.get(p).expect("the block is live");
    (inner.strong, inner.weak)
}

#[test]
fn shared_pointer_life_cycle() {
    let mut heap: Heap<i32> = Heap::new(Arena::new());
    let baseline = heap.alloc_ref().live_count();
    let a = Arc::new(42, &mut heap);
    let p = Arc::as_inner_ptr(&a, &heap).addr;
    assert_eq!(counters(&heap, p), (1, 1));
    assert_eq!(Arc::strong_count(&a, &heap), 1);
    assert_eq!(Arc::weak_count(&a, &heap), 0);
    let b = a.clone(&mut heap);
    assert_eq!(counters(&heap, p), (2, 1));
    assert_eq!(Arc::strong_count(&b, &heap), 2);
    a.drop(&mut heap);
    assert_eq!(Arc::strong_count(&b, &heap), 1);
    assert_eq!(*b.deref(&heap), 42);
    b.drop(&mut heap);
    // The payload is destroyed and the block is released.
    assert!(!heap.contains(p));
    assert_eq!(heap.len(), 0);
    assert_eq!(heap.alloc_ref().live_count(), baseline);
}

#[test]
fn the_block_is_laid_out_for_its_payload() {
    let mut heap: Heap<u32> = Heap::new(Arena::new());
    let a = Arc::new(7, &mut heap);
    let block = Arc::as_inner_ptr(&a, &heap);
    assert_eq!(block, Block { addr: ARENA_BASE, layout: Layout { size: 24, align: 8 } });
    assert_eq!(
        heap.alloc_ref().region(block.addr),
        Some(Region { layout: block.layout, zeroed: 0 })
    );
    let inner = heap.get(block.addr).unwrap();
    assert_eq!(inner.value, Layout { size: 4, align: 4 });
    assert_eq!(inner.layout, block.layout);
    assert_eq!(inner.data, Some(7));
}

#[test]
fn header_and_offsets() {
    assert_eq!(header(), Layout { size: 16, align: 8 });
    assert_eq!(data_offset_align(1), 16);
    assert_eq!(data_offset_align(8), 16);
    assert_eq!(data_offset_align(16), 16);
    assert_eq!(data_offset_align(32), 32);
    assert_eq!(inner_layout(Layout { size: 4, align: 4 }), Ok(Layout { size: 24, align: 8 }));
    assert_eq!(inner_layout(Layout { size: 1, align: 32 }), Ok(Layout { size: 64, align: 32 }));
    assert_eq!(inner_layout(Layout { size: 0, align: 1 }), Ok(Layout { size: 16, align: 8 }));
    assert!(inner_layout(Layout { size: isize::MAX as usize - 8, align: 1 }).is_err());
    assert_eq!(MAX_REFCOUNT, isize::MAX as usize);
    assert_eq!(LOCKED, usize::MAX);
    assert_eq!(DANGLING, usize::MAX);
    assert!(is_dangling(usize::MAX));
    assert!(!is_dangling(ARENA_BASE));
}

#[test]
fn clone_then_drop_leaves_the_count() {
    let mut heap: Heap<u8> = Heap::new(Arena::new());
    let a = Arc::new(1, &mut heap);
    let _b = a.clone(&mut heap);
    let before = Arc::strong_count(&a, &heap);
    let c = a.clone(&mut heap);
    c.drop(&mut heap);
    assert_eq!(Arc::strong_count(&a, &heap), before);
    assert_eq!(before, 2);
}

#[test]
fn clones_add_up() {
    let mut heap: Heap<u8> = Heap::new(Arena::new());
    let a = Arc::new(1, &mut heap);
    let initial = Arc::strong_count(&a, &heap);
    let mut handles = Vec::new();
    for _ in 0..100 {
        handles.push(a.clone(&mut heap));
    }
    assert_eq!(Arc::strong_count(&a, &heap), initial + 100);
    for h in handles {
        h.drop(&mut heap);
    }
    assert_eq!(Arc::strong_count(&a, &heap), initial);
}

#[test]
fn upgrade_fails_once_the_shared_handles_are_gone() {
    let mut heap: Heap<String> = Heap::new(Arena::new());
    let a = Arc::new(String::from("payload"), &mut heap);
    let b = a.clone(&mut heap);
    let w = Arc::downgrade(&a, &mut heap);
    a.drop(&mut heap);
    b.drop(&mut heap);
    assert!(w.upgrade(&mut heap).is_none());
    assert_eq!(w.strong_count(&heap), 0);
    assert_eq!(w.weak_count(&heap), 0);
    // The block is kept for the weak handle, without the payload.
    let p = w.as_inner_ptr(&heap).unwrap().addr;
    assert_eq!(counters(&heap, p), (0, 1));
    assert_eq!(heap.get(p).unwrap().data, None);
}

#[test]
fn upgrade_yields_the_same_payload_while_a_shared_handle_lives() {
    let mut heap: Heap<String> = Heap::new(Arena::new());
    let a = Arc::new(String::from("payload"), &mut heap);
    let w = Arc::downgrade(&a, &mut heap);
    let b = w.upgrade(&mut heap).expect("a shared handle lives");
    assert!(Arc::ptr_eq(&a, &b));
    assert_eq!(b.deref(&heap), a.deref(&heap));
    assert_eq!(b.deref(&heap), "payload");
    assert_eq!(Arc::strong_count(&a, &heap), 2);
    assert_eq!(Arc::weak_count(&a, &heap), 1);
}

#[test]
fn the_last_weak_handle_releases_the_block() {
    let mut heap: Heap<u64> = Heap::new(Arena::new());
    let baseline = heap.alloc_ref().live_count();
    let a = Arc::new(5, &mut heap);
    let w = Arc::downgrade(&a, &mut heap);
    let p = Arc::as_inner_ptr(&a, &heap).addr;
    assert_eq!(counters(&heap, p), (1, 2));
    a.drop(&mut heap);
    assert!(heap.contains(p));
    assert_eq!(heap.alloc_ref().live_count(), baseline + 1);
    w.drop(&mut heap);
    assert!(!heap.contains(p));
    assert_eq!(heap.alloc_ref().live_count(), baseline);
}

#[test]
fn drop_alloc_names_the_released_block() {
    let mut heap: Heap<u64> = Heap::new(Arena::new());
    let a = Arc::new(5, &mut heap);
    let w1 = Arc::downgrade(&a, &mut heap);
    let w2 = w1.clone(&mut heap);
    let block = Arc::as_inner_ptr(&a, &heap);
    assert_eq!(Arc::weak_count(&a, &heap), 2);
    a.drop(&mut heap);
    assert_eq!(w1.drop_alloc(&mut heap), None);
    assert_eq!(w2.drop_alloc(&mut heap), Some(block));
    assert_eq!(heap.into_alloc().live_count(), 0);
}

#[test]
fn a_dangling_weak_handle_has_no_block() {
    let mut heap: Heap<u64> = Heap::new(Arena::new());
    let w: Weak<u64> = Weak::new();
    assert!(w.upgrade(&mut heap).is_none());
    assert_eq!(w.strong_count(&heap), 0);
    assert_eq!(w.weak_count(&heap), 0);
    assert!(w.alloc_ref(&heap).is_none());
    assert_eq!(w.as_inner_ptr(&heap), None);
    let v = w.clone(&mut heap);
    assert!(w.ptr_eq(&v));
    assert_eq!(v.drop_alloc(&mut heap), None);
    w.drop(&mut heap);
    assert_eq!(heap.alloc_ref().live_count(), 0);
}

#[test]
fn make_mut_changes_the_only_handle_in_place() {
    let mut heap: Heap<u64> = Heap::new(Arena::new());
    let mut a = Arc::new(5, &mut heap);
    let p = Arc::as_inner_ptr(&a, &heap).addr;
    let region = heap.alloc_ref().region(p);
    *Arc::make_mut(&mut a, &mut heap) += 1;
    // Nothing was allocated.
    assert_eq!(heap.alloc_ref().live_count(), 1);
    assert_eq!(heap.alloc_ref().region(p), region);
    assert_eq!(Arc::as_inner_ptr(&a, &heap).addr, p);
    assert_eq!(counters(&heap, p), (1, 1));
    assert_eq!(*a.deref(&heap), 6);
}

#[test]
fn make_mut_clones_beside_shared_handles() {
    let mut heap: Heap<u64> = Heap::new(Arena::new());
    let mut a = Arc::new(5, &mut heap);
    let b = a.clone(&mut heap);
    let p = Arc::as_inner_ptr(&b, &heap).addr;
    *Arc::make_mut(&mut a, &mut heap) += 1;
    assert!(!Arc::ptr_eq(&a, &b));
    assert_eq!(Arc::strong_count(&a, &heap), 1);
    assert_eq!(Arc::weak_count(&a, &heap), 0);
    assert_eq!(*a.deref(&heap), 6);
    assert_eq!(Arc::strong_count(&b, &heap), 1);
    assert_eq!(*b.deref(&heap), 5);
    assert_eq!(counters(&heap, p), (1, 1));
    assert_eq!(heap.alloc_ref().live_count(), 2);
}

#[test]
fn make_mut_takes_the_payload_away_from_weak_handles() {
    let mut heap: Heap<u64> = Heap::new(Arena::new());
    let mut a = Arc::new(5, &mut heap);
    let w = Arc::downgrade(&a, &mut heap);
    let p = Arc::as_inner_ptr(&a, &heap).addr;
    *Arc::make_mut(&mut a, &mut heap) += 1;
    assert_ne!(Arc::as_inner_ptr(&a, &heap).addr, p);
    assert_eq!(*a.deref(&heap), 6);
    assert_eq!(Arc::strong_count(&a, &heap), 1);
    assert_eq!(counters(&heap, p), (0, 1));
    assert!(w.upgrade(&mut heap).is_none());
    w.drop(&mut heap);
    assert!(!heap.contains(p));
}

#[test]
fn get_mut_asks_for_the_only_handle() {
    let mut heap: Heap<u64> = Heap::new(Arena::new());
    let mut a = Arc::new(5, &mut heap);
    assert!(a.is_unique(&mut heap));
    *Arc::get_mut(&mut a, &mut heap).unwrap() = 9;
    assert_eq!(*a.deref(&heap), 9);
    let w = Arc::downgrade(&a, &mut heap);
    assert!(!a.is_unique(&mut heap));
    assert!(Arc::get_mut(&mut a, &mut heap).is_none());
    w.drop(&mut heap);
    let b = a.clone(&mut heap);
    assert!(Arc::get_mut(&mut a, &mut heap).is_none());
    b.drop(&mut heap);
    assert!(Arc::get_mut(&mut a, &mut heap).is_some());
    *Arc::get_mut_unchecked(&mut a, &mut heap) = 11;
    assert_eq!(*a.deref(&heap), 11);
    // The check leaves the counters as they were.
    let p = Arc::as_inner_ptr(&a, &heap).addr;
    assert_eq!(counters(&heap, p), (1, 1));
}

#[test]
fn try_unwrap_yields_the_payload_of_the_only_shared_handle() {
    let mut heap: Heap<u64> = Heap::new(Arena::new());
    let a = Arc::new(3, &mut heap);
    assert_eq!(Arc::try_unwrap(a, &mut heap).ok(), Some(3));
    assert_eq!(heap.alloc_ref().live_count(), 0);
    let a = Arc::new(4, &mut heap);
    let b = a.clone(&mut heap);
    let a = match Arc::try_unwrap(a, &mut heap) {
        Ok(_) => panic!("another shared handle lives"),
        Err(a) => a,
    };
    assert_eq!(*a.deref(&heap), 4);
    assert_eq!(Arc::strong_count(&b, &heap), 2);
}

#[test]
fn try_unwrap_leaves_weak_handles_without_payload() {
    let mut heap: Heap<u64> = Heap::new(Arena::new());
    let a = Arc::new(3, &mut heap);
    let w = Arc::downgrade(&a, &mut heap);
    assert_eq!(Arc::try_unwrap(a, &mut heap).ok(), Some(3));
    assert!(w.upgrade(&mut heap).is_none());
    assert_eq!(heap.len(), 1);
    w.drop(&mut heap);
    assert_eq!(heap.len(), 0);
}

#[test]
fn raw_addresses_lead_back() {
    let mut heap: Heap<u64> = Heap::new(Arena::new());
    let a = Arc::new(3, &mut heap);
    let p = Arc::as_inner_ptr(&a, &heap).addr;
    assert_eq!(Arc::as_ptr(&a), p + 16);
    let raw = Arc::into_raw(a);
    assert_eq!(raw, p + 16);
    Arc::<u64>::incr_strong_count(raw, &mut heap);
    let a: Arc<u64> = Arc::from_raw(raw);
    assert_eq!(Arc::as_inner_ptr(&a, &heap).addr, p);
    assert_eq!(Arc::strong_count(&a, &heap), 2);
    Arc::<u64>::decr_strong_count(raw, &mut heap);
    assert_eq!(Arc::strong_count(&a, &heap), 1);
    let w = Arc::downgrade(&a, &mut heap);
    assert_eq!(w.as_ptr(), p + 16);
    let w: Weak<u64> = Weak::from_raw(w.into_raw());
    assert_eq!(w.as_inner_ptr(&heap).unwrap().addr, p);
    let d: Weak<u64> = Weak::from_raw(Weak::<u64>::new().into_raw());
    assert_eq!(d.as_inner_ptr(&heap), None);
    let n: Weak<u64> = Weak::from_raw(0);
    assert!(n.ptr_eq(&Weak::new()));
}

#[test]
fn try_new_reports_the_declined_layout() {
    let mut heap: Heap<u64> = Heap::new(Arena::with_range(64, 80));
    match Arc::try_new_in(1, &mut heap) {
        Err(e) => assert_eq!(
            e,
            TryReserveError::AllocError { layout: Layout { size: 24, align: 8 } }
        ),
        Ok(_) => panic!("the arena has no room for 24 bytes"),
    }
    assert_eq!(heap.len(), 0);
    assert_eq!(heap.alloc_ref().live_count(), 0);
    let mut heap: Heap<u64> = Heap::new(Arena::with_range(64, 88));
    assert!(Arc::try_new_in(1, &mut heap).is_ok());
}

struct Node {
    me: Weak<Node>,
    seen_upgrade: bool,
}

#[test]
fn cyclic_construction_lends_a_weak_handle() {
    let mut heap: Heap<Node> = Heap::new(Arena::new());
    let a = Arc::new_cyclic(
        |me: &Weak<Node>, heap: &mut Heap<Node>| {
            // The payload is not there yet: the handle cannot be upgraded.
            let seen_upgrade = me.upgrade(heap).is_some();
            Node { me: me.clone(heap), seen_upgrade }
        },
        &mut heap,
    );
    let p = Arc::as_inner_ptr(&a, &heap).addr;
    assert_eq!(counters(&heap, p), (1, 2));
    assert!(!a.deref(&heap).seen_upgrade);
    // The handle in the payload, by its address: the payload is borrowed
    // from the heap, which the upgrade is about to change.
    let me: Weak<Node> = Weak::from_raw(a.deref(&heap).me.as_ptr());
    let again = me.upgrade(&mut heap).expect("the payload is published");
    assert!(Arc::ptr_eq(&a, &again));
    assert_eq!(Arc::strong_count(&a, &heap), 2);
}

#[test]
fn cyclic_construction_reports_the_declined_layout() {
    let mut heap: Heap<u64> = Heap::new(Arena::with_range(64, 80));
    let r = Arc::try_new_cyclic_in(|_: &Weak<u64>, _: &mut Heap<u64>| 1u64, &mut heap);
    match r {
        Err(e) => assert_eq!(
            e,
            TryReserveError::AllocError { layout: Layout { size: 24, align: 8 } }
        ),
        Ok(_) => panic!("the arena has no room for 24 bytes"),
    }
    let mut heap: Heap<u64> = Heap::new(Arena::new());
    let a = Arc::new_cyclic_in(|_: &Weak<u64>, _: &mut Heap<u64>| 1u64, &mut heap);
    assert_eq!(*a.deref(&heap), 1);
    let p = Arc::init_cyclic_in(
        ArcInner::new_in(0, 1, None, &mut heap),
        |_: &Weak<u64>, _: &mut Heap<u64>| 2u64,
        &mut heap,
    );
    assert_eq!(*p.deref(&heap), 2);
    assert_eq!(Arc::strong_count(&p, &heap), 1);
    assert_eq!(Arc::weak_count(&p, &heap), 0);
}

#[test]
fn a_payload_can_be_written_later() {
    let mut heap: Heap<u64> = Heap::new(Arena::new());
    let mut a = Arc::new_uninit(&mut heap);
    let p = Arc::as_inner_ptr(&a, &heap).addr;
    assert_eq!(heap.get(p).unwrap().data, None);
    assert_eq!(counters(&heap, p), (1, 1));
    assert_eq!(heap.alloc_ref().region(p).map(|r| r.zeroed), Some(0));
    Arc::write(&mut a, 5, &mut heap);
    let a = a.assume_init(&heap);
    assert_eq!(*a.deref(&heap), 5);
    let z = Arc::new_zeroed(&mut heap);
    let q = Arc::as_inner_ptr(&z, &heap).addr;
    assert_eq!(heap.alloc_ref().region(q).map(|r| r.zeroed), Some(24));
    assert!(Arc::try_new_uninit_in(&mut heap).is_ok());
    assert!(Arc::try_new_zero_in(&mut heap).is_ok());
    let u = Arc::new_uninit_in(&mut heap);
    let v = Arc::new_zeroed_in(&mut heap);
    assert!(!Arc::ptr_eq(&u, &v));
    assert_eq!(heap.len(), 6);
}

#[test]
fn slices_are_laid_out_by_their_length() {
    let mut heap: Heap<Vec<u32>> = Heap::new(Arena::new());
    let a = Arc::<Vec<u32>>::new_uninit_slice(3, &mut heap);
    let block = Arc::as_inner_ptr(&a, &heap);
    assert_eq!(block.layout, Layout { size: 32, align: 8 });
    assert_eq!(heap.get(block.addr).unwrap().value, Layout { size: 12, align: 4 });
    assert_eq!(heap.get(block.addr).unwrap().data, None);
    let z = Arc::<Vec<u32>>::new_zeroed_slice(5, &mut heap);
    let q = Arc::as_inner_ptr(&z, &heap);
    assert_eq!(q.layout, Layout { size: 40, align: 8 });
    assert_eq!(heap.alloc_ref().region(q.addr).map(|r| r.zeroed), Some(40));
    assert!(Arc::<Vec<u32>>::try_new_uninit_slice(0, &mut heap).is_ok());
    assert!(Arc::<Vec<u32>>::try_new_uninit_slice_in(1, &mut heap).is_ok());
    assert!(Arc::<Vec<u32>>::try_new_zeroed_slice_in(1, &mut heap).is_ok());
    let u = Arc::<Vec<u32>>::new_uninit_slice_in(2, &mut heap);
    let v = Arc::<Vec<u32>>::new_zeroed_slice_in(2, &mut heap);
    assert!(!Arc::ptr_eq(&u, &v));
    let p = Arc::<Vec<u32>>::allocate_for_slice(4, &mut heap);
    assert_eq!(heap.get(p).unwrap().layout, Layout { size: 32, align: 8 });
}

#[test]
fn slices_are_built_by_copy_or_element_by_element() {
    let mut heap: Heap<Vec<u16>> = Heap::new(Arena::new());
    let a = Arc::copy_from_slice(&[1u16, 2, 3], &mut heap);
    assert_eq!(a.deref(&heap), &vec![1u16, 2, 3]);
    assert_eq!(Arc::as_inner_ptr(&a, &heap).layout, Layout { size: 24, align: 8 });
    let b = Arc::from_iter_exact(vec![4u16, 5], 2, &mut heap);
    assert_eq!(b.deref(&heap), &vec![4u16, 5]);
    assert_eq!(Arc::strong_count(&b, &heap), 1);
    let mut small: Heap<Vec<u16>> = Heap::new(Arena::with_range(64, 80));
    assert_eq!(
        Arc::try_copy_from_slice(&[1u16, 2, 3], &mut small).err(),
        Some(TryReserveError::AllocError { layout: Layout { size: 24, align: 8 } })
    );
    assert_eq!(
        Arc::try_from_iter_exact(vec![1u16], 1, &mut small).err(),
        Some(TryReserveError::AllocError { layout: Layout { size: 24, align: 8 } })
    );
}

#[test]
fn handles_know_their_allocator() {
    let mut heap: Heap<u8> = Heap::new(Arena::with_range(64, 1024));
    let a = Arc::new_in(1, &mut heap);
    assert_eq!(Arc::alloc_ref(&a, &heap).live_count(), 1);
    let w = Arc::downgrade(&a, &mut heap);
    assert_eq!(w.alloc_ref(&heap).map(|a| a.live_count()), Some(1));
    let p = Arc::<u8>::try_allocate_for_layout(Layout { size: 1, align: 1 }, true, &mut heap)
        .unwrap();
    assert_eq!(heap.alloc_ref().region(p).map(|r| r.zeroed), Some(24));
    let q = Arc::<u8>::allocate_for_layout(Layout { size: 100, align: 64 }, false, &mut heap);
    assert_eq!(heap.get(q).unwrap().layout, Layout { size: 192, align: 64 });
    assert_eq!(q % 64, 0);
    let r = ArcInner::try_new_in(1, 1, Some(9u8), &mut heap).unwrap();
    assert_eq!(heap.get(r).unwrap().data, Some(9));
}

#[test]
fn a_default_weak_handle_is_dangling() {
    let heap: Heap<u8> = Heap::new(Arena::new());
    let w: Weak<u8> = Weak::default();
    assert!(w.ptr_eq(&Weak::new()));
    assert_eq!(w.strong_count(&heap), 0);
}

#[test]
fn a_block_that_is_too_large_is_refused_as_overflow() {
    let mut heap: Heap<Vec<u64>> = Heap::new(Arena::new());
    assert_eq!(
        Arc::<Vec<u64>>::try_new_uninit_slice(usize::MAX / 8, &mut heap).err(),
        Some(TryReserveError::CapacityOverflow)
    );
    // The elements fit, but not with the header before them.
    assert_eq!(
        Arc::<Vec<u64>>::try_new_zeroed_slice_in(isize::MAX as usize / 8, &mut heap).err(),
        Some(TryReserveError::CapacityOverflow)
    );
    assert_eq!(
        Arc::<Vec<u64>>::try_allocate_for_layout(
            Layout { size: isize::MAX as usize - 7, align: 8 },
            false,
            &mut heap
        ),
        Err(TryReserveError::CapacityOverflow)
    );
    assert_eq!(heap.len(), 0);
    assert_eq!(heap.alloc_ref().live_count(), 0);
}

#[test]
fn install_records_what_the_allocator_answered() {
    let mut heap: Heap<u8> = Heap::new(Arena::new());
    let layout = Layout { size: 24, align: 8 };
    let inner = |data| ArcInner {
        strong: 1,
        weak: 1,
        data: Some(data),
        value: Layout { size: 1, align: 1 },
        layout,
    };
    assert_eq!(
        heap.install(inner(1), Err(AllocError)),
        Err(TryReserveError::AllocError { layout })
    );
    assert_eq!(heap.len(), 0);
    assert_eq!(heap.install(inner(2), Ok(Block { addr: 640, layout })), Ok(640));
    assert_eq!(heap.get(640).unwrap().data, Some(2));
    assert_eq!(heap.len(), 1);
}

#[test]
fn a_boxed_value_moves_into_a_shared_block() {
    let mut heap: Heap<String> = Heap::new(Arena::new());
    let a = Arc::from_box(Box::new(String::from("boxed")), &mut heap);
    assert_eq!(a.deref(&heap), "boxed");
    let p = Arc::as_inner_ptr(&a, &heap).addr;
    assert_eq!(counters(&heap, p), (1, 1));
    assert_eq!(heap.get(p).unwrap().value, Layout::new::<String>());
    let mut small: Heap<u64> = Heap::new(Arena::with_range(64, 80));
    assert_eq!(
        Arc::try_from_box(Box::new(1u64), &mut small).err(),
        Some(TryReserveError::AllocError { layout: Layout { size: 24, align: 8 } })
    );
    let mut heap: Heap<u64> = Heap::new(Arena::new());
    let q = Arc::<u64>::allocate_for_ptr(&7, &mut heap);
    assert_eq!(heap.get(q).unwrap().layout, Layout { size: 24, align: 8 });
    assert_eq!(heap.get(q).unwrap().data, None);
    assert!(Arc::<u64>::try_allocate_for_ptr(&7, &mut heap).is_ok());
}

#[derive(Clone, Debug, PartialEq)]
struct Counted(u32);

#[test]
fn a_slice_is_built_from_clones() {
    let mut heap: Heap<Vec<Counted>> = Heap::new(Arena::new());
    let source = [Counted(1), Counted(2), Counted(3)];
    let a = Arc::from_slice(&source, &mut heap);
    assert_eq!(a.deref(&heap).as_slice(), &source[..]);
    assert_eq!(Arc::as_inner_ptr(&a, &heap).layout, Layout { size: 32, align: 8 });
    let empty: [Counted; 0] = [];
    let e = Arc::try_from_slice(&empty, &mut heap).ok().unwrap();
    assert!(e.deref(&heap).is_empty());
    let mut small: Heap<Vec<Counted>> = Heap::new(Arena::with_range(64, 80));
    assert_eq!(
        Arc::try_from_slice(&source, &mut small).err(),
        Some(TryReserveError::AllocError { layout: Layout { size: 32, align: 8 } })
    );
}

#[test]
fn a_string_is_laid_out_by_its_bytes() {
    let mut heap: Heap<String> = Heap::new(Arena::new());
    let a = Arc::copy_from_str("héllo", &mut heap);
    assert_eq!(a.deref(&heap), "héllo");
    let inner = heap.get(Arc::as_inner_ptr(&a, &heap).addr).unwrap();
    assert_eq!(inner.value, Layout { size: 6, align: 1 });
    assert_eq!(inner.layout, Layout { size: 24, align: 8 });
    let p = Arc::<String>::allocate_for_str(17, &mut heap);
    assert_eq!(heap.get(p).unwrap().layout, Layout { size: 40, align: 8 });
    assert!(Arc::<String>::try_allocate_for_str(0, &mut heap).is_ok());
    assert_eq!(
        Arc::<String>::try_allocate_for_str(isize::MAX as usize, &mut heap),
        Err(TryReserveError::CapacityOverflow)
    );
    let mut small: Heap<String> = Heap::new(Arena::with_range(64, 80));
    assert_eq!(
        Arc::try_copy_from_str("text", &mut small).err(),
        Some(TryReserveError::AllocError { layout: Layout { size: 24, align: 8 } })
    );
}

#[test]
fn a_locked_weak_counter_counts_no_weak_handle() {
    let mut heap: Heap<u8> = Heap::new(Arena::new());
    let layout = Layout { size: 24, align: 8 };
    let inner = ArcInner {
        strong: 1,
        weak: LOCKED,
        data: Some(1u8),
        value: Layout { size: 1, align: 1 },
        layout,
    };
    assert_eq!(heap.install(inner, Ok(Block { addr: 640, layout })), Ok(640));
    let a: Arc<u8> = Arc::from_raw(640 + 16);
    assert_eq!(Arc::weak_count(&a, &heap), 0);
    assert_eq!(Arc::strong_count(&a, &heap), 1);
}

#[test]
fn a_count_at_the_limit_can_still_be_raised() {
    let mut heap: Heap<u8> = Heap::new(Arena::new());
    let layout = Layout { size: 24, align: 8 };
    let inner = ArcInner {
        strong: MAX_REFCOUNT,
        weak: MAX_REFCOUNT,
        data: Some(1u8),
        value: Layout { size: 1, align: 1 },
        layout,
    };
    assert_eq!(heap.install(inner, Ok(Block { addr: 640, layout })), Ok(640));
    let a: Arc<u8> = Arc::from_raw(640 + 16);
    let b = a.clone(&mut heap);
    assert_eq!(Arc::strong_count(&b, &heap), MAX_REFCOUNT + 1);
    let w = Arc::downgrade(&a, &mut heap);
    assert_eq!(Arc::weak_count(&a, &heap), MAX_REFCOUNT);
    assert_eq!(w.strong_count(&heap), MAX_REFCOUNT + 1);
}
