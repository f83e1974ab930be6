use alloc_wg::layout::{alloc_guard, is_power_of_two, CapacityOverflow, Layout, LayoutErr};

#[test]
fn powers_of_two() {
    for n in [1usize, 2, 4, 8, 1024, 1 << 31, 1 << 63] {
        assert!(is_power_of_two(n), "{} is a power of two", n);
    }
    for n in [0usize, 3, 6, 12, 1023, usize::MAX, (1 << 63) + 1] {
        assert!(!is_power_of_two(n), "{} is no power of two", n);
    }
}

#[test]
fn from_size_align_checks_the_alignment() {
    assert_eq!(Layout::from_size_align(10, 4), Ok(Layout { size: 10, align: 4 }));
    assert_eq!(Layout::from_size_align(0, 1), Ok(Layout { size: 0, align: 1 }));
    assert_eq!(Layout::from_size_align(10, 0), Err(LayoutErr));
    assert_eq!(Layout::from_size_align(10, 3), Err(LayoutErr));
    assert_eq!(Layout::from_size_align(10, 12), Err(LayoutErr));
}

#[test]
fn from_size_align_checks_the_rounded_size() {
    let max = isize::MAX as usize;
    assert_eq!(Layout::from_size_align(max, 1), Ok(Layout { size: max, align: 1 }));
    assert_eq!(Layout::from_size_align(max + 1, 1), Err(LayoutErr));
    assert_eq!(Layout::from_size_align(max - 7, 8), Ok(Layout { size: max - 7, align: 8 }));
    assert_eq!(Layout::from_size_align(max - 6, 8), Err(LayoutErr));
    assert_eq!(Layout::from_size_align(usize::MAX, 2), Err(LayoutErr));
}

#[test]
fn from_size_align_unchecked_takes_what_it_is_given() {
    assert_eq!(Layout::from_size_align_unchecked(10, 3), Layout { size: 10, align: 3 });
    let l = Layout::from_size_align_unchecked(24, 8);
    assert_eq!((l.size(), l.align()), (24, 8));
}

#[test]
fn layout_of_a_type() {
    assert_eq!(Layout::new::<u32>(), Layout { size: 4, align: 4 });
    assert_eq!(Layout::new::<()>(), Layout { size: 0, align: 1 });
    assert_eq!(Layout::new::<[u16; 3]>(), Layout { size: 6, align: 2 });
}

#[test]
fn layout_of_a_value() {
    assert_eq!(Layout::for_value(&7u16), Layout { size: 2, align: 2 });
    assert_eq!(Layout::for_value(&[0u8; 5]), Layout { size: 5, align: 1 });
}

#[test]
fn layout_of_an_array() {
    assert_eq!(Layout::array::<u32>(3), Ok(Layout { size: 12, align: 4 }));
    assert_eq!(Layout::array::<u32>(0), Ok(Layout { size: 0, align: 4 }));
    assert_eq!(Layout::array::<()>(usize::MAX), Ok(Layout { size: 0, align: 1 }));
    let most = isize::MAX as usize / 4;
    assert_eq!(Layout::array::<u32>(most), Ok(Layout { size: most * 4, align: 4 }));
    assert_eq!(Layout::array::<u32>(most + 1), Err(LayoutErr));
    assert_eq!(Layout::array::<u32>(usize::MAX), Err(LayoutErr));
}

#[test]
fn padding() {
    let l = Layout { size: 10, align: 2 };
    assert_eq!(l.padding_needed_for(4), 2);
    assert_eq!(l.padding_needed_for(8), 6);
    assert_eq!(l.padding_needed_for(1), 0);
    assert_eq!(l.padding_needed_for(2), 0);
    assert_eq!(l.padding_needed_for(16), 6);
    assert_eq!(Layout { size: 0, align: 1 }.padding_needed_for(64), 0);
    assert_eq!(Layout { size: 10, align: 4 }.pad_to_align(), Layout { size: 12, align: 4 });
    assert_eq!(Layout { size: 12, align: 4 }.pad_to_align(), Layout { size: 12, align: 4 });
}

#[test]
fn extend_places_the_next_layout_at_its_alignment() {
    let a = Layout { size: 3, align: 1 };
    let b = Layout { size: 8, align: 8 };
    assert_eq!(a.extend(b), Ok((Layout { size: 16, align: 8 }, 8)));
    assert_eq!(b.extend(a), Ok((Layout { size: 11, align: 8 }, 8)));
    assert_eq!(b.extend(b), Ok((Layout { size: 16, align: 8 }, 8)));
    assert_eq!(a.extend(Layout { size: 0, align: 1 }), Ok((Layout { size: 3, align: 1 }, 3)));
}

#[test]
fn extend_refuses_what_leaves_the_range() {
    let max = isize::MAX as usize;
    let big = Layout { size: max - 7, align: 8 };
    assert_eq!(big.extend(Layout { size: 8, align: 8 }), Err(LayoutErr));
    assert_eq!(Layout { size: 8, align: 8 }.extend(big), Err(LayoutErr));
    let odd = Layout { size: max - 8, align: 1 };
    // The sizes add up within range, the padding of the whole does not.
    assert_eq!(odd.extend(Layout { size: 2, align: 8 }), Err(LayoutErr));
    assert_eq!(
        Layout { size: max - 15, align: 8 }.extend(Layout { size: 8, align: 8 }),
        Ok((Layout { size: max - 7, align: 8 }, max - 15))
    );
}

#[test]
fn the_guard_passes_every_size_on_wide_platforms() {
    if core::mem::size_of::<usize>() < 8 {
        assert_eq!(alloc_guard(isize::MAX as usize), Ok(()));
        assert_eq!(alloc_guard(isize::MAX as usize + 1), Err(CapacityOverflow));
    } else {
        assert_eq!(alloc_guard(0), Ok(()));
        assert_eq!(alloc_guard(isize::MAX as usize + 1), Ok(()));
        assert_eq!(alloc_guard(usize::MAX), Ok(()));
    }
}
