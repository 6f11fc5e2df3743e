//! Frame-building primitives: alignment, scaled offsets, push chains,
//! and the one-shot slot.

use fringe::frame::{align_down_mut, offset_mut, push, OnceSlot};

#[test]
fn align_down_clears_low_bits() {
    assert_eq!(align_down_mut(1000, 16), 992);
    assert_eq!(align_down_mut(992, 16), 992);
    assert_eq!(align_down_mut(5, 1), 5);
    assert_eq!(align_down_mut(65535, 4096), 61440);
    assert_eq!(align_down_mut(4095, 4096), 0);
}

#[test]
fn offset_walks_both_ways() {
    assert_eq!(offset_mut(1000, -2, 8), 984);
    assert_eq!(offset_mut(1000, 3, 4), 1012);
    assert_eq!(offset_mut(1000, 0, 8), 1000);
    assert_eq!(offset_mut(1000, -1, 0), 1000);
    assert_eq!(offset_mut(8, -1, 8), 0);
}

#[test]
fn push_aligns_and_never_overlaps() {
    let mut sp: usize = 1024;
    let a = push(&mut sp, 8, 8);
    assert_eq!(a, 1016);
    assert_eq!(sp, 1016);

    let prior = sp;
    let b = push(&mut sp, 1, 1);
    assert_eq!(b, 1015);
    // returned address is aligned and leaves the earlier data intact
    assert_eq!(b % 1, 0);
    assert!(b + 1 <= prior);

    let prior = sp;
    let c = push(&mut sp, 8, 8);
    // 1015 - 8 = 1007, aligned down to 1000
    assert_eq!(c, 1000);
    assert_eq!(c % 8, 0);
    assert!(c + 8 <= prior);
}

#[test]
fn push_monotonically_decreases_cursor() {
    let mut sp: usize = 4096;
    let mut last = sp;
    for (size, align) in [(8usize, 8usize), (4, 4), (2, 2), (16, 16), (1, 1), (32, 32)] {
        let addr = push(&mut sp, size, align);
        assert!(addr <= last, "cursor went up");
        assert_eq!(addr, sp);
        last = addr;
    }
}

#[test]
fn once_slot_takes_exactly_once() {
    let mut slot = OnceSlot::new(7u64);
    assert!(slot.occupied());
    assert_eq!(slot.take(), Some(7));
    assert!(!slot.occupied());
    assert_eq!(slot.take(), None);

    let mut empty = OnceSlot::<u64>::empty();
    assert_eq!(empty.take(), None);
}
