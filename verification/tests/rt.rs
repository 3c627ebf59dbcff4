use cuy::rt::{StackMemory, PAGE_SIZE};

#[test]
fn reservations_follow_each_other() {
    let mut next = 0usize;
    let first = StackMemory::reserve(1, &mut next);
    assert_eq!(1, next);
    let second = StackMemory::reserve(3, &mut next);
    assert_eq!(4, next);
    assert_eq!(0x8000_0000 + PAGE_SIZE, first.address(0x8000_0000));
    assert_eq!(0x8000_0000 + 4 * PAGE_SIZE, second.address(0x8000_0000));
}

#[test]
fn counter_wraps_like_fetch_add() {
    let mut next = usize::MAX;
    let _ = StackMemory::reserve(2, &mut next);
    assert_eq!(1, next);
}

#[test]
fn checked_address_refuses_an_address_beyond_the_address_space() {
    let mut next = 0;
    let first = StackMemory::reserve(2, &mut next);
    assert_eq!(Some(0x2000_0000 + 2 * PAGE_SIZE), first.checked_address(0x2000_0000));
    assert_eq!(None, first.checked_address(usize::MAX - PAGE_SIZE));
}
