use cuy::bits::count_ones;

#[test]
fn counts_set_bits() {
    assert_eq!(0, count_ones(0));
    assert_eq!(32, count_ones(u32::MAX));
    assert_eq!(3, count_ones(0b1011_0000));
    assert_eq!(8, count_ones(0xFF));
    assert_eq!(1, count_ones(1 << 31));
}
