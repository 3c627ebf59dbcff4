use cuy::entry::{init_data, zero_bss};

#[test]
fn zeroes_bss() {
    let mut bss = vec![1u64, 2, 3, u64::MAX];
    zero_bss(&mut bss);
    assert_eq!(vec![0u64; 4], bss);
    let mut empty: Vec<u64> = Vec::new();
    zero_bss(&mut empty);
    assert!(empty.is_empty());
}

#[test]
fn initializes_data_from_its_load_address() {
    let lma = [10u64, 20, 30, 40];
    let mut data = vec![0u64; 3];
    init_data(&lma, &mut data);
    assert_eq!(vec![10u64, 20, 30], data);
}
