use cuy::stack_memory::StackMemory;

#[test]
fn stack_memory_is_its_section() {
    let stack = StackMemory::new(0x1000, 0x1400);
    assert_eq!(0x1000, stack.section().lower());
    assert_eq!(0x1400, stack.section().higher());
    assert_eq!(0x400, stack.section().size());
}
