use cuy::regs::{drop_el, CurrentEL, DropEl, DAIF, SPSR_M_EL1H};

#[test]
fn decodes_current_el() {
    assert_eq!(CurrentEL::EL0, CurrentEL::read(0b0000));
    assert_eq!(CurrentEL::EL1, CurrentEL::read(0b0100));
    assert_eq!(CurrentEL::EL2, CurrentEL::read(0b1000));
    assert_eq!(CurrentEL::EL3, CurrentEL::read(0b1100));
    assert_eq!(CurrentEL::EL2, CurrentEL::read(0xFFFF_FFF0_0000_0009));
}

#[test]
fn daif_keeps_the_low_half() {
    assert_eq!(0x3C0, DAIF::read(0x3C0));
    assert_eq!(0x1234, DAIF::read(0xABCD_0000_0001_1234));
}

#[test]
fn drop_to_el1_inherits_the_interrupt_masks() {
    assert_eq!(
        DropEl {
            spsr: 0x3C5,
            initial_sp: 0x4000_0000
        },
        drop_el(CurrentEL::EL2, 0x3C0, 0x4000_0000)
    );
    assert_eq!(SPSR_M_EL1H, drop_el(CurrentEL::EL2, 0, 0).spsr);
}
