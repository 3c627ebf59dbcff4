use cuy::mmio::{Reg, RwReg, SafeRoReg, SafeRwRegs};

#[test]
fn register_addresses() {
    let reg: SafeRoReg<0xE000_ED00, u32> = Reg::new(0xC);
    assert_eq!(0xE000_ED0C, reg.ptr());
    let reg: RwReg<0xE000_ED00, usize> = RwReg::new(0x8);
    assert_eq!(0xE000_ED08, reg.ptr());
}

#[test]
fn register_arrays() {
    let regs: SafeRwRegs<0x4000_0000, 4, u32> = SafeRwRegs::new(0x100);
    assert_eq!(0x4000_0100, regs.get(0).unwrap().ptr());
    assert_eq!(0x4000_010C, regs.get(3).unwrap().ptr());
    assert!(regs.get(4).is_none());
    assert!(regs.get(usize::MAX).is_none());

    let bytes: SafeRwRegs<0x4000_0000, 8, u8> = SafeRwRegs::new(0x3);
    assert_eq!(0x4000_000A, bytes.get(7).unwrap().ptr());
}
