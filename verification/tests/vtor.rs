use cuy::vtor::{
    ExceptionHandler, ExternalInterrupt, Fault, FaultHandler, NonMaskableFault, SystemInterrupt,
    VectActive, VectorTable, NUM_ENTRIES,
};

struct At(usize);

impl FaultHandler for At {
    fn address(self) -> usize {
        self.0
    }
}

impl ExceptionHandler for At {
    fn address(self) -> usize {
        self.0
    }
}

#[test]
fn decodes_vectactive() {
    assert_eq!(VectActive::ThreadMode, VectActive::get(0));
    assert_eq!(VectActive::Reserved(1), VectActive::get(1));
    assert_eq!(
        VectActive::NonMaskableFault(NonMaskableFault::NonMaskableInt),
        VectActive::get(2)
    );
    assert_eq!(
        VectActive::NonMaskableFault(NonMaskableFault::HardFault),
        VectActive::get(3)
    );
    assert_eq!(VectActive::Fault(Fault::MemoryManagement), VectActive::get(4));
    assert_eq!(VectActive::Fault(Fault::BusFault), VectActive::get(5));
    assert_eq!(VectActive::Fault(Fault::UsageFault), VectActive::get(6));
    assert_eq!(VectActive::Fault(Fault::SecureFault), VectActive::get(7));
    assert_eq!(VectActive::Reserved(8), VectActive::get(8));
    assert_eq!(VectActive::SystemInterrupt(SystemInterrupt::SVCall), VectActive::get(11));
    assert_eq!(VectActive::Fault(Fault::DebugMonitor), VectActive::get(12));
    assert_eq!(VectActive::Reserved(13), VectActive::get(13));
    assert_eq!(VectActive::SystemInterrupt(SystemInterrupt::PendSV), VectActive::get(14));
    assert_eq!(VectActive::SystemInterrupt(SystemInterrupt::SysTick), VectActive::get(15));
    assert_eq!(VectActive::ExternalInterrupt(0), VectActive::get(16));
    assert_eq!(VectActive::ExternalInterrupt(495), VectActive::get(511));
    // only the VECTACTIVE field counts
    assert_eq!(VectActive::ThreadMode, VectActive::get(0x0040_0200));
    assert_eq!(VectActive::ExternalInterrupt(5), VectActive::get(0xFFFF_FE15));
}

#[test]
fn handlers_land_in_the_entry_of_their_exception() {
    let mut table = VectorTable::new(1);
    assert_eq!(NUM_ENTRIES, table.len());
    assert_eq!(0x100, NonMaskableFault::HardFault.set_handler(&mut table, At(0x100)));
    assert_eq!(0x100, table.get(3));
    Fault::BusFault.set_handler(&mut table, At(0x200));
    assert_eq!(0x200, table.get(5));
    Fault::DebugMonitor.set_handler(&mut table, At(0x300));
    assert_eq!(0x300, table.get(12));
    SystemInterrupt::SVCall.set_handler(&mut table, At(0x400));
    assert_eq!(0x400, table.get(11));
    SystemInterrupt::SysTick.set_handler(&mut table, At(0x500));
    assert_eq!(0x500, table.get(15));
    ExternalInterrupt(7).set_handler(&mut table, 0x600);
    assert_eq!(0x600, table.get(23));

    let others = table
        .as_slice()
        .iter()
        .enumerate()
        .filter(|(i, _)| ![3, 5, 11, 12, 15, 23].contains(i))
        .all(|(_, address)| *address == 1);
    assert!(others);
}

#[test]
fn each_handler_runs_for_its_own_exception() {
    // the entry a handler is stored at is the number VECTACTIVE reports for its exception
    let mut table = VectorTable::new(0);
    SystemInterrupt::PendSV.set_handler(&mut table, At(0x42));
    let entry = table.as_slice().iter().position(|a| *a == 0x42).unwrap();
    assert_eq!(
        VectActive::SystemInterrupt(SystemInterrupt::PendSV),
        VectActive::get(entry)
    );
    ExternalInterrupt(77).set_handler(&mut table, 0x43);
    let entry = table.as_slice().iter().position(|a| *a == 0x43).unwrap();
    assert_eq!(VectActive::ExternalInterrupt(77), VectActive::get(entry));
}

#[test]
fn external_interrupt_number_round_trips() {
    assert_eq!(42u16, u16::from(ExternalInterrupt(42)));
    assert_eq!(495u16, u16::from(ExternalInterrupt(495)));
}
