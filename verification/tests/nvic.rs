use cuy::nvic::{
    hw2logical, max_prio, AcquireError, Acquisition, Nvic, ICER_OFFSET, IPR_OFFSET, ISER_OFFSET, ISPR_OFFSET,
    NUM_ISER, NVIC,
};
use cuy::nvic::first_available;
use cuy::vtor::{ExternalInterrupt, VectActive, VectorTable};

/// A probe where interrupts 0..=42 and 100 are implemented
fn probed() -> [u32; NUM_ISER] {
    let mut available = [0u32; NUM_ISER];
    available[0] = !0;
    available[1] = (1 << 11) - 1;
    available[3] = 1 << 4;
    available
}

/// The acquisition of a run in which the NVIC was not acquired yet
fn acquisition() -> Acquisition {
    let mut acquired = false;
    Nvic::acquire(VectActive::ThreadMode, &mut acquired)
}

fn nvic_with(priority_mask: u8) -> Nvic {
    Nvic::from_probe(acquisition(), probed(), priority_mask, 0xFA05_0000)
}

#[test]
fn priority_conversions_match_the_reference_table() {
    assert_eq!(224, hw2logical(0, 3));
    assert_eq!(7, max_prio(3));
    assert_eq!(0, hw2logical(7, 3));

    assert_eq!(240, hw2logical(0, 4));
    assert_eq!(15, max_prio(4));
    assert_eq!(0, hw2logical(15, 4));

    assert_eq!(248, hw2logical(0, 5));
    assert_eq!(31, max_prio(5));
    assert_eq!(0, hw2logical(31, 5));

    assert_eq!(252, hw2logical(0, 6));
    assert_eq!(63, max_prio(6));
    assert_eq!(0, hw2logical(63, 6));

    assert_eq!(254, hw2logical(0, 7));
    assert_eq!(127, max_prio(7));
    assert_eq!(0, hw2logical(127, 7));

    assert_eq!(255, hw2logical(0, 8));
    assert_eq!(255, max_prio(8));
    assert_eq!(0, hw2logical(255, 8));
}

#[test]
fn higher_logical_priority_is_more_urgent() {
    for bits in 1..=8u8 {
        let top = max_prio(bits);
        for logical in 0..top {
            assert!(hw2logical(logical, bits) > hw2logical(logical + 1, bits));
            assert_eq!(0, hw2logical(logical, bits) % (1u16 << (8 - bits)) as u8);
        }
    }
    assert_eq!(0b1010_0000, hw2logical(2, 3));
}

#[test]
fn probe_counts_and_lists_implemented_interrupts() {
    let nvic = nvic_with(0xE0);
    assert_eq!(44, nvic.num_interrupts());
    assert_eq!(3, nvic.num_priority_bits());
    assert_eq!(7, nvic.max_group_priority());

    let mut interrupts = nvic.interrupts();
    let mut seen = Vec::new();
    while let Some(irq) = interrupts.next() {
        assert!(nvic.is_implemented(irq));
        seen.push(u16::from(irq));
    }
    let mut expected: Vec<u16> = (0..43).collect();
    expected.push(100);
    assert_eq!(expected, seen);
    assert_eq!(usize::from(nvic.num_interrupts()), seen.len());
    assert!(interrupts.next().is_none());

    assert!(!nvic.is_implemented(ExternalInterrupt(43)));
    assert!(!nvic.is_implemented(ExternalInterrupt(99)));
    assert!(nvic.is_implemented(ExternalInterrupt(100)));
}

#[test]
fn group_priority_bits_are_capped_at_seven() {
    assert_eq!(8, nvic_with(0xFF).num_priority_bits());
    assert_eq!(7, nvic_with(0xFF).num_group_priority_bits());
    assert_eq!(127, nvic_with(0xFF).max_group_priority());
    assert_eq!(5, nvic_with(0xF8).num_priority_bits());
    assert_eq!(5, nvic_with(0xF8).num_group_priority_bits());
    assert_eq!(31, nvic_with(0xF8).max_group_priority());
}

#[test]
fn probe_failures() {
    assert_eq!(
        Some(AcquireError::NoInterrupts),
        Nvic::try_from_probe(acquisition(), [0; NUM_ISER], 0xE0, 0).err()
    );
    assert_eq!(
        Some(AcquireError::TooFewPriorityBits(2)),
        Nvic::try_from_probe(acquisition(), probed(), 0xC0, 0).err()
    );
    assert_eq!(
        Some(AcquireError::PriorityGrouping(5)),
        Nvic::try_from_probe(acquisition(), probed(), 0xE0, 0x0000_0500).err()
    );
}

#[test]
fn first_available_is_the_lowest_implemented_interrupt() {
    assert_eq!(Some(0), first_available(&probed()));
    let mut available = [0u32; NUM_ISER];
    assert_eq!(None, first_available(&available));
    available[2] = 0b1000;
    available[5] = 1;
    assert_eq!(Some(67), first_available(&available));
}

#[test]
fn acquire_only_once_from_thread_mode() {
    let mut acquired = false;
    assert!(matches!(
        Nvic::try_acquire(VectActive::ExternalInterrupt(3), &mut acquired),
        Err(AcquireError::NotThreadMode)
    ));
    assert!(!acquired);
    assert!(Nvic::try_acquire(VectActive::ThreadMode, &mut acquired).is_ok());
    assert!(acquired);
    assert!(matches!(
        Nvic::try_acquire(VectActive::ThreadMode, &mut acquired),
        Err(AcquireError::AlreadyAcquired)
    ));
    let mut first = false;
    let _ = Nvic::acquire(VectActive::ThreadMode, &mut first);
    assert!(first);
}

#[test]
fn max_prio_keeps_the_low_byte() {
    assert_eq!(1, max_prio(1));
    assert_eq!(255, max_prio(9));
    assert_eq!(255, max_prio(15));
}

#[test]
fn is_implemented_reads_the_probed_bitmap() {
    let nvic = nvic_with(0xE0);
    assert!(nvic.is_implemented(ExternalInterrupt(42)));
    assert!(!nvic.is_implemented(ExternalInterrupt(43)));
    assert!(nvic.is_implemented(ExternalInterrupt(100)));
    assert!(!nvic.is_implemented(ExternalInterrupt(495)));
}

#[test]
fn register_writes() {
    let irq = ExternalInterrupt(37);
    let (reg, value) = Nvic::enable(irq).unwrap();
    assert_eq!(NVIC + ISER_OFFSET + 4, reg.ptr());
    assert_eq!(1 << 5, value);

    let (reg, value) = Nvic::disable(irq).unwrap();
    assert_eq!(NVIC + ICER_OFFSET + 4, reg.ptr());
    assert_eq!(1 << 5, value);

    let (reg, value) = Nvic::set_pending(irq).unwrap();
    assert_eq!(NVIC + ISPR_OFFSET + 4, reg.ptr());
    assert_eq!(1 << 5, value);

    let nvic = nvic_with(0xE0);
    let (reg, value) = nvic.set_group_priority(irq, 0).unwrap();
    assert_eq!(NVIC + IPR_OFFSET + 37, reg.ptr());
    assert_eq!(224, value);
    let (_, value) = nvic.set_group_priority(irq, 7).unwrap();
    assert_eq!(0, value);

    let (reg, value) = Nvic::enable(ExternalInterrupt(495)).unwrap();
    assert_eq!(NVIC + ISER_OFFSET + 4 * 15, reg.ptr());
    assert_eq!(1 << 15, value);
}

#[test]
fn set_handler_writes_the_interrupt_entry() {
    let nvic = nvic_with(0xE0);
    let mut table = VectorTable::new(0xdead);
    nvic.set_handler(ExternalInterrupt(4), &mut table, 0x1234);
    assert_eq!(0x1234, table.get(20));
    assert_eq!(0xdead, table.get(19));
    assert_eq!(0xdead, table.get(21));
}
