//! Vector table manipulation and decoding of the active exception

use vstd::prelude::*;
use vstd::std_specs::convert::FromSpec;

verus! {

/// Number of vector table entries that precede the external interrupts (this includes the
/// initial stack pointer entry)
pub const NUM_EXCEPTIONS: usize = 16;

/// Number of external interrupts supported by the ISA (v8-M mainline)
pub const NUM_INTERRUPTS: usize = 496;

/// Number of entries in the vector table
pub const NUM_ENTRIES: usize = 512;

/// Mask of the `VECTACTIVE` field of the `ICSR` register
pub const VECTACTIVE_MASK: usize = 0x1ff;

/// The vector table: the addresses of the exception handlers, indexed by exception number
pub struct VectorTable {
    entries: Vec<usize>,
}

impl View for VectorTable {
    type V = Seq<usize>;

    closed spec fn view(&self) -> Seq<usize> {
        self.entries@
    }
}

impl VectorTable {
    /// The table holds one entry per exception number
    pub closed spec fn wf(&self) -> bool {
        self.entries.len() == NUM_ENTRIES
    }

    /// A table where every entry points to `default_handler`
    pub fn new(default_handler: usize) -> (t: Self)
        ensures
            t.wf(),
            t@ == Seq::new(NUM_ENTRIES as nat, |_i: int| default_handler),
    {
        let mut entries: Vec<usize> = Vec::new();
        let mut i: usize = 0;
        while i < NUM_ENTRIES
            invariant
                i <= NUM_ENTRIES,
                entries@ == Seq::new(i as nat, |_i: int| default_handler),
            decreases NUM_ENTRIES - i,
        {
            entries.push(default_handler);
            i = i + 1;
        }
        Self { entries }
    }

    /// Returns the number of entries
    pub fn len(&self) -> (r: usize)
        requires
            self.wf(),
        ensures
            r == self@.len(),
            r == NUM_ENTRIES,
    {
        self.entries.len()
    }

    /// Returns the handler address stored at entry `index`
    pub fn get(&self, index: usize) -> (r: usize)
        requires
            index < self@.len(),
        ensures
            r == self@[index as int],
    {
        self.entries[index]
    }

    /// The entries, in exception number order
    pub fn as_slice(&self) -> (r: &[usize])
        ensures
            r@ == self@,
    {
        self.entries.as_slice()
    }

    /// Stores `address` at entry `index`
    fn store(&mut self, index: usize, address: usize)
        requires
            old(self).wf(),
            index < NUM_ENTRIES,
        ensures
            final(self).wf(),
            final(self)@ == old(self)@.update(index as int, address),
    {
        self.entries.set(index, address);
    }
}

/// The current executing exception
#[derive(Clone, Copy, Debug, PartialEq, Eq, Structural)]
pub enum VectActive {
    /// Thread mode
    ThreadMode,
    /// Non-maskable fault
    NonMaskableFault(NonMaskableFault),
    /// Maskable fault
    Fault(Fault),
    /// System interrupt
    SystemInterrupt(SystemInterrupt),
    /// External interrupt
    ExternalInterrupt(u16),
    /// Reserved exception number
    Reserved(u8),
}

/// The exception that a `VECTACTIVE` value (an exception number) names
pub open spec fn decode_exception_number(v: int) -> VectActive {
    if v == 0 {
        VectActive::ThreadMode
    } else if v == 2 {
        VectActive::NonMaskableFault(NonMaskableFault::NonMaskableInt)
    } else if v == 3 {
        VectActive::NonMaskableFault(NonMaskableFault::HardFault)
    } else if v == 4 {
        VectActive::Fault(Fault::MemoryManagement)
    } else if v == 5 {
        VectActive::Fault(Fault::BusFault)
    } else if v == 6 {
        VectActive::Fault(Fault::UsageFault)
    } else if v == 7 {
        VectActive::Fault(Fault::SecureFault)
    } else if v == 11 {
        VectActive::SystemInterrupt(SystemInterrupt::SVCall)
    } else if v == 12 {
        VectActive::Fault(Fault::DebugMonitor)
    } else if v == 14 {
        VectActive::SystemInterrupt(SystemInterrupt::PendSV)
    } else if v == 15 {
        VectActive::SystemInterrupt(SystemInterrupt::SysTick)
    } else if v < 16 {
        VectActive::Reserved(v as u8)
    } else {
        VectActive::ExternalInterrupt((v - 16) as u16)
    }
}

/// The exception that an `ICSR` register value reports as active
pub open spec fn spec_vect_active(icsr: usize) -> VectActive {
    decode_exception_number((icsr % 512) as int)
}

impl VectActive {
    /// Returns `VectActive` as reported by the given value of the `ICSR` register
    pub fn get(icsr: usize) -> (r: Self)
        ensures
            r == spec_vect_active(icsr),
    {
        let v = icsr & VECTACTIVE_MASK;
        assert(icsr & 0x1ff == icsr % 512) by (bit_vector);
        match v {
            0 => Self::ThreadMode,
            2 => Self::NonMaskableFault(NonMaskableFault::NonMaskableInt),
            3 => Self::NonMaskableFault(NonMaskableFault::HardFault),
            4 => Self::Fault(Fault::MemoryManagement),
            5 => Self::Fault(Fault::BusFault),
            6 => Self::Fault(Fault::UsageFault),
            7 => Self::Fault(Fault::SecureFault),
            11 => Self::SystemInterrupt(SystemInterrupt::SVCall),
            12 => Self::Fault(Fault::DebugMonitor),
            14 => Self::SystemInterrupt(SystemInterrupt::PendSV),
            15 => Self::SystemInterrupt(SystemInterrupt::SysTick),
            reserved if reserved < 16 => Self::Reserved(reserved as u8),
            interrupt => Self::ExternalInterrupt((interrupt - 16) as u16),
        }
    }
}

/// A function that can be used as an exception handler
///
/// Implemented by the `exception_handler_with_stacked_registers!` macro or by wrappers of
/// `extern "C" fn()` function pointers
pub trait ExceptionHandler {
    /// The address of the handler's entry point
    fn address(self) -> usize;
}

/// A function that can be used as a fault handler
///
/// Implemented by the `fault_handler_with_stacked_registers!` macro or by wrappers of
/// `extern "C" fn() -> !` function pointers
pub trait FaultHandler {
    /// The address of the handler's entry point
    fn address(self) -> usize;
}

/// Registers pushed onto the stack on exception entry
#[non_exhaustive]
#[derive(Debug)]
pub struct StackedRegisters {
    /// Processor register 0
    pub r0: usize,
    /// Processor register 1
    pub r1: usize,
    /// Processor register 2
    pub r2: usize,
    /// Processor register 3
    pub r3: usize,
    /// Processor register 12
    pub r12: usize,
    /// Link Register
    pub lr: usize,
    /// Return Address
    ///
    /// For *precise* faults, this is the PC location of the instruction that triggered the fault
    pub return_address: usize,
    /// Program Status Register
    pub xpsr: usize,
}

/// Fault exceptions that cannot be masked, e.g. using CPSID or BASEPRI
#[derive(Clone, Copy, Debug, PartialEq, Eq, Structural)]
#[non_exhaustive]
pub enum NonMaskableFault {
    /// The NonMaskable Interrupt
    NonMaskableInt,
    /// Hard Fault exception
    HardFault,
}

impl NonMaskableFault {
    /// The exception number relative to the first external interrupt
    pub open spec fn spec_number(self) -> int {
        match self {
            NonMaskableFault::NonMaskableInt => -14,
            NonMaskableFault::HardFault => -13,
        }
    }

    /// The vector table entry of this fault
    pub open spec fn spec_entry(self) -> int {
        NUM_EXCEPTIONS + self.spec_number()
    }

    fn entry(&self) -> (r: usize)
        ensures
            r == self.spec_entry(),
    {
        match self {
            NonMaskableFault::NonMaskableInt => NUM_EXCEPTIONS - 14,
            NonMaskableFault::HardFault => NUM_EXCEPTIONS - 13,
        }
    }

    /// Sets a handler for this non-maskable fault
    ///
    /// These faults cannot be masked so they'll break critical sections based on
    /// disabling/masking interrupts; the handler must be careful when accessing shared memory,
    /// e.g. static variables
    ///
    /// Stores the address that `f.address()` gives in this fault's entry, and returns it
    pub fn set_handler<H: FaultHandler>(&self, table: &mut VectorTable, f: H) -> (address: usize)
        requires
            old(table).wf(),
        ensures
            call_ensures(H::address, (f,), address),
            final(table).wf(),
            final(table)@ == old(table)@.update(self.spec_entry(), address),
    {
        let address = f.address();
        table.store(self.entry(), address);
        address
    }
}

/// Fault exceptions that can be masked, e.g. using CPSID or BASEPRI
#[derive(Clone, Copy, Debug, PartialEq, Eq, Structural)]
#[non_exhaustive]
pub enum Fault {
    /// Memory Management fault
    MemoryManagement,
    /// Bus fault
    BusFault,
    /// Usage fault
    UsageFault,
    /// Secure fault
    SecureFault,
    /// DebugMonitor exception
    DebugMonitor,
}

impl Fault {
    /// The exception number relative to the first external interrupt
    pub open spec fn spec_number(self) -> int {
        match self {
            Fault::MemoryManagement => -12,
            Fault::BusFault => -11,
            Fault::UsageFault => -10,
            Fault::SecureFault => -9,
            Fault::DebugMonitor => -4,
        }
    }

    /// The vector table entry of this fault
    pub open spec fn spec_entry(self) -> int {
        NUM_EXCEPTIONS + self.spec_number()
    }

    fn entry(&self) -> (r: usize)
        ensures
            r == self.spec_entry(),
    {
        match self {
            Fault::MemoryManagement => NUM_EXCEPTIONS - 12,
            Fault::BusFault => NUM_EXCEPTIONS - 11,
            Fault::UsageFault => NUM_EXCEPTIONS - 10,
            Fault::SecureFault => NUM_EXCEPTIONS - 9,
            Fault::DebugMonitor => NUM_EXCEPTIONS - 4,
        }
    }

    /// Sets a handler for this maskable fault: stores the address that `f.address()` gives in
    /// this fault's entry, and returns it
    pub fn set_handler<H: FaultHandler>(&self, table: &mut VectorTable, f: H) -> (address: usize)
        requires
            old(table).wf(),
        ensures
            call_ensures(H::address, (f,), address),
            final(table).wf(),
            final(table)@ == old(table)@.update(self.spec_entry(), address),
    {
        let address = f.address();
        table.store(self.entry(), address);
        address
    }
}

/// Non-fault exceptions
#[derive(Clone, Copy, Debug, PartialEq, Eq, Structural)]
#[non_exhaustive]
pub enum SystemInterrupt {
    /// SuperVisor Call exception
    SVCall,
    /// PendSV exception
    PendSV,
    /// System timer exception
    SysTick,
}

impl SystemInterrupt {
    /// The exception number relative to the first external interrupt
    pub open spec fn spec_number(self) -> int {
        match self {
            SystemInterrupt::SVCall => -5,
            SystemInterrupt::PendSV => -2,
            SystemInterrupt::SysTick => -1,
        }
    }

    /// The vector table entry of this exception
    pub open spec fn spec_entry(self) -> int {
        NUM_EXCEPTIONS + self.spec_number()
    }

    fn entry(&self) -> (r: usize)
        ensures
            r == self.spec_entry(),
    {
        match self {
            SystemInterrupt::SVCall => NUM_EXCEPTIONS - 5,
            SystemInterrupt::PendSV => NUM_EXCEPTIONS - 2,
            SystemInterrupt::SysTick => NUM_EXCEPTIONS - 1,
        }
    }

    /// Sets a handler for this exception: stores the address that `f.address()` gives in this
    /// exception's entry, and returns it
    pub fn set_handler<H: ExceptionHandler>(&self, table: &mut VectorTable, f: H) -> (address: usize)
        requires
            old(table).wf(),
        ensures
            call_ensures(H::address, (f,), address),
            final(table).wf(),
            final(table)@ == old(table)@.update(self.spec_entry(), address),
    {
        let address = f.address();
        table.store(self.entry(), address);
        address
    }
}

/// an external interrupt
#[derive(Clone, Copy, Debug, PartialEq, Eq, Structural)]
pub struct ExternalInterrupt {
    pub(crate) nr: u16,
}

impl ExternalInterrupt {
    /// The interrupt number
    pub closed spec fn spec_nr(self) -> u16 {
        self.nr
    }

    /// The vector table entry of this interrupt
    pub open spec fn spec_entry(self) -> int {
        NUM_EXCEPTIONS + self.spec_nr()
    }

    pub(crate) fn nr(self) -> (r: u16)
        ensures
            r == self.spec_nr(),
    {
        self.nr
    }

    pub(crate) fn from_nr(nr: u16) -> (r: Self)
        ensures
            r.spec_nr() == nr,
    {
        ExternalInterrupt { nr }
    }

    /// Sets the handler at `address` for this interrupt
    pub fn set_handler(&self, table: &mut VectorTable, address: usize)
        requires
            self.spec_nr() < NUM_INTERRUPTS,
            old(table).wf(),
        ensures
            final(table).wf(),
            final(table)@ == old(table)@.update(self.spec_entry(), address),
    {
        table.store(NUM_EXCEPTIONS + self.nr as usize, address);
    }
}

/// creates an external interrupt
///
/// `nr` must not exceed the maximum number of interrupts supported by the ISA
#[allow(non_snake_case)]
pub fn ExternalInterrupt(nr: u16) -> (r: ExternalInterrupt)
    requires
        nr < NUM_INTERRUPTS,
    ensures
        r.spec_nr() == nr,
{
    ExternalInterrupt { nr }
}

impl From<ExternalInterrupt> for u16 {
    fn from(value: ExternalInterrupt) -> (r: u16) {
        value.nr
    }
}

impl vstd::std_specs::convert::FromSpecImpl<ExternalInterrupt> for u16 {
    open spec fn obeys_from_spec() -> bool {
        true
    }

    open spec fn from_spec(v: ExternalInterrupt) -> u16 {
        v.spec_nr()
    }
}

/// The handler that `set_handler` installs for an exception is the one that runs while
/// `VectActive::get` reports that same exception: the entry an exception's handler is
/// stored at is the exception number that `VECTACTIVE` reports for it.
pub proof fn law_entry_is_active_exception_number(
    nmf: NonMaskableFault,
    fault: Fault,
    sys: SystemInterrupt,
    irq: ExternalInterrupt,
)
    requires
        irq.spec_nr() < NUM_INTERRUPTS,
    ensures
        decode_exception_number(nmf.spec_entry()) == VectActive::NonMaskableFault(nmf),
        decode_exception_number(fault.spec_entry()) == VectActive::Fault(fault),
        decode_exception_number(sys.spec_entry()) == VectActive::SystemInterrupt(sys),
        decode_exception_number(irq.spec_entry()) == VectActive::ExternalInterrupt(irq.spec_nr()),
        0 < nmf.spec_entry() < NUM_ENTRIES,
        0 < fault.spec_entry() < NUM_ENTRIES,
        0 < sys.spec_entry() < NUM_ENTRIES,
        0 < irq.spec_entry() < NUM_ENTRIES,
{
}

/// Distinct exceptions have distinct vector table entries, so setting the handler of one
/// exception never changes the handler of another.
pub proof fn law_entries_are_distinct(
    nmf: NonMaskableFault,
    fault: Fault,
    sys: SystemInterrupt,
    irq: ExternalInterrupt,
    other_int: ExternalInterrupt,
)
    requires
        irq.spec_nr() < NUM_INTERRUPTS,
        other_int.spec_nr() < NUM_INTERRUPTS,
    ensures
        nmf.spec_entry() != fault.spec_entry(),
        nmf.spec_entry() != sys.spec_entry(),
        nmf.spec_entry() != irq.spec_entry(),
        fault.spec_entry() != sys.spec_entry(),
        fault.spec_entry() != irq.spec_entry(),
        sys.spec_entry() != irq.spec_entry(),
        irq.spec_entry() == other_int.spec_entry() ==> irq == other_int,
{
    law_entry_is_active_exception_number(nmf, fault, sys, irq);
}

/// The number of an external interrupt survives the round trip: `ExternalInterrupt(nr)`,
/// defined for exactly the numbers below `NUM_INTERRUPTS`, makes the interrupt numbered
/// `nr`, and `u16::from` gives that number back
pub proof fn law_interrupt_number_round_trip(nr: u16, irq: ExternalInterrupt)
    requires
        irq.spec_nr() == nr,
    ensures
        <u16 as FromSpec<ExternalInterrupt>>::obeys_from_spec(),
        <u16 as FromSpec<ExternalInterrupt>>::from_spec(irq) == nr,
{
}

} // verus!
