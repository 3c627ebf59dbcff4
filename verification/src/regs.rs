//! AArch64 system registers
//!
//! Each register is decoded from, or encoded into, the raw value that the `MRS` / `MSR`
//! instructions transfer.

#![allow(non_camel_case_types)]

use vstd::prelude::*;

verus! {

/// Current Exception Level register
#[derive(Clone, Copy, Debug, PartialEq, Eq, Structural)]
pub enum CurrentEL {
    /// Exception Level 0
    EL0,
    /// Exception Level 1
    EL1,
    /// Exception Level 2
    EL2,
    /// Exception Level 3
    EL3,
}

/// The exception level that a raw `CurrentEL` value reports: its bits [3:2]
pub open spec fn spec_current_el(value: u64) -> CurrentEL {
    let el = (value / 4) % 4;
    if el == 0 {
        CurrentEL::EL0
    } else if el == 1 {
        CurrentEL::EL1
    } else if el == 2 {
        CurrentEL::EL2
    } else {
        CurrentEL::EL3
    }
}

impl CurrentEL {
    /// Decodes the raw value read from the CurrentEL register
    pub fn read(value: u64) -> (r: Self)
        ensures
            r == spec_current_el(value),
    {
        let el = (value >> 2) & 0b11;
        assert((value >> 2u64) & 0b11u64 == (value / 4) % 4) by (bit_vector);
        match el {
            0b00 => Self::EL0,
            0b01 => Self::EL1,
            0b10 => Self::EL2,
            _ => Self::EL3,
        }
    }
}

/// Interrupt Mask Bits
pub struct DAIF;

impl DAIF {
    /// The Interrupt Mask Bits held in the raw value read from the DAIF register
    pub fn read(value: u64) -> (r: u16)
        ensures
            r == value % 0x1_0000,
    {
        assert(value as u16 == value % 0x1_0000) by (bit_vector);
        value as u16
    }
}

/// Saved Program Status Register (EL2)
pub struct SPSR_EL2;

/// Exception Link Register (EL2)
pub struct ELR_EL2;

/// `SPSR.M` value that selects EL1 with `SP_EL1` as the stack pointer
pub const SPSR_M_EL1H: u32 = 0b0101;

/// The values with which an exception return from EL2 drops to EL1
#[derive(Clone, Copy, Debug, PartialEq, Eq, Structural)]
pub struct DropEl {
    /// Value for `SPSR_EL2`: EL1 with `SP_EL1`, keeping the current interrupt mask bits
    pub spsr: u32,
    /// The stack pointer at EL1: the top of the stack memory handed over
    pub initial_sp: usize,
}

/// Prepares the execution of a function at one lower EL on the stack whose top is
/// `stack_top`; the function inherits the current interrupt mask bits `daif`
///
/// Dropping to a lower EL is supported from EL2 only (there is no lower EL than EL0)
pub fn drop_el(current: CurrentEL, daif: u16, stack_top: usize) -> (r: DropEl)
    requires
        current == CurrentEL::EL2,
    ensures
        r.spsr == (SPSR_M_EL1H | (daif as u32)),
        r.initial_sp == stack_top,
{
    let spsr = SPSR_M_EL1H | daif as u32;
    DropEl { spsr, initial_sp: stack_top }
}

} // verus!
