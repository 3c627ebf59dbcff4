//! Kinds of MMIO register access; they cannot be named outside this crate

use vstd::prelude::*;

verus! {

/// Implemented only by the data types that an MMIO register can hold
pub trait Sealed {}

/// A register that is safe to read and cannot be written
pub struct SafeReadOnly;

/// A register that is safe to read and to write
pub struct SafeReadWrite;

/// A register whose writes must be checked against the reference manual
pub struct ReadWrite;

} // verus!
