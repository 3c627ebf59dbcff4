//! MMIO register handles
//!
//! A handle is the address of a register: a base address, fixed by the type, plus an offset.
//! The focus is *memory* safety: a handle always points to a location that is aligned for the
//! register's datum type. Performing the volatile access itself is left to the platform layer.
//!
//! Bitfield access/masking can be layered on top of this module; it's not baked into it

use core::marker::PhantomData;
use vstd::prelude::*;

mod sealed;

use sealed::{ReadWrite, SafeReadOnly, SafeReadWrite, Sealed};

verus! {

broadcast use vstd::layout::layout_of_primitives;

/// Safe to access read-only MMIO register
pub type SafeRoReg<const BASE_ADDRESS: usize, T> = Reg<BASE_ADDRESS, SafeReadOnly, T>;

/// Read-write MMIO register
pub type RwReg<const BASE_ADDRESS: usize, T> = Reg<BASE_ADDRESS, ReadWrite, T>;

/// Safe to access read-write MMIO register
pub type SafeRwReg<const BASE_ADDRESS: usize, T> = Reg<BASE_ADDRESS, SafeReadWrite, T>;

/// Read-only MMIO contiguous registers
pub type SafeRoRegs<const BASE_ADDRESS: usize, const LEN: usize, T> = Regs<
    BASE_ADDRESS,
    LEN,
    SafeReadOnly,
    T,
>;

/// Read-write MMIO contiguous registers
pub type RwRegs<const BASE_ADDRESS: usize, const LEN: usize, T> = Regs<
    BASE_ADDRESS,
    LEN,
    ReadWrite,
    T,
>;

/// Safe to access read-write MMIO contiguous registers
pub type SafeRwRegs<const BASE_ADDRESS: usize, const LEN: usize, T> = Regs<
    BASE_ADDRESS,
    LEN,
    SafeReadWrite,
    T,
>;

/// The data stored in an MMIO register
pub trait RegisterDatum: Copy + Sealed {

}

impl RegisterDatum for usize {

}

impl Sealed for usize {

}

impl RegisterDatum for u32 {

}

impl Sealed for u32 {

}

impl RegisterDatum for u8 {

}

impl Sealed for u8 {

}

/// `address` is a location at which a `T` may live: it is aligned for `T`
pub open spec fn aligned_for<T>(address: int) -> bool {
    &&& vstd::layout::size_of::<T>() > 0
    &&& address % (vstd::layout::size_of::<T>() as int) == 0
}

/// A MMIO register "handle"
///
/// A MMIO register is effectively a shared-memory based communication mechanism with a
/// peripheral hence we cannot truly talk about "ownership" of a MMIO register. This
/// handle is effectively just a valid pointer into said shared memory.
pub struct Reg<const BASE_ADDRESS: usize, K, T> where T: RegisterDatum {
    _datum: PhantomData<T>,
    _kind: PhantomData<K>,
    offset: usize,
}

impl<const BASE_ADDRESS: usize, K, T> Reg<BASE_ADDRESS, K, T> where T: RegisterDatum {
    #[verifier::type_invariant]
    spec fn inv(&self) -> bool {
        &&& BASE_ADDRESS + self.offset <= usize::MAX
        &&& aligned_for::<T>(BASE_ADDRESS + self.offset)
    }

    /// The offset of the register from `BASE_ADDRESS`
    pub closed spec fn spec_offset(&self) -> usize {
        self.offset
    }

    /// The address of the register
    pub open spec fn spec_address(&self) -> int {
        BASE_ADDRESS + self.spec_offset()
    }

    /// Instantiates a MMIO register handle
    ///
    /// The caller must ensure that the address `BASE + offset` points into a valid MMIO register
    /// that holds a value of type/size `T`; that address must be aligned for `T`
    pub fn new(offset: usize) -> (r: Self)
        requires
            BASE_ADDRESS + offset <= usize::MAX,
            aligned_for::<T>(BASE_ADDRESS + offset),
        ensures
            r.spec_offset() == offset,
    {
        Self { offset, _datum: PhantomData, _kind: PhantomData }
    }

    /// The address of the register: where a volatile access to it goes
    pub fn ptr(&self) -> (r: usize)
        ensures
            r == self.spec_address(),
            aligned_for::<T>(r as int),
    {
        proof {
            use_type_invariant(self);
        }
        BASE_ADDRESS + self.offset
    }
}

/// A handle to an array of MMIO registers
pub struct Regs<const BASE_ADDRESS: usize, const LEN: usize, K, T> where T: RegisterDatum {
    _datum: PhantomData<T>,
    _kind: PhantomData<K>,
    offset: usize,
}

impl<const BASE_ADDRESS: usize, const LEN: usize, K, T> Regs<BASE_ADDRESS, LEN, K, T> where
    T: RegisterDatum,
 {
    #[verifier::type_invariant]
    spec fn inv(&self) -> bool {
        &&& BASE_ADDRESS + self.offset + LEN * vstd::layout::size_of::<T>() <= usize::MAX
        &&& aligned_for::<T>(BASE_ADDRESS + self.offset)
    }

    /// The offset of the first register from `BASE_ADDRESS`
    pub closed spec fn spec_offset(&self) -> usize {
        self.offset
    }

    /// Instantiates a MMIO register array handle
    ///
    /// The caller must ensure the `LEN` registers starting at address `BASE + offset` are valid
    /// MMIO registers that hold a value of type/size `T`; that address must be aligned for `T`
    pub fn new(offset: usize) -> (r: Self)
        requires
            BASE_ADDRESS + offset + LEN * vstd::layout::size_of::<T>() <= usize::MAX,
            aligned_for::<T>(BASE_ADDRESS + offset),
        ensures
            r.spec_offset() == offset,
    {
        Self { offset, _datum: PhantomData, _kind: PhantomData }
    }

    /// Returns the register at the given `index`
    pub fn get(&self, index: usize) -> (r: Option<Reg<BASE_ADDRESS, K, T>>)
        ensures
            r is Some <==> index < LEN,
            r matches Some(reg) ==> reg.spec_offset() == self.spec_offset() + index
                * vstd::layout::size_of::<T>(),
    {
        proof {
            use_type_invariant(self);
        }
        if index < LEN {
            let size = core::mem::size_of::<T>();
            let ghost base = BASE_ADDRESS + self.offset;
            proof {
                vstd::arithmetic::mul::lemma_mul_inequality(
                    index as int,
                    LEN as int,
                    size as int,
                );
                vstd::arithmetic::div_mod::lemma_mod_multiples_vanish(
                    index as int,
                    base,
                    size as int,
                );
                vstd::arithmetic::mul::lemma_mul_is_commutative(index as int, size as int);
            }
            Some(
                Reg {
                    _datum: PhantomData,
                    _kind: PhantomData,
                    offset: self.offset + index * size,
                },
            )
        } else {
            None
        }
    }

    /// Returns the `LEN` registers, in order
    pub fn iter(&self) -> (r: Vec<Reg<BASE_ADDRESS, K, T>>)
        ensures
            r@.len() == LEN,
            forall|i: int|
                0 <= i < LEN ==> (#[trigger] r@[i]).spec_offset() == self.spec_offset() + i
                    * vstd::layout::size_of::<T>(),
    {
        let mut regs: Vec<Reg<BASE_ADDRESS, K, T>> = Vec::new();
        let mut index: usize = 0;
        while index < LEN
            invariant
                index <= LEN,
                regs@.len() == index,
                forall|i: int|
                    0 <= i < index ==> (#[trigger] regs@[i]).spec_offset() == self.spec_offset() + i
                        * vstd::layout::size_of::<T>(),
            decreases LEN - index,
        {
            let reg = self.get(index).unwrap();
            regs.push(reg);
            index = index + 1;
        }
        regs
    }
}

} // verus!
