//! Output linker sections, described by their address boundaries.

use vstd::prelude::*;

verus! {

/// An output linker section: the half-open address range `lower..higher`
#[derive(Debug, PartialEq, Eq, Structural)]
pub struct LinkerSection {
    lower: usize,
    higher: usize,
}

impl LinkerSection {
    /// A section never ends before it starts
    #[verifier::type_invariant]
    spec fn wf(&self) -> bool {
        self.lower <= self.higher
    }

    /// The lower boundary (spec view)
    pub closed spec fn spec_lower(&self) -> usize {
        self.lower
    }

    /// The higher boundary (spec view)
    pub closed spec fn spec_higher(&self) -> usize {
        self.higher
    }

    /// Describes the section `lower..higher`
    ///
    /// The boundaries are those that the linker script assigns to a section, e.g. the
    /// `_stack_lower` and `_stack_higher` symbols
    pub fn new(lower: usize, higher: usize) -> (s: Self)
        requires
            lower <= higher,
        ensures
            s.spec_lower() == lower,
            s.spec_higher() == higher,
    {
        Self { lower, higher }
    }

    /// Returns the lower address boundary of the linker section
    pub fn lower(&self) -> (r: usize)
        ensures
            r == self.spec_lower(),
            self.spec_lower() <= self.spec_higher(),
    {
        proof {
            use_type_invariant(self);
        }
        self.lower
    }

    /// Returns the higher address boundary of the linker section
    pub fn higher(&self) -> (r: usize)
        ensures
            r == self.spec_higher(),
            self.spec_lower() <= self.spec_higher(),
    {
        proof {
            use_type_invariant(self);
        }
        self.higher
    }

    /// Returns the size of the linker section in bytes
    pub fn size(&self) -> (r: usize)
        ensures
            r == self.spec_higher() - self.spec_lower(),
    {
        proof {
            use_type_invariant(self);
        }
        self.higher - self.lower
    }

    /// Checks whether the linker section contains the given `address`
    pub fn contains(&self, address: usize) -> (r: bool)
        ensures
            r == (self.spec_lower() <= address && address < self.spec_higher()),
    {
        self.lower <= address && address < self.higher
    }
}

} // verus!
