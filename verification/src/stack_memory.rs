//! An owning pointer into statically allocated call stack memory
//!
//! This memory is obtained using the `stack_memory!` macro

use crate::linker_section::LinkerSection;
use vstd::prelude::*;

verus! {

/// An owning pointer into statically allocated call stack memory
pub struct StackMemory {
    section: LinkerSection,
}

impl StackMemory {
    /// The memory `lower..higher`
    pub closed spec fn spec_section(&self) -> LinkerSection {
        self.section
    }

    /// Takes ownership of the statically allocated stack memory `lower..higher`
    pub fn new(lower: usize, higher: usize) -> (r: Self)
        requires
            lower <= higher,
        ensures
            r.spec_section().spec_lower() == lower,
            r.spec_section().spec_higher() == higher,
    {
        Self { section: LinkerSection::new(lower, higher) }
    }

    /// The boundaries of the stack memory
    pub fn section(&self) -> (r: &LinkerSection)
        ensures
            *r == self.spec_section(),
    {
        &self.section
    }
}

impl core::ops::Deref for StackMemory {
    type Target = LinkerSection;

    fn deref(&self) -> (r: &LinkerSection)
        ensures
            *r == self.spec_section(),
    {
        &self.section
    }
}

} // verus!
