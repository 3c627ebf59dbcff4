//! Verified core of a bare-metal runtime for Arm Cortex-M and AArch64 systems.

pub mod bits;
pub mod entry;
pub mod linker_section;
pub mod mmio;
pub mod nvic;
pub mod object_api;
pub mod optimize;
pub mod regs;
pub mod rt;
pub mod sh;
pub mod stack;
pub mod stack_memory;
pub mod text;
pub mod vtor;
pub mod whoarchi;

pub use linker_section::LinkerSection;
