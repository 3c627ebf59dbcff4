//! Compilation target identification by way of the ARM build attributes (AEABI) that `rustc`
//! records in the object files it produces
//!
//! # References
//! - `AEABI`: Addenda to, and Errata in, the ABI for the Arm® Architecture 2025Q4

#![allow(non_camel_case_types)]

use crate::object_api::{
    attribute_data, attributes_reader, attributes_section_new, attributes_subsection_vendor,
    attributes_subsections, attributes_subsections_next, attributes_subsubsections,
    attributes_subsubsections_next, elf32_parse, elf32_section_data, elf32_sections_of,
    elf32_header_supported, elf32_section_type, elf32_sections, sections_left, spec_attributes,
    subsections_left, subsubsections_left,
    elf32_sections_next, read_integer,
    read_string, read_tag, subsubsection_attributes, uleb128, tag_error, integer_error,
    string_error,
};
use object::read::elf::AttributeReader;
use object::read::Error as ObjectError;
use vstd::prelude::*;

verus! {

/// `Tag_ABI_FP_16bit_format` [AEABI/3.3]
pub const TAG_ABI_FP_16BIT_FORMAT: u64 = 38;
/// `Tag_ABI_FP_denormal`
pub const TAG_ABI_FP_DENORMAL: u64 = 20;
/// `Tag_ABI_FP_exceptions`
pub const TAG_ABI_FP_EXCEPTIONS: u64 = 21;
/// `Tag_ABI_FP_number_model`
pub const TAG_ABI_FP_NUMBER_MODEL: u64 = 23;
/// `Tag_ABI_HardFP_use`
pub const TAG_ABI_HARDFP_USE: u64 = 27;
/// `Tag_ABI_PCS_GOT_use`
pub const TAG_ABI_PCS_GOT_USE: u64 = 17;
/// `Tag_ABI_PCS_R9_use`
pub const TAG_ABI_PCS_R9_USE: u64 = 14;
/// `Tag_ABI_VFP_args`
pub const TAG_ABI_VFP_ARGS: u64 = 28;
/// `Tag_ABI_align_needed`
pub const TAG_ABI_ALIGN_NEEDED: u64 = 24;
/// `Tag_ABI_align_preserved`
pub const TAG_ABI_ALIGN_PRESERVED: u64 = 25;
/// `Tag_ARM_ISA_use`
pub const TAG_ARM_ISA_USE: u64 = 8;
/// `Tag_CPU_arch`
pub const TAG_CPU_ARCH: u64 = 6;
/// `Tag_CPU_arch_profile`
pub const TAG_CPU_ARCH_PROFILE: u64 = 7;
/// `Tag_CPU_unaligned_access`
pub const TAG_CPU_UNALIGNED_ACCESS: u64 = 34;
/// `Tag_FP_HP_extension`
pub const TAG_FP_HP_EXTENSION: u64 = 36;
/// `Tag_FP_arch`
pub const TAG_FP_ARCH: u64 = 10;
/// `Tag_MPextension_use`
pub const TAG_MPEXTENSION_USE: u64 = 42;
/// `Tag_THUMB_ISA_use`
pub const TAG_THUMB_ISA_USE: u64 = 9;
/// `Tag_Virtualization_use`
pub const TAG_VIRTUALIZATION_USE: u64 = 68;
/// `Tag_conformance`
pub const TAG_CONFORMANCE: u64 = 67;

/// Which ABI is used to pass FP parameters/result
#[derive(Clone, Copy, Debug, PartialEq, Eq, Structural)]
#[non_exhaustive]
pub enum ABI_VFP_args {
    /// AAPCS, VFP variant. AKA "hard float"
    VFP,
}

/// The `ABI_VFP_args` that a `Tag_ABI_VFP_args` value stands for, if supported
/// [AEABI/3.3.6.2]
pub open spec fn spec_abi_vfp_args(value: u64) -> Option<ABI_VFP_args> {
    if value == 1 {
        Some(ABI_VFP_args::VFP)
    } else {
        None
    }
}

impl ABI_VFP_args {
    fn decode(value: u64) -> (r: Option<Self>)
        ensures
            r == spec_abi_vfp_args(value),
    {
        match value {
            1 => Some(ABI_VFP_args::VFP),
            _ => None,
        }
    }

    /// Decodes a supported `Tag_ABI_VFP_args` value
    pub fn from(value: u64) -> (r: Self)
        requires
            spec_abi_vfp_args(value) is Some,
        ensures
            spec_abi_vfp_args(value) == Some(r),
    {
        Self::decode(value).unwrap()
    }
}

/// Processor architecture version and architecture profile
#[derive(Clone, Copy, Debug, PartialEq, Eq, Structural)]
#[non_exhaustive]
pub enum CPU_arch {
    /// Arm v6S-M, v6-M with the System extensions
    v6S_M,
    /// ⚠️ Arm v7, e.g. Cortex-A8, Cortex-M3
    ///
    /// ⚠️ This variant does not specify a profile so you need to check `CPU_arch_profile`
    v7,
    /// Arm v7E-M, v7-M with DSP extensions
    v7E_M,
    /// Arm v8-R
    v8_R,
    /// Arm v8-M.baseline
    v8_M_baseline,
    /// Arm v8-M.mainline
    v8_M_mainline,
}

/// The `CPU_arch` that a `Tag_CPU_arch` value stands for, if supported [AEABI/3.3.5.2]
pub open spec fn spec_cpu_arch(value: u64) -> Option<CPU_arch> {
    if value == 10 {
        Some(CPU_arch::v7)
    } else if value == 12 {
        Some(CPU_arch::v6S_M)
    } else if value == 13 {
        Some(CPU_arch::v7E_M)
    } else if value == 15 {
        Some(CPU_arch::v8_R)
    } else if value == 16 {
        Some(CPU_arch::v8_M_baseline)
    } else if value == 17 {
        Some(CPU_arch::v8_M_mainline)
    } else {
        None
    }
}

impl CPU_arch {
    fn decode(value: u64) -> (r: Option<Self>)
        ensures
            r == spec_cpu_arch(value),
    {
        match value {
            10 => Some(CPU_arch::v7),
            12 => Some(CPU_arch::v6S_M),
            13 => Some(CPU_arch::v7E_M),
            15 => Some(CPU_arch::v8_R),
            16 => Some(CPU_arch::v8_M_baseline),
            17 => Some(CPU_arch::v8_M_mainline),
            _ => None,
        }
    }

    /// Decodes a supported `Tag_CPU_arch` value
    pub fn from(value: u64) -> (r: Self)
        requires
            spec_cpu_arch(value) is Some,
        ensures
            spec_cpu_arch(value) == Some(r),
    {
        Self::decode(value).unwrap()
    }
}

/// Architecture profile
#[derive(Clone, Copy, Debug, PartialEq, Eq, Structural)]
#[non_exhaustive]
pub enum CPU_arch_profile {
    /// Application profile
    A,
    /// Realtime profile
    R,
    /// Microcontroller profile
    M,
}

/// The `CPU_arch_profile` that a `Tag_CPU_arch_profile` value (an ASCII letter) stands for,
/// if supported [AEABI/3.3.5.2]
pub open spec fn spec_cpu_arch_profile(value: u64) -> Option<CPU_arch_profile> {
    if value == 0x41 {
        Some(CPU_arch_profile::A)
    } else if value == 0x52 {
        Some(CPU_arch_profile::R)
    } else if value == 0x4d {
        Some(CPU_arch_profile::M)
    } else {
        None
    }
}

impl CPU_arch_profile {
    fn decode(value: u64) -> (r: Option<Self>)
        ensures
            r == spec_cpu_arch_profile(value),
    {
        match value {
            0x41 => Some(CPU_arch_profile::A),
            0x52 => Some(CPU_arch_profile::R),
            0x4d => Some(CPU_arch_profile::M),
            _ => None,
        }
    }

    /// Decodes a supported `Tag_CPU_arch_profile` value
    pub fn from(value: u64) -> (r: Self)
        requires
            spec_cpu_arch_profile(value) is Some,
        ensures
            spec_cpu_arch_profile(value) == Some(r),
    {
        Self::decode(value).unwrap()
    }
}

/// FP ISA
#[derive(Clone, Copy, Debug, PartialEq, Eq, Structural)]
#[non_exhaustive]
pub enum FP_arch {
    /// Use of the v3 FP ISA was permitted (implies use of the v2 FP ISA)
    VFPv3,
    /// Use of the v3 FP ISA was permitted, but only citing registers D0-D15, S0-S31
    VFPv3_D16,
    /// Use of the v4 FP ISA was permitted, but only citing registers D0-D15, S0-S31
    VFPv4_D16,
    /// Use of the Arm v8-A FP ISA was permitted, but only citing registers D0-D15, S0-S31
    FP_D16,
}

/// The `FP_arch` that a `Tag_FP_arch` value stands for, if supported [AEABI/3.3.5.2]
pub open spec fn spec_fp_arch(value: u64) -> Option<FP_arch> {
    if value == 3 {
        Some(FP_arch::VFPv3)
    } else if value == 4 {
        Some(FP_arch::VFPv3_D16)
    } else if value == 6 {
        Some(FP_arch::VFPv4_D16)
    } else if value == 8 {
        Some(FP_arch::FP_D16)
    } else {
        None
    }
}

impl FP_arch {
    fn decode(value: u64) -> (r: Option<Self>)
        ensures
            r == spec_fp_arch(value),
    {
        match value {
            3 => Some(FP_arch::VFPv3),
            4 => Some(FP_arch::VFPv3_D16),
            6 => Some(FP_arch::VFPv4_D16),
            8 => Some(FP_arch::FP_D16),
            _ => None,
        }
    }

    /// Decodes a supported `Tag_FP_arch` value
    pub fn from(value: u64) -> (r: Self)
        requires
            spec_fp_arch(value) is Some,
        ensures
            spec_fp_arch(value) == Some(r),
    {
        Self::decode(value).unwrap()
    }
}

/// AEABI information
#[derive(Clone, Copy, Debug, PartialEq, Eq, Structural)]
pub struct Aeabi {
    abi_vfp_args: Option<ABI_VFP_args>,
    cpu_arch: CPU_arch,
    cpu_arch_profile: Option<CPU_arch_profile>,
    fp_arch: Option<FP_arch>,
}

impl Aeabi {
    /// The `Tag_ABI_VFP_args` attribute, if present
    pub closed spec fn spec_abi_vfp_args(&self) -> Option<ABI_VFP_args> {
        self.abi_vfp_args
    }

    /// The `Tag_CPU_arch` attribute
    pub closed spec fn spec_cpu_arch(&self) -> CPU_arch {
        self.cpu_arch
    }

    /// The `Tag_CPU_arch_profile` attribute, if present
    pub closed spec fn spec_cpu_arch_profile(&self) -> Option<CPU_arch_profile> {
        self.cpu_arch_profile
    }

    /// The `Tag_FP_arch` attribute, if present
    pub closed spec fn spec_fp_arch(&self) -> Option<FP_arch> {
        self.fp_arch
    }

    /// AEABI information made of the given attributes
    pub fn new(
        abi_vfp_args: Option<ABI_VFP_args>,
        cpu_arch: CPU_arch,
        cpu_arch_profile: Option<CPU_arch_profile>,
        fp_arch: Option<FP_arch>,
    ) -> (r: Self)
        ensures
            r.spec_abi_vfp_args() == abi_vfp_args,
            r.spec_cpu_arch() == cpu_arch,
            r.spec_cpu_arch_profile() == cpu_arch_profile,
            r.spec_fp_arch() == fp_arch,
    {
        Aeabi { abi_vfp_args, cpu_arch, cpu_arch_profile, fp_arch }
    }

    /// ABI used to pass FP parameters/results, if present
    ///
    /// The presence of this attribute could indicate that the target is either "hard float" or
    /// "soft fp"
    pub fn abi_vfp_args(&self) -> (r: Option<ABI_VFP_args>)
        ensures
            r == self.spec_abi_vfp_args(),
    {
        self.abi_vfp_args
    }

    /// Processor architecture version and architecture profile
    pub fn cpu_arch(&self) -> (r: CPU_arch)
        ensures
            r == self.spec_cpu_arch(),
    {
        self.cpu_arch
    }

    /// Architecture profile, if present
    pub fn cpu_arch_profile(&self) -> (r: Option<CPU_arch_profile>)
        ensures
            r == self.spec_cpu_arch_profile(),
    {
        self.cpu_arch_profile
    }

    /// ⚠️ FP architecture, if present
    ///
    /// ⚠️ The presence of this attribute does NOT imply that the target is a "hard float"
    /// target. Instead, use `abi_vfp_args`
    pub fn fp_arch(&self) -> (r: Option<FP_arch>)
        ensures
            r == self.spec_fp_arch(),
    {
        self.fp_arch
    }
}

/// Compilation target information
#[derive(Clone, Copy, Debug, PartialEq, Eq, Structural)]
pub struct WhoArchI {
    aeabi: Option<Aeabi>,
}

impl WhoArchI {
    /// The AEABI information (spec view)
    pub closed spec fn spec_aeabi(&self) -> Option<Aeabi> {
        self.aeabi
    }

    /// Target information with the given AEABI information
    pub fn new(aeabi: Option<Aeabi>) -> (r: Self)
        ensures
            r.spec_aeabi() == aeabi,
    {
        WhoArchI { aeabi }
    }

    /// AEABI information
    pub fn aeabi(&self) -> (r: Option<&Aeabi>)
        ensures
            match r {
                Some(a) => self.spec_aeabi() == Some(*a),
                None => self.spec_aeabi() is None,
            },
    {
        match &self.aeabi {
            Some(a) => Some(a),
            None => None,
        }
    }
}

/// Build attributes that this library does not know how to interpret
#[derive(Clone, Copy, Debug, PartialEq, Eq, Structural)]
pub enum Unsupported {
    /// The object holds more than one `aeabi` attributes sub-subsection
    MultipleAeabiSections,
    /// The attribute with this tag appeared more than once
    RepeatedTag(u64),
    /// This tag is not supported
    Tag(u64),
    /// The attribute with tag `tag` has the unsupported value `value`
    Value { tag: u64, value: u64 },
    /// `Tag_CPU_arch` was not found
    MissingCpuArch,
}

/// How the value of an attribute is encoded
#[derive(Clone, Copy, Debug, PartialEq, Eq, Structural)]
pub enum ValueKind {
    /// An unsigned LEB128 number
    Integer,
    /// A NUL-terminated string
    String,
}

/// The encoding of the value of the attribute with tag `tag`, if the tag is supported
pub open spec fn spec_value_kind(tag: u64) -> Option<ValueKind> {
    if tag == TAG_CONFORMANCE {
        Some(ValueKind::String)
    } else if tag == TAG_ABI_VFP_ARGS || tag == TAG_CPU_ARCH || tag == TAG_CPU_ARCH_PROFILE || tag
        == TAG_FP_ARCH || tag == TAG_ABI_FP_16BIT_FORMAT || tag == TAG_ABI_FP_DENORMAL || tag
        == TAG_ABI_FP_EXCEPTIONS || tag == TAG_ABI_FP_NUMBER_MODEL || tag == TAG_ABI_HARDFP_USE
        || tag == TAG_ABI_PCS_GOT_USE || tag == TAG_ABI_PCS_R9_USE || tag == TAG_ABI_ALIGN_NEEDED
        || tag == TAG_ABI_ALIGN_PRESERVED || tag == TAG_ARM_ISA_USE || tag
        == TAG_CPU_UNALIGNED_ACCESS || tag == TAG_FP_HP_EXTENSION || tag == TAG_MPEXTENSION_USE
        || tag == TAG_THUMB_ISA_USE || tag == TAG_VIRTUALIZATION_USE {
        Some(ValueKind::Integer)
    } else {
        None
    }
}

/// Returns how the value of the attribute with tag `tag` is encoded, if the tag is supported
pub fn value_kind(tag: u64) -> (r: Option<ValueKind>)
    ensures
        r == spec_value_kind(tag),
{
    match tag {
        TAG_CONFORMANCE => Some(ValueKind::String),
        TAG_ABI_VFP_ARGS | TAG_CPU_ARCH | TAG_CPU_ARCH_PROFILE | TAG_FP_ARCH
        | TAG_ABI_FP_16BIT_FORMAT | TAG_ABI_FP_DENORMAL | TAG_ABI_FP_EXCEPTIONS
        | TAG_ABI_FP_NUMBER_MODEL | TAG_ABI_HARDFP_USE | TAG_ABI_PCS_GOT_USE | TAG_ABI_PCS_R9_USE
        | TAG_ABI_ALIGN_NEEDED | TAG_ABI_ALIGN_PRESERVED | TAG_ARM_ISA_USE
        | TAG_CPU_UNALIGNED_ACCESS | TAG_FP_HP_EXTENSION | TAG_MPEXTENSION_USE
        | TAG_THUMB_ISA_USE | TAG_VIRTUALIZATION_USE => Some(ValueKind::Integer),
        _ => None,
    }
}

/// The AEABI attributes collected so far from an attributes sub-subsection
#[derive(Clone, Copy, Debug, PartialEq, Eq, Structural)]
pub struct AeabiAttributes {
    /// `Tag_ABI_VFP_args`, once seen
    pub abi_vfp_args: Option<ABI_VFP_args>,
    /// `Tag_CPU_arch`, once seen
    pub cpu_arch: Option<CPU_arch>,
    /// `Tag_CPU_arch_profile`, once seen
    pub cpu_arch_profile: Option<CPU_arch_profile>,
    /// `Tag_FP_arch`, once seen
    pub fp_arch: Option<FP_arch>,
}

/// The outcome of recording the integer attribute `tag` = `value` on top of `attrs`: each of
/// the four interpreted attributes may appear once and must have a supported value; the
/// other supported integer attributes are skipped
pub open spec fn spec_record(attrs: AeabiAttributes, tag: u64, value: u64) -> Result<
    AeabiAttributes,
    Unsupported,
> {
    if tag == TAG_ABI_VFP_ARGS {
        if attrs.abi_vfp_args is Some {
            Err(Unsupported::RepeatedTag(tag))
        } else if let Some(v) = spec_abi_vfp_args(value) {
            Ok(AeabiAttributes { abi_vfp_args: Some(v), ..attrs })
        } else {
            Err(Unsupported::Value { tag, value })
        }
    } else if tag == TAG_CPU_ARCH {
        if attrs.cpu_arch is Some {
            Err(Unsupported::RepeatedTag(tag))
        } else if let Some(v) = spec_cpu_arch(value) {
            Ok(AeabiAttributes { cpu_arch: Some(v), ..attrs })
        } else {
            Err(Unsupported::Value { tag, value })
        }
    } else if tag == TAG_CPU_ARCH_PROFILE {
        if attrs.cpu_arch_profile is Some {
            Err(Unsupported::RepeatedTag(tag))
        } else if let Some(v) = spec_cpu_arch_profile(value) {
            Ok(AeabiAttributes { cpu_arch_profile: Some(v), ..attrs })
        } else {
            Err(Unsupported::Value { tag, value })
        }
    } else if tag == TAG_FP_ARCH {
        if attrs.fp_arch is Some {
            Err(Unsupported::RepeatedTag(tag))
        } else if let Some(v) = spec_fp_arch(value) {
            Ok(AeabiAttributes { fp_arch: Some(v), ..attrs })
        } else {
            Err(Unsupported::Value { tag, value })
        }
    } else if spec_value_kind(tag) == Some(ValueKind::Integer) {
        Ok(attrs)
    } else {
        Err(Unsupported::Tag(tag))
    }
}

/// Whether the attribute `tag` is one of the four interpreted ones and is recorded in `attrs`
pub open spec fn spec_is_recorded(attrs: AeabiAttributes, tag: u64) -> bool {
    ||| tag == TAG_ABI_VFP_ARGS && attrs.abi_vfp_args is Some
    ||| tag == TAG_CPU_ARCH && attrs.cpu_arch is Some
    ||| tag == TAG_CPU_ARCH_PROFILE && attrs.cpu_arch_profile is Some
    ||| tag == TAG_FP_ARCH && attrs.fp_arch is Some
}

/// No attribute collected
pub open spec fn spec_no_attributes() -> AeabiAttributes {
    AeabiAttributes { abi_vfp_args: None, cpu_arch: None, cpu_arch_profile: None, fp_arch: None }
}

impl AeabiAttributes {
    /// No attribute collected yet
    pub fn new() -> (r: Self)
        ensures
            r == spec_no_attributes(),
    {
        AeabiAttributes { abi_vfp_args: None, cpu_arch: None, cpu_arch_profile: None, fp_arch: None }
    }

    /// Whether the attribute `tag` is one of the four interpreted ones and was recorded
    pub fn is_recorded(&self, tag: u64) -> (r: bool)
        ensures
            r == spec_is_recorded(*self, tag),
    {
        (tag == TAG_ABI_VFP_ARGS && self.abi_vfp_args.is_some()) || (tag == TAG_CPU_ARCH
            && self.cpu_arch.is_some()) || (tag == TAG_CPU_ARCH_PROFILE
            && self.cpu_arch_profile.is_some()) || (tag == TAG_FP_ARCH && self.fp_arch.is_some())
    }

    /// Records the integer attribute `tag` = `value`; on error nothing is recorded
    pub fn record(&mut self, tag: u64, value: u64) -> (r: Result<(), Unsupported>)
        ensures
            match spec_record(*old(self), tag, value) {
                Ok(next) => r is Ok && *final(self) == next,
                Err(e) => r == Err::<(), Unsupported>(e) && *final(self) == *old(self),
            },
    {
        if tag == TAG_ABI_VFP_ARGS {
            if self.abi_vfp_args.is_some() {
                return Err(Unsupported::RepeatedTag(tag));
            }
            match ABI_VFP_args::decode(value) {
                Some(v) => self.abi_vfp_args = Some(v),
                None => return Err(Unsupported::Value { tag, value }),
            }
        } else if tag == TAG_CPU_ARCH {
            if self.cpu_arch.is_some() {
                return Err(Unsupported::RepeatedTag(tag));
            }
            match CPU_arch::decode(value) {
                Some(v) => self.cpu_arch = Some(v),
                None => return Err(Unsupported::Value { tag, value }),
            }
        } else if tag == TAG_CPU_ARCH_PROFILE {
            if self.cpu_arch_profile.is_some() {
                return Err(Unsupported::RepeatedTag(tag));
            }
            match CPU_arch_profile::decode(value) {
                Some(v) => self.cpu_arch_profile = Some(v),
                None => return Err(Unsupported::Value { tag, value }),
            }
        } else if tag == TAG_FP_ARCH {
            if self.fp_arch.is_some() {
                return Err(Unsupported::RepeatedTag(tag));
            }
            match FP_arch::decode(value) {
                Some(v) => self.fp_arch = Some(v),
                None => return Err(Unsupported::Value { tag, value }),
            }
        } else if value_kind(tag) != Some(ValueKind::Integer) {
            return Err(Unsupported::Tag(tag));
        }
        Ok(())
    }

    /// The AEABI information made of the collected attributes; `Tag_CPU_arch` is mandatory
    pub fn finish(self) -> (r: Result<Aeabi, Unsupported>)
        ensures
            match self.cpu_arch {
                Some(cpu_arch) => r matches Ok(aeabi) && aeabi.spec_cpu_arch() == cpu_arch
                    && aeabi.spec_abi_vfp_args() == self.abi_vfp_args
                    && aeabi.spec_cpu_arch_profile() == self.cpu_arch_profile
                    && aeabi.spec_fp_arch() == self.fp_arch,
                None => r == Err::<Aeabi, Unsupported>(Unsupported::MissingCpuArch),
            },
    {
        match self.cpu_arch {
            Some(cpu_arch) => Ok(
                Aeabi {
                    abi_vfp_args: self.abi_vfp_args,
                    cpu_arch,
                    cpu_arch_profile: self.cpu_arch_profile,
                    fp_arch: self.fp_arch,
                },
            ),
            None => Err(Unsupported::MissingCpuArch),
        }
    }
}

/// The index of the first NUL byte of `data`, or its length where there is none
pub open spec fn first_nul(data: Seq<u8>) -> nat
    decreases data.len(),
{
    if data.len() == 0 {
        0
    } else if data[0] == 0 {
        0
    } else {
        1 + first_nul(data.drop_first())
    }
}

/// Why the attributes of a sub-subsection, or an object file, were refused
#[derive(Clone, Copy, Debug)]
pub enum Refused {
    /// The bytes are malformed: the error of the first read of `object` that failed
    Malformed(ObjectError),
    /// The attributes are well-formed but not supported
    Unsupported(Unsupported),
}

/// Reads the attributes in `data` on top of the ones collected in `attrs`, one at a time:
/// a tag (an unsigned LEB128 number), then its value, an unsigned LEB128 number or, for
/// `Tag_conformance`, a NUL-terminated string. Gives what was collected once no byte is
/// left, or the first reason to refuse the attributes
pub open spec fn spec_read_attributes(data: Seq<u8>, attrs: AeabiAttributes) -> Result<
    AeabiAttributes,
    Refused,
>
    decreases data.len(),
{
    if data.len() == 0 {
        Ok(attrs)
    } else {
        match uleb128(data) {
            None => Err(Refused::Malformed(tag_error(data))),
            Some((tag, len)) => {
                if len < 1 || len > data.len() {
                    Err(Refused::Malformed(tag_error(data)))
                } else {
                    let rest = data.skip(len as int);
                    match spec_value_kind(tag) {
                        Some(ValueKind::Integer) => {
                            if spec_is_recorded(attrs, tag) {
                                Err(Refused::Unsupported(Unsupported::RepeatedTag(tag)))
                            } else {
                                match uleb128(rest) {
                                    None => Err(Refused::Malformed(integer_error(rest))),
                                    Some((value, value_len)) => {
                                        if value_len < 1 || value_len > rest.len() {
                                            Err(Refused::Malformed(integer_error(rest)))
                                        } else {
                                            match spec_record(attrs, tag, value) {
                                                Ok(next) => spec_read_attributes(
                                                    rest.skip(value_len as int),
                                                    next,
                                                ),
                                                Err(e) => Err(Refused::Unsupported(e)),
                                            }
                                        }
                                    },
                                }
                            }
                        },
                        Some(ValueKind::String) => {
                            let nul = first_nul(rest);
                            if nul < rest.len() {
                                spec_read_attributes(rest.skip(nul + 1int), attrs)
                            } else {
                                Err(Refused::Malformed(string_error(rest)))
                            }
                        },
                        None => Err(Refused::Unsupported(Unsupported::Tag(tag))),
                    }
                }
            },
        }
    }
}

/// What reading the AEABI information from the attribute bytes `data` gives: the collected
/// attributes, of which `Tag_CPU_arch` is mandatory, or why they were refused
pub open spec fn spec_aeabi_of(data: Seq<u8>) -> Result<AeabiAttributes, Refused> {
    match spec_read_attributes(data, spec_no_attributes()) {
        Ok(attrs) => if attrs.cpu_arch is Some {
            Ok(attrs)
        } else {
            Err(Refused::Unsupported(Unsupported::MissingCpuArch))
        },
        Err(e) => Err(e),
    }
}

/// `first_nul` is the position of the first NUL byte, if there is one
proof fn lemma_first_nul(data: Seq<u8>)
    ensures
        first_nul(data) <= data.len(),
        forall|j: int| 0 <= j < first_nul(data) ==> data[j] != 0,
        first_nul(data) < data.len() ==> data[first_nul(data) as int] == 0,
    decreases data.len(),
{
    if data.len() > 0 && data[0] != 0 {
        lemma_first_nul(data.drop_first());
        assert forall|j: int| 0 <= j < first_nul(data) implies data[j] != 0 by {
            if j > 0 {
                assert(data[j] == data.drop_first()[j - 1]);
            }
        }
    }
}

/// A string and its terminator, split off the front of `data`, end at its first NUL
proof fn lemma_string_split(data: Seq<u8>, s: Seq<u8>, tail: Seq<u8>)
    requires
        data == s + seq![0u8] + tail,
        !s.contains(0u8),
    ensures
        first_nul(data) == s.len(),
        data.skip(s.len() + 1int) == tail,
{
    lemma_first_nul(data);
    assert(data[s.len() as int] == 0);
    if first_nul(data) < s.len() {
        assert(s[first_nul(data) as int] == data[first_nul(data) as int]);
        assert(s.contains(0u8));
    }
    assert(data.skip(s.len() + 1int) =~= tail);
}

/// `aeabi` is the AEABI information that the collected attributes `attrs` amount to
pub open spec fn spec_made_of(aeabi: Aeabi, attrs: AeabiAttributes) -> bool {
    &&& attrs.cpu_arch == Some(aeabi.spec_cpu_arch())
    &&& attrs.abi_vfp_args == aeabi.spec_abi_vfp_args()
    &&& attrs.cpu_arch_profile == aeabi.spec_cpu_arch_profile()
    &&& attrs.fp_arch == aeabi.spec_fp_arch()
}

/// Error
#[derive(Debug)]
#[non_exhaustive]
pub enum Error {
    /// Object parsing error
    Object(object::read::Error),
    /// Build attributes that are not supported
    Unsupported(Unsupported),
}

/// The ELF section type of ARM build attributes sections (`SHT_ARM_ATTRIBUTES`)
pub const SHT_ARM_ATTRIBUTES: u32 = 0x7000_0003;

/// The vendor name of the ARM EABI attributes subsection
pub open spec fn spec_aeabi_vendor() -> Seq<u8> {
    seq![0x61u8, 0x65u8, 0x61u8, 0x62u8, 0x69u8]
}

/// Returns whether `vendor` is `aeabi`
pub fn is_aeabi_vendor(vendor: &[u8]) -> (r: bool)
    ensures
        r == (vendor@ == spec_aeabi_vendor()),
{
    let r = vendor.len() == 5 && vendor[0] == 0x61 && vendor[1] == 0x65 && vendor[2] == 0x61
        && vendor[3] == 0x62 && vendor[4] == 0x69;
    proof {
        if r {
            assert(vendor@ =~= spec_aeabi_vendor());
        }
    }
    r
}

impl Aeabi {
    /// Reads the AEABI information from the attributes of an `aeabi` attributes
    /// sub-subsection
    ///
    /// Malformed attributes give the `object` error; attributes that are not supported
    /// give the reason. Otherwise the result is made of the attributes read
    pub fn check_attributes(attributes: AttributeReader<'_>) -> (r: Result<Aeabi, Error>)
        ensures
            match spec_aeabi_of(attribute_data(attributes)) {
                Ok(attrs) => r matches Ok(aeabi) && spec_made_of(aeabi, attrs),
                Err(Refused::Malformed(e)) => r == Err::<Aeabi, Error>(Error::Object(e)),
                Err(Refused::Unsupported(e)) => r matches Err(Error::Unsupported(u)) && u == e,
            },
    {
        let mut reader = attributes;
        let mut collected = AeabiAttributes::new();
        let ghost outcome = spec_read_attributes(attribute_data(attributes), spec_no_attributes());
        loop
            invariant
                outcome == spec_read_attributes(attribute_data(attributes), spec_no_attributes()),
                spec_read_attributes(attribute_data(reader), collected) == outcome,
            ensures
                outcome == Ok::<AeabiAttributes, Refused>(collected),
            decreases attribute_data(reader).len(),
        {
            let ghost data = attribute_data(reader);
            let tag = match read_tag(&mut reader) {
                Ok(Some(tag)) => tag,
                Ok(None) => break,
                Err(e) => return Err(Error::Object(e)),
            };
            let ghost rest = attribute_data(reader);
            match value_kind(tag) {
                Some(ValueKind::Integer) => {
                    if collected.is_recorded(tag) {
                        return Err(Error::Unsupported(Unsupported::RepeatedTag(tag)));
                    }
                    let value = match read_integer(&mut reader) {
                        Ok(value) => value,
                        Err(e) => return Err(Error::Object(e)),
                    };
                    match collected.record(tag, value) {
                        Ok(()) => {},
                        Err(e) => return Err(Error::Unsupported(e)),
                    }
                },
                Some(ValueKind::String) => {
                    match read_string(&mut reader) {
                        Ok(s) => {
                            proof {
                                lemma_string_split(rest, s@, attribute_data(reader));
                            }
                        },
                        Err(e) => {
                            proof {
                                lemma_first_nul(rest);
                                if first_nul(rest) < rest.len() {
                                    assert(rest.contains(0u8));
                                }
                            }
                            return Err(Error::Object(e));
                        },
                    }
                },
                None => return Err(Error::Unsupported(Unsupported::Tag(tag))),
            }
        }
        match collected.finish() {
            Ok(aeabi) => Ok(aeabi),
            Err(e) => Err(Error::Unsupported(e)),
        }
    }
}

impl Aeabi {
    /// Reads the AEABI information from the attributes of an `aeabi` attributes
    /// sub-subsection whose attributes are all supported (`Tag_CPU_arch` among them; each
    /// interpreted attribute at most once, with a supported value): the only error left is a
    /// malformed attribute, which gives the `object` error
    pub fn try_from(attributes: AttributeReader<'_>) -> (r: Result<Aeabi, Error>)
        requires
            !(spec_aeabi_of(attribute_data(attributes)) matches Err(Refused::Unsupported(_))),
        ensures
            match spec_aeabi_of(attribute_data(attributes)) {
                Ok(attrs) => r matches Ok(aeabi) && spec_made_of(aeabi, attrs),
                Err(Refused::Malformed(e)) => r == Err::<Aeabi, Error>(Error::Object(e)),
                Err(Refused::Unsupported(_)) => false,
            },
    {
        Aeabi::check_attributes(attributes)
    }
}

/// The vendor name `aeabi`
pub open spec fn spec_is_aeabi(vendor: Seq<u8>) -> bool {
    vendor == spec_aeabi_vendor()
}

/// What reading the sub-subsections whose attribute bytes are `subsubsections` gives, on top
/// of the AEABI attributes `found` so far; `fails` tells whether their iteration ends in an
/// error. A second `aeabi` sub-subsection is refused
pub open spec fn scan_subsubsections(
    subsubsections: Seq<Seq<u8>>,
    fails: Option<ObjectError>,
    found: Option<AeabiAttributes>,
) -> Result<Option<AeabiAttributes>, Refused>
    decreases subsubsections.len(),
{
    if subsubsections.len() == 0 {
        match fails {
            Some(e) => Err(Refused::Malformed(e)),
            None => Ok(found),
        }
    } else if found is Some {
        Err(Refused::Unsupported(Unsupported::MultipleAeabiSections))
    } else {
        match spec_aeabi_of(subsubsections[0]) {
            Ok(attrs) => scan_subsubsections(subsubsections.drop_first(), fails, Some(attrs)),
            Err(e) => Err(e),
        }
    }
}

/// What reading the subsections `subsections` of an attributes section gives, on top of
/// `found`: only the sub-subsections of `aeabi` subsections are read
pub open spec fn scan_subsections(
    subsections: Seq<(Seq<u8>, Seq<Seq<u8>>, Option<ObjectError>)>,
    fails: Option<ObjectError>,
    found: Option<AeabiAttributes>,
) -> Result<Option<AeabiAttributes>, Refused>
    decreases subsections.len(),
{
    if subsections.len() == 0 {
        match fails {
            Some(e) => Err(Refused::Malformed(e)),
            None => Ok(found),
        }
    } else {
        let s = subsections[0];
        let here = if spec_is_aeabi(s.0) {
            scan_subsubsections(s.1, s.2, found)
        } else {
            Ok(found)
        };
        match here {
            Ok(next) => scan_subsections(subsections.drop_first(), fails, next),
            Err(e) => Err(e),
        }
    }
}

/// What reading the sections `sections` gives, on top of `found`: only the attributes
/// sections (`SHT_ARM_ATTRIBUTES`) are read
pub open spec fn scan_sections(
    sections: Seq<(u32, Result<Seq<u8>, ObjectError>, bool)>,
    found: Option<AeabiAttributes>,
) -> Result<Option<AeabiAttributes>, Refused>
    decreases sections.len(),
{
    if sections.len() == 0 {
        Ok(found)
    } else {
        let s = sections[0];
        if s.0 != SHT_ARM_ATTRIBUTES {
            scan_sections(sections.drop_first(), found)
        } else {
            match s.1 {
                Err(e) => Err(Refused::Malformed(e)),
                Ok(data) => match spec_attributes(data, s.2) {
                    Err(e) => Err(Refused::Malformed(e)),
                    Ok((subsections, fails)) => match scan_subsections(
                        subsections,
                        fails,
                        found,
                    ) {
                        Ok(next) => scan_sections(sections.drop_first(), next),
                        Err(e) => Err(e),
                    },
                },
            }
        }
    }
}

/// Continues `scan_sections` over `sections` from the outcome `r` of what came before
pub open spec fn then_sections(
    r: Result<Option<AeabiAttributes>, Refused>,
    sections: Seq<(u32, Result<Seq<u8>, ObjectError>, bool)>,
) -> Result<Option<AeabiAttributes>, Refused> {
    match r {
        Ok(found) => scan_sections(sections, found),
        Err(e) => Err(e),
    }
}

/// Continues `scan_subsections` and then `scan_sections` from the outcome `r`
pub open spec fn then_subsections(
    r: Result<Option<AeabiAttributes>, Refused>,
    subsections: Seq<(Seq<u8>, Seq<Seq<u8>>, Option<ObjectError>)>,
    fails: Option<ObjectError>,
    sections: Seq<(u32, Result<Seq<u8>, ObjectError>, bool)>,
) -> Result<Option<AeabiAttributes>, Refused> {
    match r {
        Ok(found) => then_sections(scan_subsections(subsections, fails, found), sections),
        Err(e) => Err(e),
    }
}

/// What identifying the object file `object` gives: no AEABI information where it is not a
/// 32-bit ELF file; otherwise the AEABI attributes of its one `aeabi` sub-subsection (none
/// where there is none), or why the object was refused
pub open spec fn spec_whoarchi(object: Seq<u8>) -> Result<Option<AeabiAttributes>, Refused> {
    match elf32_sections_of(object) {
        None => Ok(None),
        Some(sections) => scan_sections(sections, None),
    }
}

/// `aeabi` is the AEABI information that `found` amounts to
pub open spec fn spec_found(aeabi: Option<Aeabi>, found: Option<AeabiAttributes>) -> bool {
    match aeabi {
        None => found is None,
        Some(a) => found matches Some(attrs) && spec_made_of(a, attrs),
    }
}

/// The outcome that `identify` reaches on `object`, as a result
pub open spec fn spec_identified(object: Seq<u8>, r: Result<WhoArchI, Error>) -> bool {
    match spec_whoarchi(object) {
        Ok(found) => r matches Ok(w) && spec_found(w.spec_aeabi(), found),
        Err(Refused::Malformed(e)) => r == Err::<WhoArchI, Error>(Error::Object(e)),
        Err(Refused::Unsupported(e)) => r matches Err(Error::Unsupported(u)) && u == e,
    }
}

/// Identifies the compilation target of the object file `object`, where it can: gives the
/// reason where its build attributes are not supported
pub fn try_whoarchi(object: &[u8]) -> (r: Result<WhoArchI, Error>)
    ensures
        !elf32_header_supported(object@) ==> (r matches Ok(w) && w.spec_aeabi() is None),
        spec_identified(object@, r),
{
    let r = identify(object);
    match r {
        Err(Error::Unsupported(_)) => r,
        _ => whoarchi(object),
    }
}

/// Identifies the compilation target of the object file `object` (as produced by `rustc`),
/// whose build attributes are supported (see `try_whoarchi`)
///
/// Targets whose objects are not 32-bit ELF files carry no AEABI information. A 32-bit ELF
/// object holds at most one `aeabi` attributes sub-subsection, from which the AEABI
/// information is read; the only error left is a malformed object
pub fn whoarchi(object: &[u8]) -> (r: Result<WhoArchI, Error>)
    requires
        !(spec_whoarchi(object@) matches Err(Refused::Unsupported(_))),
    ensures
        !elf32_header_supported(object@) ==> (r matches Ok(w) && w.spec_aeabi() is None),
        spec_identified(object@, r),
        !(r matches Err(Error::Unsupported(_))),
{
    identify(object)
}

/// Reads the AEABI information of the object file `object`
fn identify(object: &[u8]) -> (r: Result<WhoArchI, Error>)
    ensures
        !elf32_header_supported(object@) ==> (r matches Ok(w) && w.spec_aeabi() is None),
        match spec_whoarchi(object@) {
            Ok(found) => r matches Ok(w) && spec_found(w.spec_aeabi(), found),
            Err(Refused::Malformed(e)) => r == Err::<WhoArchI, Error>(Error::Object(e)),
            Err(Refused::Unsupported(e)) => r matches Err(Error::Unsupported(u)) && u == e,
        },
{
    let mut aeabi: Option<Aeabi> = None;
    let ghost outcome = spec_whoarchi(object@);
    if let Ok(file) = elf32_parse(object) {
        let mut sections = elf32_sections(&file);
        let ghost mut found: Option<AeabiAttributes> = None;
        loop
            invariant
                elf32_header_supported(object@),
                outcome == spec_whoarchi(object@),
                outcome == scan_sections(sections_left(sections), found),
                spec_found(aeabi, found),
            ensures
                outcome == Ok::<Option<AeabiAttributes>, Refused>(found),
                spec_found(aeabi, found),
            decreases sections_left(sections).len(),
        {
            let ghost all = sections_left(sections);
            let section = match elf32_sections_next(&mut sections) {
                Some(section) => section,
                None => break,
            };
            let ghost rest = sections_left(sections);
            if elf32_section_type(&section) == SHT_ARM_ATTRIBUTES {
                let data = match elf32_section_data(&section) {
                    Ok(data) => data,
                    Err(e) => return Err(Error::Object(e)),
                };
                let attrs = match attributes_section_new(&section, data) {
                    Ok(attrs) => attrs,
                    Err(e) => return Err(Error::Object(e)),
                };
                let mut subsections = match attributes_subsections(&attrs) {
                    Ok(subsections) => subsections,
                    Err(e) => return Err(Error::Object(e)),
                };
                loop
                    invariant
                        elf32_header_supported(object@),
                        outcome == spec_whoarchi(object@),
                        outcome == then_sections(
                            scan_subsections(
                                subsections_left(subsections).0,
                                subsections_left(subsections).1,
                                found,
                            ),
                            rest,
                        ),
                        spec_found(aeabi, found),
                    ensures
                        outcome == scan_sections(rest, found),
                        spec_found(aeabi, found),
                    decreases subsections_left(subsections).0.len(),
                {
                    let ghost subs = subsections_left(subsections);
                    let subsection = match attributes_subsections_next(&mut subsections) {
                        Ok(Some(subsection)) => subsection,
                        Ok(None) => break,
                        Err(e) => return Err(Error::Object(e)),
                    };
                    let ghost more = subsections_left(subsections);
                    if is_aeabi_vendor(attributes_subsection_vendor(&subsection)) {
                        let mut subsubsections = attributes_subsubsections(&subsection);
                        loop
                            invariant
                                elf32_header_supported(object@),
                                outcome == spec_whoarchi(object@),
                                outcome == then_subsections(
                                    scan_subsubsections(
                                        subsubsections_left(subsubsections).0,
                                        subsubsections_left(subsubsections).1,
                                        found,
                                    ),
                                    more.0,
                                    more.1,
                                    rest,
                                ),
                                spec_found(aeabi, found),
                            ensures
                                outcome == then_sections(
                                    scan_subsections(more.0, more.1, found),
                                    rest,
                                ),
                                spec_found(aeabi, found),
                            decreases subsubsections_left(subsubsections).0.len(),
                        {
                            let subsubsection = match attributes_subsubsections_next(
                                &mut subsubsections,
                            ) {
                                Ok(Some(subsubsection)) => subsubsection,
                                Ok(None) => break,
                                Err(e) => return Err(Error::Object(e)),
                            };
                            if aeabi.is_some() {
                                return Err(Error::Unsupported(Unsupported::MultipleAeabiSections));
                            }
                            match Aeabi::check_attributes(attributes_reader(&subsubsection)) {
                                Ok(a) => {
                                    proof {
                                        found = Some(
                                            spec_aeabi_of(
                                                subsubsection_attributes(subsubsection),
                                            )->Ok_0,
                                        );
                                    }
                                    aeabi = Some(a);
                                },
                                Err(e) => return Err(e),
                            }
                        }
                    }
                }
            }
        }
    }
    Ok(WhoArchI { aeabi })
}

/// Each of the four interpreted attributes may appear at most once: once recorded, recording
/// the same tag again is refused
pub proof fn law_interpreted_tag_at_most_once(attrs: AeabiAttributes, tag: u64, first: u64, second: u64)
    requires
        tag == TAG_ABI_VFP_ARGS || tag == TAG_CPU_ARCH || tag == TAG_CPU_ARCH_PROFILE || tag
            == TAG_FP_ARCH,
        spec_record(attrs, tag, first) is Ok,
    ensures
        spec_record(spec_record(attrs, tag, first)->Ok_0, tag, second) == Err::<
            AeabiAttributes,
            Unsupported,
        >(Unsupported::RepeatedTag(tag)),
{
}

/// The order in which two supported attributes with different tags are recorded does not
/// matter: recording them either way succeeds alike and collects the same attributes; and
/// each interpreted attribute keeps the value it was recorded with
pub proof fn law_record_order_irrelevant(
    attrs: AeabiAttributes,
    t1: u64,
    v1: u64,
    t2: u64,
    v2: u64,
)
    requires
        t1 != t2,
        spec_record(attrs, t1, v1) is Ok,
        spec_record(spec_record(attrs, t1, v1)->Ok_0, t2, v2) is Ok,
    ensures
        spec_record(attrs, t2, v2) is Ok,
        spec_record(spec_record(attrs, t2, v2)->Ok_0, t1, v1) == spec_record(
            spec_record(attrs, t1, v1)->Ok_0,
            t2,
            v2,
        ),
        t1 == TAG_CPU_ARCH ==> spec_record(attrs, t1, v1)->Ok_0.cpu_arch == spec_cpu_arch(v1),
        t1 == TAG_CPU_ARCH_PROFILE ==> spec_record(attrs, t1, v1)->Ok_0.cpu_arch_profile
            == spec_cpu_arch_profile(v1),
        t1 == TAG_FP_ARCH ==> spec_record(attrs, t1, v1)->Ok_0.fp_arch == spec_fp_arch(v1),
        t1 == TAG_ABI_VFP_ARGS ==> spec_record(attrs, t1, v1)->Ok_0.abi_vfp_args
            == spec_abi_vfp_args(v1),
{
}

/// The integer attributes of the attribute bytes `data`, as (tag, value) pairs in order,
/// where `data` is a well-formed stream of supported attributes: each tag is one of the
/// supported tags, followed by an unsigned LEB128 value or, for `Tag_conformance`, by a
/// NUL-terminated string (which is skipped). Nothing for any other stream
pub open spec fn spec_pairs(data: Seq<u8>) -> Option<Seq<(u64, u64)>>
    decreases data.len(),
{
    if data.len() == 0 {
        Some(Seq::empty())
    } else {
        match uleb128(data) {
            None => None,
            Some((tag, len)) => {
                if len < 1 || len > data.len() {
                    None
                } else {
                    let rest = data.skip(len as int);
                    match spec_value_kind(tag) {
                        Some(ValueKind::Integer) => match uleb128(rest) {
                            None => None,
                            Some((value, value_len)) => {
                                if value_len < 1 || value_len > rest.len() {
                                    None
                                } else {
                                    match spec_pairs(rest.skip(value_len as int)) {
                                        Some(more) => Some(seq![(tag, value)] + more),
                                        None => None,
                                    }
                                }
                            },
                        },
                        Some(ValueKind::String) => {
                            let nul = first_nul(rest);
                            if nul < rest.len() {
                                spec_pairs(rest.skip(nul + 1int))
                            } else {
                                None
                            }
                        },
                        None => None,
                    }
                }
            },
        }
    }
}

/// Recording the integer attributes `pairs`, in order, on top of `attrs`
pub open spec fn spec_collect(attrs: AeabiAttributes, pairs: Seq<(u64, u64)>) -> Result<
    AeabiAttributes,
    Unsupported,
>
    decreases pairs.len(),
{
    if pairs.len() == 0 {
        Ok(attrs)
    } else {
        match spec_record(attrs, pairs[0].0, pairs[0].1) {
            Ok(next) => spec_collect(next, pairs.drop_first()),
            Err(e) => Err(e),
        }
    }
}

/// `tag` is one of the four attributes that the AEABI information is made of
pub open spec fn interpreted(tag: u64) -> bool {
    tag == TAG_CPU_ARCH || tag == TAG_CPU_ARCH_PROFILE || tag == TAG_FP_ARCH || tag
        == TAG_ABI_VFP_ARGS
}

/// The value of the first pair of `pairs` with tag `tag`, if any
pub open spec fn value_of(pairs: Seq<(u64, u64)>, tag: u64) -> Option<u64>
    decreases pairs.len(),
{
    if pairs.len() == 0 {
        None
    } else if pairs[0].0 == tag {
        Some(pairs[0].1)
    } else {
        value_of(pairs.drop_first(), tag)
    }
}

/// Pairs in which each interpreted attribute occurs at most once and has a value that is
/// understood
pub open spec fn supported_pairs(pairs: Seq<(u64, u64)>) -> bool {
    &&& forall|i: int, j: int|
        0 <= i < j < pairs.len() && #[trigger] pairs[i].0 == #[trigger] pairs[j].0 ==> !interpreted(
            pairs[i].0,
        )
    &&& forall|i: int|
        0 <= i < pairs.len() ==> {
            let (tag, value) = #[trigger] pairs[i];
            &&& tag == TAG_CPU_ARCH ==> spec_cpu_arch(value) is Some
            &&& tag == TAG_CPU_ARCH_PROFILE ==> spec_cpu_arch_profile(value) is Some
            &&& tag == TAG_FP_ARCH ==> spec_fp_arch(value) is Some
            &&& tag == TAG_ABI_VFP_ARGS ==> spec_abi_vfp_args(value) is Some
        }
}

/// The decoded value of the interpreted attribute `tag` in `pairs`, or `otherwise` where it
/// does not occur
pub open spec fn decoded_cpu_arch(pairs: Seq<(u64, u64)>, otherwise: Option<CPU_arch>) -> Option<
    CPU_arch,
> {
    match value_of(pairs, TAG_CPU_ARCH) {
        Some(v) => spec_cpu_arch(v),
        None => otherwise,
    }
}

/// See `decoded_cpu_arch`
pub open spec fn decoded_cpu_arch_profile(
    pairs: Seq<(u64, u64)>,
    otherwise: Option<CPU_arch_profile>,
) -> Option<CPU_arch_profile> {
    match value_of(pairs, TAG_CPU_ARCH_PROFILE) {
        Some(v) => spec_cpu_arch_profile(v),
        None => otherwise,
    }
}

/// See `decoded_cpu_arch`
pub open spec fn decoded_fp_arch(pairs: Seq<(u64, u64)>, otherwise: Option<FP_arch>) -> Option<
    FP_arch,
> {
    match value_of(pairs, TAG_FP_ARCH) {
        Some(v) => spec_fp_arch(v),
        None => otherwise,
    }
}

/// See `decoded_cpu_arch`
pub open spec fn decoded_abi_vfp_args(
    pairs: Seq<(u64, u64)>,
    otherwise: Option<ABI_VFP_args>,
) -> Option<ABI_VFP_args> {
    match value_of(pairs, TAG_ABI_VFP_ARGS) {
        Some(v) => spec_abi_vfp_args(v),
        None => otherwise,
    }
}

/// Reading a well-formed stream of supported attributes is recording its integer pairs
proof fn lemma_read_is_collect(data: Seq<u8>, attrs: AeabiAttributes)
    requires
        spec_pairs(data) is Some,
    ensures
        spec_read_attributes(data, attrs) == match spec_collect(attrs, spec_pairs(data)->Some_0) {
            Ok(collected) => Ok::<AeabiAttributes, Refused>(collected),
            Err(e) => Err(Refused::Unsupported(e)),
        },
    decreases data.len(),
{
    if data.len() > 0 {
        let (tag, len) = uleb128(data)->Some_0;
        let rest = data.skip(len as int);
        if spec_value_kind(tag) == Some(ValueKind::Integer) {
            let (value, value_len) = uleb128(rest)->Some_0;
            let after = rest.skip(value_len as int);
            let more = spec_pairs(after)->Some_0;
            let pairs = seq![(tag, value)] + more;
            assert(pairs.drop_first() =~= more);
            assert(pairs[0] == (tag, value));
            if !spec_is_recorded(attrs, tag) {
                match spec_record(attrs, tag, value) {
                    Ok(next) => {
                        lemma_read_is_collect(after, next);
                    },
                    Err(e) => {},
                }
            }
        } else {
            lemma_read_is_collect(rest.skip(first_nul(rest) + 1int), attrs);
        }
    }
}

/// Every pair of a well-formed stream of supported attributes has an integer tag
proof fn lemma_pairs_are_integers(data: Seq<u8>)
    requires
        spec_pairs(data) is Some,
    ensures
        forall|i: int|
            0 <= i < spec_pairs(data)->Some_0.len() ==> spec_value_kind(
                #[trigger] spec_pairs(data)->Some_0[i].0,
            ) == Some(ValueKind::Integer),
    decreases data.len(),
{
    if data.len() > 0 {
        let (tag, len) = uleb128(data)->Some_0;
        let rest = data.skip(len as int);
        if spec_value_kind(tag) == Some(ValueKind::Integer) {
            let (value, value_len) = uleb128(rest)->Some_0;
            let after = rest.skip(value_len as int);
            lemma_pairs_are_integers(after);
            let more = spec_pairs(after)->Some_0;
            let pairs = seq![(tag, value)] + more;
            assert forall|i: int| 0 <= i < pairs.len() implies spec_value_kind(
                #[trigger] pairs[i].0,
            ) == Some(ValueKind::Integer) by {
                if i > 0 {
                    assert(pairs[i] == more[i - 1]);
                }
            }
        } else {
            lemma_pairs_are_integers(rest.skip(first_nul(rest) + 1int));
        }
    }
}

/// Recording supported pairs, none of whose interpreted attributes is recorded yet, succeeds,
/// and each interpreted attribute ends up with the decoded value of its pair, or as it was
proof fn lemma_collect_supported(attrs: AeabiAttributes, pairs: Seq<(u64, u64)>)
    requires
        supported_pairs(pairs),
        forall|i: int|
            0 <= i < pairs.len() ==> spec_value_kind(#[trigger] pairs[i].0) == Some(
                ValueKind::Integer,
            ),
        forall|i: int|
            0 <= i < pairs.len() && interpreted(#[trigger] pairs[i].0) ==> !spec_is_recorded(
                attrs,
                pairs[i].0,
            ),
    ensures
        spec_collect(attrs, pairs) matches Ok(r) && r.cpu_arch == decoded_cpu_arch(
            pairs,
            attrs.cpu_arch,
        ) && r.cpu_arch_profile == decoded_cpu_arch_profile(pairs, attrs.cpu_arch_profile)
            && r.fp_arch == decoded_fp_arch(pairs, attrs.fp_arch) && r.abi_vfp_args
            == decoded_abi_vfp_args(pairs, attrs.abi_vfp_args),
    decreases pairs.len(),
{
    if pairs.len() > 0 {
        let (tag, value) = pairs[0];
        let rest = pairs.drop_first();
        assert(spec_value_kind(pairs[0].0) == Some(ValueKind::Integer));
        let next = spec_record(attrs, tag, value)->Ok_0;
        assert(spec_record(attrs, tag, value) is Ok);
        assert forall|i: int| 0 <= i < rest.len() implies spec_value_kind(#[trigger] rest[i].0)
            == Some(ValueKind::Integer) by {
            assert(rest[i] == pairs[i + 1]);
        }
        assert forall|i: int, j: int|
            0 <= i < j < rest.len() && #[trigger] rest[i].0 == #[trigger] rest[j].0 implies !interpreted(
            rest[i].0,
        ) by {
            assert(rest[i] == pairs[i + 1] && rest[j] == pairs[j + 1]);
        }
        assert forall|i: int| 0 <= i < rest.len() implies {
            let (tag, value) = #[trigger] rest[i];
            &&& tag == TAG_CPU_ARCH ==> spec_cpu_arch(value) is Some
            &&& tag == TAG_CPU_ARCH_PROFILE ==> spec_cpu_arch_profile(value) is Some
            &&& tag == TAG_FP_ARCH ==> spec_fp_arch(value) is Some
            &&& tag == TAG_ABI_VFP_ARGS ==> spec_abi_vfp_args(value) is Some
        } by {
            assert(rest[i] == pairs[i + 1]);
        }
        assert forall|i: int|
            0 <= i < rest.len() && interpreted(#[trigger] rest[i].0) implies !spec_is_recorded(
            next,
            rest[i].0,
        ) by {
            assert(rest[i] == pairs[i + 1]);
            assert(pairs[0].0 != pairs[i + 1].0);
        }
        lemma_collect_supported(next, rest);
        if interpreted(tag) {
            assert(value_of(rest, tag) is None) by {
                if value_of(rest, tag) is Some {
                    lemma_value_of(rest, tag);
                    let j = choose|j: int| 0 <= j < rest.len() && rest[j].0 == tag;
                    assert(pairs[j + 1].0 == pairs[0].0);
                }
            }
        }
    }
}

/// `value_of` finds a pair with the tag wherever there is one
proof fn lemma_value_of(pairs: Seq<(u64, u64)>, tag: u64)
    ensures
        value_of(pairs, tag) is Some <==> exists|j: int| 0 <= j < pairs.len() && pairs[j].0 == tag,
        value_of(pairs, tag) matches Some(v) ==> pairs.contains((tag, v)),
    decreases pairs.len(),
{
    if pairs.len() > 0 {
        let rest = pairs.drop_first();
        lemma_value_of(rest, tag);
        if exists|j: int| 0 <= j < pairs.len() && pairs[j].0 == tag {
            let j = choose|j: int| 0 <= j < pairs.len() && pairs[j].0 == tag;
            if j > 0 && pairs[0].0 != tag {
                assert(rest[j - 1].0 == tag);
            }
        }
        if pairs[0].0 != tag {
            if exists|j: int| 0 <= j < rest.len() && rest[j].0 == tag {
                let j = choose|j: int| 0 <= j < rest.len() && rest[j].0 == tag;
                assert(pairs[j + 1].0 == tag);
            }
            if let Some(v) = value_of(rest, tag) {
                let j = choose|j: int| 0 <= j < rest.len() && rest[j] == (tag, v);
                assert(pairs[j + 1] == (tag, v));
            }
        } else {
            assert(pairs[0] == (tag, pairs[0].1));
        }
    }
}

/// A well-formed stream of supported attributes, in which each interpreted attribute occurs
/// at most once with a value that is understood and `Tag_CPU_arch` occurs, gives the AEABI
/// information made of the decoded values of its interpreted attributes (an attribute that
/// does not occur gives none); the other attributes are ignored
pub proof fn law_supported_attributes_determine_aeabi(data: Seq<u8>)
    requires
        spec_pairs(data) matches Some(pairs) && supported_pairs(pairs) && value_of(
            pairs,
            TAG_CPU_ARCH,
        ) is Some,
    ensures
        spec_aeabi_of(data) matches Ok(attrs) && attrs.cpu_arch == spec_cpu_arch(
            value_of(spec_pairs(data)->Some_0, TAG_CPU_ARCH)->Some_0,
        ) && attrs.cpu_arch_profile == decoded_cpu_arch_profile(spec_pairs(data)->Some_0, None)
            && attrs.fp_arch == decoded_fp_arch(spec_pairs(data)->Some_0, None)
            && attrs.abi_vfp_args == decoded_abi_vfp_args(spec_pairs(data)->Some_0, None),
{
    let pairs = spec_pairs(data)->Some_0;
    lemma_read_is_collect(data, spec_no_attributes());
    lemma_pairs_are_integers(data);
    lemma_collect_supported(spec_no_attributes(), pairs);
    lemma_value_of(pairs, TAG_CPU_ARCH);
    let v = value_of(pairs, TAG_CPU_ARCH)->Some_0;
    let i = choose|i: int| 0 <= i < pairs.len() && pairs[i] == (TAG_CPU_ARCH, v);
    assert(pairs[i].0 == TAG_CPU_ARCH);
}

/// The order of the attributes does not matter: two well-formed streams of supported
/// attributes that hold the same (tag, value) pairs, each interpreted attribute at most once
/// with a value that is understood, give the same result
pub proof fn law_attribute_order_irrelevant(first: Seq<u8>, second: Seq<u8>)
    requires
        spec_pairs(first) matches Some(pairs) && supported_pairs(pairs),
        spec_pairs(second) matches Some(pairs) && supported_pairs(pairs),
        forall|p: (u64, u64)|
            spec_pairs(first)->Some_0.contains(p) <==> spec_pairs(second)->Some_0.contains(p),
    ensures
        spec_aeabi_of(first) == spec_aeabi_of(second),
{
    let p1 = spec_pairs(first)->Some_0;
    let p2 = spec_pairs(second)->Some_0;
    lemma_read_is_collect(first, spec_no_attributes());
    lemma_read_is_collect(second, spec_no_attributes());
    lemma_pairs_are_integers(first);
    lemma_pairs_are_integers(second);
    lemma_collect_supported(spec_no_attributes(), p1);
    lemma_collect_supported(spec_no_attributes(), p2);
    lemma_same_values(p1, p2, TAG_CPU_ARCH);
    lemma_same_values(p1, p2, TAG_CPU_ARCH_PROFILE);
    lemma_same_values(p1, p2, TAG_FP_ARCH);
    lemma_same_values(p1, p2, TAG_ABI_VFP_ARGS);
}

/// Two supported pair sequences with the same pairs give an interpreted attribute the same
/// value
proof fn lemma_same_values(p1: Seq<(u64, u64)>, p2: Seq<(u64, u64)>, tag: u64)
    requires
        supported_pairs(p1),
        supported_pairs(p2),
        interpreted(tag),
        forall|p: (u64, u64)| p1.contains(p) <==> p2.contains(p),
    ensures
        value_of(p1, tag) == value_of(p2, tag),
{
    lemma_value_of(p1, tag);
    lemma_value_of(p2, tag);
    if let Some(v1) = value_of(p1, tag) {
        assert(p2.contains((tag, v1)));
        let j = choose|j: int| 0 <= j < p2.len() && p2[j] == (tag, v1);
        assert(p2[j].0 == tag);
        let v2 = value_of(p2, tag)->Some_0;
        let k = choose|k: int| 0 <= k < p2.len() && p2[k] == (tag, v2);
        if j != k {
            if j < k {
                assert(p2[j].0 == p2[k].0);
            } else {
                assert(p2[k].0 == p2[j].0);
            }
        }
    } else if let Some(v2) = value_of(p2, tag) {
        assert(p1.contains((tag, v2)));
        let j = choose|j: int| 0 <= j < p1.len() && p1[j] == (tag, v2);
        assert(p1[j].0 == tag);
    }
}

/// The AEABI tags that the compiler records and that are read [AEABI/3.3], by number:
/// `Tag_CPU_arch` (6), `Tag_CPU_arch_profile` (7), `Tag_ARM_ISA_use` (8),
/// `Tag_THUMB_ISA_use` (9), `Tag_FP_arch` (10), `Tag_ABI_PCS_R9_use` (14),
/// `Tag_ABI_PCS_GOT_use` (17), `Tag_ABI_FP_denormal` (20), `Tag_ABI_FP_exceptions` (21),
/// `Tag_ABI_FP_number_model` (23), `Tag_ABI_align_needed` (24), `Tag_ABI_align_preserved`
/// (25), `Tag_ABI_HardFP_use` (27), `Tag_ABI_VFP_args` (28), `Tag_CPU_unaligned_access` (34),
/// `Tag_FP_HP_extension` (36), `Tag_ABI_FP_16bit_format` (38), `Tag_MPextension_use` (42) and
/// `Tag_Virtualization_use` (68), whose values are integers, and `Tag_conformance` (67), whose
/// value is a string
pub open spec fn aeabi_tag(tag: u64) -> bool {
    ||| tag == 6 || tag == 7 || tag == 8 || tag == 9 || tag == 10
    ||| tag == 14 || tag == 17 || tag == 20 || tag == 21 || tag == 23
    ||| tag == 24 || tag == 25 || tag == 27 || tag == 28 || tag == 34
    ||| tag == 36 || tag == 38 || tag == 42 || tag == 68
    ||| tag == 67
}

/// Every AEABI tag that the compiler records is read: `Tag_conformance` takes a string, every
/// other one an integer, and `value_kind` knows no other tag
pub proof fn law_aeabi_tags_are_read(tag: u64)
    ensures
        tag == 67 ==> spec_value_kind(tag) == Some(ValueKind::String),
        aeabi_tag(tag) && tag != 67 ==> spec_value_kind(tag) == Some(ValueKind::Integer),
        !aeabi_tag(tag) ==> spec_value_kind(tag) is None,
{
}

/// Reading attributes never refuses one of the AEABI tags that the compiler records: an
/// attribute stream is only refused as having an unsupported tag for a tag outside them
pub proof fn law_recorded_tags_are_never_unsupported(data: Seq<u8>, attrs: AeabiAttributes)
    ensures
        spec_read_attributes(data, attrs) matches Err(Refused::Unsupported(Unsupported::Tag(t)))
            ==> !aeabi_tag(t),
    decreases data.len(),
{
    if data.len() > 0 {
        if let Some((tag, len)) = uleb128(data) {
            if 1 <= len <= data.len() {
                let rest = data.skip(len as int);
                law_aeabi_tags_are_read(tag);
                if spec_value_kind(tag) == Some(ValueKind::Integer) && !spec_is_recorded(attrs, tag) {
                    if let Some((value, value_len)) = uleb128(rest) {
                        if 1 <= value_len <= rest.len() {
                            if let Ok(next) = spec_record(attrs, tag, value) {
                                law_recorded_tags_are_never_unsupported(
                                    rest.skip(value_len as int),
                                    next,
                                );
                            }
                        }
                    }
                } else if spec_value_kind(tag) == Some(ValueKind::String) {
                    let nul = first_nul(rest);
                    if nul < rest.len() {
                        law_recorded_tags_are_never_unsupported(rest.skip(nul + 1int), attrs);
                    }
                }
            }
        }
    }
}

/// Only the build attributes of the vendor `aeabi`, in sections of type `SHT_ARM_ATTRIBUTES`
/// (`0x7000_0003`), are read: a subsection of another vendor and a section of another type are
/// passed over, whatever they hold
pub proof fn law_only_aeabi_attributes_are_read(
    subsections: Seq<(Seq<u8>, Seq<Seq<u8>>, Option<ObjectError>)>,
    fails: Option<ObjectError>,
    sections: Seq<(u32, Result<Seq<u8>, ObjectError>, bool)>,
    found: Option<AeabiAttributes>,
)
    ensures
        subsections.len() > 0 && subsections[0].0 != seq![0x61u8, 0x65u8, 0x61u8, 0x62u8, 0x69u8]
            ==> scan_subsections(subsections, fails, found) == scan_subsections(
            subsections.drop_first(),
            fails,
            found,
        ),
        subsections.len() > 0 && subsections[0].0 == seq![0x61u8, 0x65u8, 0x61u8, 0x62u8, 0x69u8]
            ==> scan_subsections(subsections, fails, found) == match scan_subsubsections(
            subsections[0].1,
            subsections[0].2,
            found,
        ) {
            Ok(next) => scan_subsections(subsections.drop_first(), fails, next),
            Err(e) => Err(e),
        },
        sections.len() > 0 && sections[0].0 != 0x7000_0003u32 ==> scan_sections(sections, found)
            == scan_sections(sections.drop_first(), found),
{
    assert(spec_aeabi_vendor() =~= seq![0x61u8, 0x65u8, 0x61u8, 0x62u8, 0x69u8]);
}

} // verus!
