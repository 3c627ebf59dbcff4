use cuy::whoarchi::{
    try_whoarchi, value_kind, whoarchi, AeabiAttributes, Aeabi, Error, Unsupported, ValueKind, WhoArchI,
    ABI_VFP_args, CPU_arch, CPU_arch_profile, FP_arch, TAG_ABI_VFP_ARGS, TAG_CONFORMANCE,
    TAG_CPU_ARCH, TAG_CPU_ARCH_PROFILE, TAG_FP_ARCH, TAG_THUMB_ISA_USE,
};

fn uleb(mut value: u64, out: &mut Vec<u8>) {
    loop {
        let byte = (value & 0x7f) as u8;
        value >>= 7;
        if value == 0 {
            out.push(byte);
            return;
        }
        out.push(byte | 0x80);
    }
}

enum Attr {
    Int(u64, u64),
    Str(u64, &'static str),
}

/// The bytes of the given attributes
fn attribute_bytes(attrs: &[Attr]) -> Vec<u8> {
    let mut attributes = Vec::new();
    for attr in attrs {
        match attr {
            Attr::Int(tag, value) => {
                uleb(*tag, &mut attributes);
                uleb(*value, &mut attributes);
            }
            Attr::Str(tag, value) => {
                uleb(*tag, &mut attributes);
                attributes.extend_from_slice(value.as_bytes());
                attributes.push(0);
            }
        }
    }
    attributes
}

/// The contents of an `.ARM.attributes` section with one `aeabi` subsection, made of one
/// sub-subsection per item of `subsubsections`, each holding the given attribute bytes
fn aeabi_section(subsubsections: &[Vec<u8>]) -> Vec<u8> {
    let mut subsubs = Vec::new();
    for attributes in subsubsections {
        // sub-subsection: Tag_File, length, attributes
        subsubs.push(1u8);
        subsubs.extend_from_slice(&((5 + attributes.len()) as u32).to_le_bytes());
        subsubs.extend_from_slice(attributes);
    }
    // subsection: length, vendor, sub-subsections
    let mut sub = Vec::new();
    sub.extend_from_slice(&((4 + 6 + subsubs.len()) as u32).to_le_bytes());
    sub.extend_from_slice(b"aeabi\0");
    sub.extend_from_slice(&subsubs);
    let mut section = vec![b'A'];
    section.extend_from_slice(&sub);
    section
}

/// The contents of an `.ARM.attributes` section with one `aeabi` subsection
fn attributes_section(attrs: &[Attr]) -> Vec<u8> {
    aeabi_section(&[attribute_bytes(attrs)])
}

fn section_header(out: &mut Vec<u8>, name: u32, kind: u32, offset: u32, size: u32) {
    for field in [name, kind, 0, 0, offset, size, 0, 0, 1, 0] {
        out.extend_from_slice(&field.to_le_bytes());
    }
}

/// A little-endian 32-bit ELF relocatable file holding the given attributes section
fn elf32(attributes: &[u8]) -> Vec<u8> {
    let shstrtab = b"\0.shstrtab\0.ARM.attributes\0";
    let shstrtab_offset = 52u32;
    let attributes_offset = shstrtab_offset + shstrtab.len() as u32;
    let mut shoff = attributes_offset + attributes.len() as u32;
    shoff = (shoff + 3) & !3;

    let mut out = Vec::new();
    out.extend_from_slice(&[0x7f, b'E', b'L', b'F', 1, 1, 1, 0]);
    out.extend_from_slice(&[0; 8]);
    out.extend_from_slice(&1u16.to_le_bytes()); // ET_REL
    out.extend_from_slice(&40u16.to_le_bytes()); // EM_ARM
    out.extend_from_slice(&1u32.to_le_bytes());
    out.extend_from_slice(&0u32.to_le_bytes()); // entry
    out.extend_from_slice(&0u32.to_le_bytes()); // phoff
    out.extend_from_slice(&shoff.to_le_bytes());
    out.extend_from_slice(&0x0500_0000u32.to_le_bytes());
    out.extend_from_slice(&52u16.to_le_bytes());
    out.extend_from_slice(&0u16.to_le_bytes());
    out.extend_from_slice(&0u16.to_le_bytes());
    out.extend_from_slice(&40u16.to_le_bytes());
    out.extend_from_slice(&3u16.to_le_bytes());
    out.extend_from_slice(&1u16.to_le_bytes());
    out.extend_from_slice(shstrtab);
    out.extend_from_slice(attributes);
    while out.len() < shoff as usize {
        out.push(0);
    }
    section_header(&mut out, 0, 0, 0, 0);
    section_header(&mut out, 1, 3, shstrtab_offset, shstrtab.len() as u32);
    section_header(&mut out, 11, 0x7000_0003, attributes_offset, attributes.len() as u32);
    out
}

#[test]
fn reads_the_aeabi_attributes_of_a_hard_float_target() {
    let section = attributes_section(&[
        Attr::Str(TAG_CONFORMANCE, "2.09"),
        Attr::Int(TAG_CPU_ARCH, 13),
        Attr::Int(TAG_CPU_ARCH_PROFILE, b'M' as u64),
        Attr::Int(TAG_THUMB_ISA_USE, 2),
        Attr::Int(TAG_FP_ARCH, 6),
        Attr::Int(TAG_ABI_VFP_ARGS, 1),
    ]);
    let got = whoarchi(&elf32(&section)).unwrap();
    let expected = WhoArchI::new(Some(Aeabi::new(
        Some(ABI_VFP_args::VFP),
        CPU_arch::v7E_M,
        Some(CPU_arch_profile::M),
        Some(FP_arch::VFPv4_D16),
    )));
    assert_eq!(expected, got);
    let aeabi = got.aeabi().unwrap();
    assert_eq!(Some(ABI_VFP_args::VFP), aeabi.abi_vfp_args());
    assert_eq!(CPU_arch::v7E_M, aeabi.cpu_arch());
    assert_eq!(Some(CPU_arch_profile::M), aeabi.cpu_arch_profile());
    assert_eq!(Some(FP_arch::VFPv4_D16), aeabi.fp_arch());
}

#[test]
fn soft_float_target_has_no_vfp_args() {
    let section = attributes_section(&[
        Attr::Int(TAG_CPU_ARCH, 10),
        Attr::Int(TAG_CPU_ARCH_PROFILE, b'R' as u64),
    ]);
    let got = whoarchi(&elf32(&section)).unwrap();
    let aeabi = got.aeabi().unwrap();
    assert_eq!(None, aeabi.abi_vfp_args());
    assert_eq!(CPU_arch::v7, aeabi.cpu_arch());
    assert_eq!(Some(CPU_arch_profile::R), aeabi.cpu_arch_profile());
    assert_eq!(None, aeabi.fp_arch());
}

#[test]
fn non_elf32_objects_have_no_aeabi() {
    assert_eq!(WhoArchI::new(None), whoarchi(&[]).unwrap());
    assert_eq!(WhoArchI::new(None), whoarchi(b"not an object file").unwrap());
}

#[test]
fn unsupported_attributes_are_reported() {
    let missing = attributes_section(&[Attr::Int(TAG_FP_ARCH, 3)]);
    assert!(matches!(
        try_whoarchi(&elf32(&missing)),
        Err(Error::Unsupported(Unsupported::MissingCpuArch))
    ));
    let repeated = attributes_section(&[Attr::Int(TAG_CPU_ARCH, 10), Attr::Int(TAG_CPU_ARCH, 12)]);
    assert!(matches!(
        try_whoarchi(&elf32(&repeated)),
        Err(Error::Unsupported(Unsupported::RepeatedTag(6)))
    ));
    let bad_value = attributes_section(&[Attr::Int(TAG_CPU_ARCH, 99)]);
    assert!(matches!(
        try_whoarchi(&elf32(&bad_value)),
        Err(Error::Unsupported(Unsupported::Value { tag: 6, value: 99 }))
    ));
    let bad_tag = attributes_section(&[Attr::Int(5, 1)]);
    assert!(matches!(
        try_whoarchi(&elf32(&bad_tag)),
        Err(Error::Unsupported(Unsupported::Tag(5)))
    ));
}

#[test]
fn malformed_attributes_are_object_errors() {
    let mut section = attributes_section(&[Attr::Int(TAG_CPU_ARCH, 10)]);
    // the integer value is cut short: its continuation bit is set
    let last = section.len() - 1;
    section[last] |= 0x80;
    assert!(matches!(whoarchi(&elf32(&section)), Err(Error::Object(_))));
}

#[test]
fn decoders() {
    assert_eq!(ABI_VFP_args::VFP, ABI_VFP_args::from(1));
    assert_eq!(CPU_arch::v7, CPU_arch::from(10));
    assert_eq!(CPU_arch::v6S_M, CPU_arch::from(12));
    assert_eq!(CPU_arch::v7E_M, CPU_arch::from(13));
    assert_eq!(CPU_arch::v8_R, CPU_arch::from(15));
    assert_eq!(CPU_arch::v8_M_baseline, CPU_arch::from(16));
    assert_eq!(CPU_arch::v8_M_mainline, CPU_arch::from(17));
    assert_eq!(CPU_arch_profile::A, CPU_arch_profile::from(b'A' as u64));
    assert_eq!(CPU_arch_profile::R, CPU_arch_profile::from(b'R' as u64));
    assert_eq!(CPU_arch_profile::M, CPU_arch_profile::from(b'M' as u64));
    assert_eq!(FP_arch::VFPv3, FP_arch::from(3));
    assert_eq!(FP_arch::VFPv3_D16, FP_arch::from(4));
    assert_eq!(FP_arch::VFPv4_D16, FP_arch::from(6));
    assert_eq!(FP_arch::FP_D16, FP_arch::from(8));
}

#[test]
fn value_kinds() {
    assert_eq!(Some(ValueKind::String), value_kind(TAG_CONFORMANCE));
    assert_eq!(Some(ValueKind::Integer), value_kind(TAG_CPU_ARCH));
    assert_eq!(Some(ValueKind::Integer), value_kind(TAG_THUMB_ISA_USE));
    assert_eq!(None, value_kind(5));
}

#[test]
fn each_interpreted_attribute_at_most_once() {
    let mut attrs = AeabiAttributes::new();
    assert_eq!(Ok(()), attrs.record(TAG_FP_ARCH, 8));
    let before = attrs;
    assert_eq!(
        Err(Unsupported::RepeatedTag(TAG_FP_ARCH)),
        attrs.record(TAG_FP_ARCH, 8)
    );
    assert_eq!(before, attrs);
    assert_eq!(Ok(()), attrs.record(TAG_THUMB_ISA_USE, 1));
    assert_eq!(Ok(()), attrs.record(TAG_THUMB_ISA_USE, 1));
    assert_eq!(Err(Unsupported::MissingCpuArch), attrs.finish());
    assert_eq!(Ok(()), attrs.record(TAG_CPU_ARCH, 17));
    assert_eq!(
        Ok(Aeabi::new(None, CPU_arch::v8_M_mainline, None, Some(FP_arch::FP_D16))),
        attrs.finish()
    );
}

#[test]
fn a_second_aeabi_subsubsection_is_refused() {
    let one = attribute_bytes(&[Attr::Int(TAG_CPU_ARCH, 10)]);
    let section = aeabi_section(&[one.clone(), one]);
    assert!(matches!(
        try_whoarchi(&elf32(&section)),
        Err(Error::Unsupported(Unsupported::MultipleAeabiSections))
    ));
}

#[test]
fn an_unterminated_string_attribute_is_an_object_error() {
    let mut attributes = attribute_bytes(&[Attr::Int(TAG_CPU_ARCH, 10)]);
    uleb(TAG_CONFORMANCE, &mut attributes);
    attributes.extend_from_slice(b"2.09");
    assert!(matches!(
        whoarchi(&elf32(&aeabi_section(&[attributes]))),
        Err(Error::Object(_))
    ));
}

#[test]
fn a_64_bit_elf_header_carries_no_aeabi() {
    let mut object = elf32(&attributes_section(&[Attr::Int(TAG_CPU_ARCH, 10)]));
    assert!(whoarchi(&object).unwrap().aeabi().is_some());
    object[4] = 2;
    assert_eq!(WhoArchI::new(None), whoarchi(&object).unwrap());
}

/// The object of an Arm target: its build attributes, with the interpreted ones given and a
/// few of the others that `rustc` also records
fn arm_object(cpu_arch: u64, profile: u8, fp_arch: Option<u64>, vfp_args: bool) -> Vec<u8> {
    let mut attrs = vec![
        Attr::Str(TAG_CONFORMANCE, "2.09"),
        Attr::Int(TAG_CPU_ARCH, cpu_arch),
        Attr::Int(TAG_CPU_ARCH_PROFILE, profile as u64),
        Attr::Int(TAG_THUMB_ISA_USE, 2),
    ];
    if let Some(fp_arch) = fp_arch {
        attrs.push(Attr::Int(TAG_FP_ARCH, fp_arch));
    }
    if vfp_args {
        attrs.push(Attr::Int(TAG_ABI_VFP_ARGS, 1));
    }
    elf32(&attributes_section(&attrs))
}

/// The object of an AArch64 target: a 64-bit ELF file
fn aarch64_object() -> Vec<u8> {
    let mut object = elf32(&attributes_section(&[Attr::Int(TAG_CPU_ARCH, 10)]));
    object[4] = 2;
    object
}

#[test]
fn all() {
    let arm = |abi_vfp_args: bool, cpu_arch, profile, fp_arch| {
        WhoArchI::new(Some(Aeabi::new(
            if abi_vfp_args { Some(ABI_VFP_args::VFP) } else { None },
            cpu_arch,
            Some(profile),
            fp_arch,
        )))
    };
    let cases = [
        ("aarch64-unknown-none", aarch64_object(), WhoArchI::new(None)),
        ("aarch64-unknown-none-softfloat", aarch64_object(), WhoArchI::new(None)),
        ("armv7a-none-eabi", arm_object(10, b'A', Some(3), false), arm(false, CPU_arch::v7, CPU_arch_profile::A, Some(FP_arch::VFPv3))),
        ("armv7a-none-eabihf", arm_object(10, b'A', Some(3), true), arm(true, CPU_arch::v7, CPU_arch_profile::A, Some(FP_arch::VFPv3))),
        ("armv7r-none-eabi", arm_object(10, b'R', None, false), arm(false, CPU_arch::v7, CPU_arch_profile::R, None)),
        ("armv7r-none-eabihf", arm_object(10, b'R', Some(4), true), arm(true, CPU_arch::v7, CPU_arch_profile::R, Some(FP_arch::VFPv3_D16))),
        ("armv8r-none-eabihf", arm_object(15, b'R', Some(8), true), arm(true, CPU_arch::v8_R, CPU_arch_profile::R, Some(FP_arch::FP_D16))),
        ("thumbv6m-none-eabi", arm_object(12, b'M', None, false), arm(false, CPU_arch::v6S_M, CPU_arch_profile::M, None)),
        ("thumbv7em-none-eabi", arm_object(13, b'M', None, false), arm(false, CPU_arch::v7E_M, CPU_arch_profile::M, None)),
        ("thumbv7em-none-eabihf", arm_object(13, b'M', Some(6), true), arm(true, CPU_arch::v7E_M, CPU_arch_profile::M, Some(FP_arch::VFPv4_D16))),
        ("thumbv7m-none-eabi", arm_object(10, b'M', None, false), arm(false, CPU_arch::v7, CPU_arch_profile::M, None)),
        ("thumbv8m.base-none-eabi", arm_object(16, b'M', None, false), arm(false, CPU_arch::v8_M_baseline, CPU_arch_profile::M, None)),
        ("thumbv8m.main-none-eabi", arm_object(17, b'M', None, false), arm(false, CPU_arch::v8_M_mainline, CPU_arch_profile::M, None)),
        ("thumbv8m.main-none-eabihf", arm_object(17, b'M', Some(8), true), arm(true, CPU_arch::v8_M_mainline, CPU_arch_profile::M, Some(FP_arch::FP_D16))),
    ];
    for (target, object, expected) in cases {
        let got = whoarchi(&object)
            .unwrap_or_else(|e| panic!("could not identify {target} due to {e:?}"));
        assert_eq!(expected, got, "{target}")
    }
}

#[test]
fn recording_order_does_not_matter() {
    let mut one = AeabiAttributes::new();
    assert_eq!(Ok(()), one.record(TAG_CPU_ARCH, 17));
    assert_eq!(Ok(()), one.record(TAG_FP_ARCH, 8));
    let mut other = AeabiAttributes::new();
    assert_eq!(Ok(()), other.record(TAG_FP_ARCH, 8));
    assert_eq!(Ok(()), other.record(TAG_CPU_ARCH, 17));
    assert_eq!(one, other);
}

#[test]
fn the_order_of_the_attributes_does_not_matter() {
    let one = attributes_section(&[
        Attr::Int(TAG_CPU_ARCH, 13),
        Attr::Int(TAG_THUMB_ISA_USE, 2),
        Attr::Int(TAG_CPU_ARCH_PROFILE, b'M' as u64),
        Attr::Int(TAG_FP_ARCH, 6),
    ]);
    let other = attributes_section(&[
        Attr::Int(TAG_FP_ARCH, 6),
        Attr::Int(TAG_CPU_ARCH_PROFILE, b'M' as u64),
        Attr::Int(TAG_THUMB_ISA_USE, 2),
        Attr::Int(TAG_CPU_ARCH, 13),
    ]);
    let expected = WhoArchI::new(Some(Aeabi::new(
        None,
        CPU_arch::v7E_M,
        Some(CPU_arch_profile::M),
        Some(FP_arch::VFPv4_D16),
    )));
    assert_eq!(expected, whoarchi(&elf32(&one)).unwrap());
    assert_eq!(expected, whoarchi(&elf32(&other)).unwrap());
}

#[test]
fn a_malformed_attribute_gives_the_error_of_the_read_that_failed() {
    // the integer value is cut short
    let mut section = attributes_section(&[Attr::Int(TAG_CPU_ARCH, 10)]);
    let last = section.len() - 1;
    section[last] |= 0x80;
    match try_whoarchi(&elf32(&section)) {
        Err(Error::Object(e)) => assert_eq!("Invalid ELF attribute integer value", e.to_string()),
        other => panic!("unexpected {other:?}"),
    }
    // the string is not terminated
    let mut attributes = attribute_bytes(&[Attr::Int(TAG_CPU_ARCH, 10)]);
    uleb(TAG_CONFORMANCE, &mut attributes);
    attributes.extend_from_slice(b"2.09");
    match try_whoarchi(&elf32(&aeabi_section(&[attributes]))) {
        Err(Error::Object(e)) => assert_eq!("Invalid ELF attribute string value", e.to_string()),
        other => panic!("unexpected {other:?}"),
    }
}
