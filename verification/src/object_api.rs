//! The parts of the `object` crate that reading the ELF build attributes goes through
//!
//! Every item here is trusted: its contract restates what the `object` source shows.
//!
//! What `object` reads from a 32-bit ELF file is described by names over the file's bytes:
//! its sections, each with its type, contents and byte order; the subsections of an
//! attributes section, each with its vendor and sub-subsections; the attribute bytes of each
//! sub-subsection. An iteration is described as the items it yields, in order, until it
//! first yields something else, and whether that is an error.

use object::elf::FileHeader32;
use object::endian::Endianness;
use object::read::Error as ObjectError;
use object::read::elf::{
    AttributeReader, AttributesSection, AttributesSubsection, AttributesSubsectionIterator,
    AttributesSubsubsection, AttributesSubsubsectionIterator, ElfFile32, ElfSection32,
    ElfSectionIterator32, SectionHeader,
};
use object::read::ObjectSection;
use vstd::prelude::*;

verus! {

/// `object::read::Error`: a parse error
#[verifier::external_type_specification]
#[verifier::external_body]
pub struct ExObjectError(ObjectError);

/// A parsed 32-bit ELF file (`object::read::elf::ElfFile32`)
///
/// Held opaquely: the `object` type is generic over traits of that crate
#[verifier::external_body]
pub struct Elf32File<'data> {
    file: ElfFile32<'data>,
}

/// An iterator over the sections of an ELF file (`object::read::elf::ElfSectionIterator32`)
#[verifier::external_body]
pub struct Elf32Sections<'data, 'file> {
    iter: ElfSectionIterator32<'data, 'file>,
}

/// A section of an ELF file (`object::read::elf::ElfSection32`)
#[verifier::external_body]
pub struct Elf32Section<'data, 'file> {
    section: ElfSection32<'data, 'file>,
}

/// An ELF attributes section (`object::read::elf::AttributesSection`)
#[verifier::external_body]
pub struct Attributes32<'data> {
    section: AttributesSection<'data, FileHeader32<Endianness>>,
}

/// An iterator over the subsections of an attributes section
/// (`object::read::elf::AttributesSubsectionIterator`)
#[verifier::external_body]
pub struct Subsections32<'data> {
    iter: AttributesSubsectionIterator<'data, FileHeader32<Endianness>>,
}

/// A vendor's subsection of an attributes section (`object::read::elf::AttributesSubsection`)
#[verifier::external_body]
pub struct Subsection32<'data> {
    subsection: AttributesSubsection<'data, FileHeader32<Endianness>>,
}

/// An iterator over the sub-subsections of a subsection
/// (`object::read::elf::AttributesSubsubsectionIterator`)
#[verifier::external_body]
pub struct Subsubsections32<'data> {
    iter: AttributesSubsubsectionIterator<'data, FileHeader32<Endianness>>,
}

/// `object::read::elf::AttributesSubsubsection`: a sub-subsection, made of attributes
#[verifier::external_type_specification]
#[verifier::external_body]
pub struct ExAttributesSubsubsection<'data>(AttributesSubsubsection<'data>);

/// `object::read::elf::AttributeReader`: a cursor over the attributes of a sub-subsection
#[verifier::external_type_specification]
#[verifier::external_body]
pub struct ExAttributeReader<'data>(AttributeReader<'data>);

/// What `ElfFile32::parse` makes of `data`: nothing where it fails; otherwise the sections
/// that `Object::sections` returns, in order, each as its type (`sh_type`, read in the file's
/// byte order), its contents (nothing where `ObjectSection::data` fails) and whether the file
/// is big-endian
pub uninterp spec fn elf32_sections_of(data: Seq<u8>) -> Option<Seq<(u32, Result<Seq<u8>, ObjectError>, bool)>>;

/// The sections of the parsed file `file`, as `elf32_sections_of` describes them
pub uninterp spec fn file_sections(file: Elf32File<'_>) -> Seq<(u32, Result<Seq<u8>, ObjectError>, bool)>;

/// The sections that `iter` has not returned yet, in order
pub uninterp spec fn sections_left(iter: Elf32Sections<'_, '_>) -> Seq<(u32, Result<Seq<u8>, ObjectError>, bool)>;

/// The type, contents and byte order of `section`
pub uninterp spec fn section_view(section: Elf32Section<'_, '_>) -> (u32, Result<Seq<u8>, ObjectError>, bool);

/// The bytes an attributes section was made from, and whether they are big-endian
pub uninterp spec fn attributes_source(section: Attributes32<'_>) -> (Seq<u8>, bool);

/// What the subsection iterator over `data` (an attributes section after its version byte,
/// of the given byte order) yields: the subsections it returns until it first returns
/// something else, each as its vendor name, the attribute bytes of its sub-subsections and
/// whether their iteration ends in an error; and whether the iteration ends in an error
pub uninterp spec fn subsections_of(data: Seq<u8>, big_endian: bool) -> (
    Seq<(Seq<u8>, Seq<Seq<u8>>, Option<ObjectError>)>,
    Option<ObjectError>,
);

/// The subsections that `iter` has not returned yet, and whether it then fails
pub uninterp spec fn subsections_left(iter: Subsections32<'_>) -> (
    Seq<(Seq<u8>, Seq<Seq<u8>>, Option<ObjectError>)>,
    Option<ObjectError>,
);

/// The vendor, sub-subsections and failure of `subsection`, as `subsections_of` describes them
pub uninterp spec fn subsection_view(subsection: Subsection32<'_>) -> (
    Seq<u8>,
    Seq<Seq<u8>>,
    Option<ObjectError>,
);

/// The attribute bytes of the sub-subsections that `iter` has not returned yet, and whether
/// it then fails
pub uninterp spec fn subsubsections_left(iter: Subsubsections32<'_>) -> (
    Seq<Seq<u8>>,
    Option<ObjectError>,
);

/// The bytes of the attributes that `reader` has not consumed yet
pub uninterp spec fn attribute_data(reader: AttributeReader<'_>) -> Seq<u8>;

/// The bytes of the attributes of the sub-subsection `subsubsection`
pub uninterp spec fn subsubsection_attributes(subsubsection: AttributesSubsubsection<'_>) -> Seq<
    u8,
>;

/// Reading an unsigned LEB128 number from `data`, from byte `i` on, with `acc` the value of
/// the bytes before it: each byte adds its low 7 bits at 7 bits further up, and a byte whose
/// top bit is clear ends the number. The tenth byte (at shift 63) may only be 0 or 1, so that
/// the number fits in 64 bits
pub open spec fn uleb128_from(data: Seq<u8>, i: nat, acc: u64) -> Option<(u64, nat)>
    decreases 10 - i,
{
    if i >= 10 || i >= data.len() {
        None
    } else {
        let byte = data[i as int];
        let shift = (7 * i) as u64;
        if shift == 63 && byte != 0 && byte != 1 {
            None
        } else {
            let value = acc | (((byte & 0x7f) as u64) << shift);
            if byte & 0x80 == 0 {
                Some((value, i + 1))
            } else {
                uleb128_from(data, i + 1, value)
            }
        }
    }
}

/// What reading an unsigned LEB128 number from the start of `data` gives
/// (`object`'s `Bytes::read_uleb128`): its value and the number of bytes it takes, or nothing
/// where `data` does not start with a number that fits in 64 bits
pub open spec fn uleb128(data: Seq<u8>) -> Option<(u64, nat)> {
    uleb128_from(data, 0, 0)
}

/// The error that `AttributeReader::read_tag` gives on the attribute bytes `data` it fails on
pub uninterp spec fn tag_error(data: Seq<u8>) -> ObjectError;

/// The error that `AttributeReader::read_integer` gives on the attribute bytes `data` it
/// fails on
pub uninterp spec fn integer_error(data: Seq<u8>) -> ObjectError;

/// The error that `AttributeReader::read_string` gives on the attribute bytes `data` it fails
/// on
pub uninterp spec fn string_error(data: Seq<u8>) -> ObjectError;

/// The error that `AttributesSection::subsections` gives on the section bytes `data` whose
/// version it does not support
pub uninterp spec fn version_error(data: Seq<u8>) -> ObjectError;

/// `data` starts with a whole 52-byte 32-bit ELF file header whose identification `object`
/// supports: the magic `\x7fELF`, class 32-bit (1), little (1) or big (2) endian data and
/// version 1
pub open spec fn elf32_header_supported(data: Seq<u8>) -> bool {
    &&& data.len() >= 52
    &&& data[0] == 0x7f && data[1] == 0x45 && data[2] == 0x4c && data[3] == 0x46
    &&& data[4] == 1
    &&& (data[5] == 1 || data[5] == 2)
    &&& data[6] == 1
}

/// What `AttributesSection::new` and then `AttributesSection::subsections` make of `data`:
/// the version is the first byte (`A` where there is none) and only version `A` is read;
/// another version gives the error `version_error`
pub open spec fn spec_attributes(data: Seq<u8>, big_endian: bool) -> Result<
    (Seq<(Seq<u8>, Seq<Seq<u8>>, Option<ObjectError>)>, Option<ObjectError>),
    ObjectError,
> {
    if data.len() == 0 {
        Ok(subsections_of(data, big_endian))
    } else if data[0] == 0x41 {
        Ok(subsections_of(data.skip(1), big_endian))
    } else {
        Err(version_error(data))
    }
}

/// `ElfFile32::<Endianness>::parse`: parses `data` as a 32-bit ELF file of either byte order.
/// Its first step reads and checks the file header, so it fails where that header is missing
/// or not supported
#[verifier::external_body]
pub fn elf32_parse(data: &[u8]) -> (r: Result<Elf32File<'_>, ObjectError>)
    ensures
        r is Ok <==> elf32_sections_of(data@) is Some,
        r matches Ok(file) ==> file_sections(file) == elf32_sections_of(data@)->Some_0,
        r is Ok ==> elf32_header_supported(data@),
{
    ElfFile32::parse(data).map(|file| Elf32File { file })
}

/// `Object::sections` for `ElfFile`: an iterator over the sections of `file` (but the null
/// section)
#[verifier::external_body]
pub fn elf32_sections<'data, 'file>(file: &'file Elf32File<'data>) -> (r: Elf32Sections<
    'data,
    'file,
>)
    ensures
        sections_left(r) == file_sections(*file),
{
    Elf32Sections { iter: object::read::Object::sections(&file.file) }
}

/// `Iterator::next` for `ElfSectionIterator`: returns the next section
#[verifier::external_body]
pub fn elf32_sections_next<'data, 'file>(iter: &mut Elf32Sections<'data, 'file>) -> (r: Option<
    Elf32Section<'data, 'file>,
>)
    ensures
        r is None <==> sections_left(*old(iter)).len() == 0,
        r is None ==> sections_left(*final(iter)) == sections_left(*old(iter)),
        r matches Some(section) ==> section_view(section) == sections_left(*old(iter))[0]
            && sections_left(*final(iter)) == sections_left(*old(iter)).drop_first(),
{
    iter.iter.next().map(|section| Elf32Section { section })
}

/// `SectionHeader::sh_type` of `ElfSection::elf_section_header`, read in the byte order of
/// the section's file (`ElfSection::elf_file`, `ElfFile::endian`): the section type
#[verifier::external_body]
pub fn elf32_section_type(section: &Elf32Section<'_, '_>) -> (r: u32)
    ensures
        r == section_view(*section).0,
{
    section.section.elf_section_header().sh_type(section.section.elf_file().endian()).0
}

/// `ObjectSection::data` for `ElfSection`: the contents of `section` in the file
#[verifier::external_body]
pub fn elf32_section_data<'data, 'file>(section: &Elf32Section<'data, 'file>) -> (r: Result<
    &'data [u8],
    ObjectError,
>)
    ensures
        r is Ok <==> section_view(*section).1 is Ok,
        r matches Ok(data) ==> (section_view(*section).1 matches Ok(d) && d == data@),
        r matches Err(e) ==> (section_view(*section).1 matches Err(x) && x == e),
{
    section.section.data()
}

/// `AttributesSection::new`, in the byte order of the file of `section`: an attributes
/// section whose contents are `data`. It never fails
#[verifier::external_body]
pub fn attributes_section_new<'data>(section: &Elf32Section<'_, '_>, data: &'data [u8]) -> (r: Result<
    Attributes32<'data>,
    ObjectError,
>)
    ensures
        r is Ok,
        r matches Ok(attributes) ==> attributes_source(attributes).0 == data@,
        r matches Ok(attributes) ==> attributes_source(attributes).1 == section_view(*section).2,
{
    AttributesSection::new(section.section.elf_file().endian(), data).map(
        |section| Attributes32 { section },
    )
}

/// `AttributesSection::subsections`: an iterator over the subsections of `section`; it
/// fails where the version is not `A`
#[verifier::external_body]
pub fn attributes_subsections<'data>(section: &Attributes32<'data>) -> (r: Result<
    Subsections32<'data>,
    ObjectError,
>)
    ensures
        r is Ok <==> spec_attributes(attributes_source(*section).0, attributes_source(*section).1)
            is Ok,
        r matches Ok(iter) ==> subsections_left(iter) == subsections_of(
            if attributes_source(*section).0.len() == 0 {
                attributes_source(*section).0
            } else {
                attributes_source(*section).0.skip(1)
            },
            attributes_source(*section).1,
        ),
        r matches Err(e) ==> e == version_error(attributes_source(*section).0)
            && attributes_source(*section).0.len() > 0 && attributes_source(*section).0[0]
            != 0x41,
{
    section.section.subsections().map(|iter| Subsections32 { iter })
}

/// `AttributesSubsectionIterator::next`: parses the next subsection
#[verifier::external_body]
pub fn attributes_subsections_next<'data>(iter: &mut Subsections32<'data>) -> (r: Result<
    Option<Subsection32<'data>>,
    ObjectError,
>)
    ensures
        subsections_left(*old(iter)).0.len() > 0 ==> (r matches Ok(Some(subsection))
            && subsection_view(subsection) == subsections_left(*old(iter)).0[0] && subsections_left(
            *final(iter),
        ) == (subsections_left(*old(iter)).0.drop_first(), subsections_left(*old(iter)).1)),
        subsections_left(*old(iter)).0.len() == 0 && subsections_left(*old(iter)).1 is Some ==> (r matches Err(e)
            && e == subsections_left(*old(iter)).1->Some_0),
        subsections_left(*old(iter)).0.len() == 0 && subsections_left(*old(iter)).1 is None ==> (r matches Ok(None)
            && subsections_left(*final(iter)) == subsections_left(*old(iter))),
{
    iter.iter.next().map(|next| next.map(|subsection| Subsection32 { subsection }))
}

/// `AttributesSubsection::vendor`: the vendor name of `subsection`
#[verifier::external_body]
pub fn attributes_subsection_vendor<'data>(subsection: &Subsection32<'data>) -> (r: &'data [u8])
    ensures
        r@ == subsection_view(*subsection).0,
{
    subsection.subsection.vendor()
}

/// `AttributesSubsection::subsubsections`: an iterator over the sub-subsections of
/// `subsection`
#[verifier::external_body]
pub fn attributes_subsubsections<'data>(subsection: &Subsection32<'data>) -> (r: Subsubsections32<
    'data,
>)
    ensures
        subsubsections_left(r) == (subsection_view(*subsection).1, subsection_view(*subsection).2),
{
    Subsubsections32 { iter: subsection.subsection.subsubsections() }
}

/// `AttributesSubsubsectionIterator::next`: parses the next sub-subsection
#[verifier::external_body]
pub fn attributes_subsubsections_next<'data>(iter: &mut Subsubsections32<'data>) -> (r: Result<
    Option<AttributesSubsubsection<'data>>,
    ObjectError,
>)
    ensures
        subsubsections_left(*old(iter)).0.len() > 0 ==> (r matches Ok(Some(subsubsection))
            && subsubsection_attributes(subsubsection) == subsubsections_left(*old(iter)).0[0]
            && subsubsections_left(*final(iter)) == (
            subsubsections_left(*old(iter)).0.drop_first(),
            subsubsections_left(*old(iter)).1,
        )),
        subsubsections_left(*old(iter)).0.len() == 0 && subsubsections_left(*old(iter)).1 is Some ==> (r matches Err(e)
            && e == subsubsections_left(*old(iter)).1->Some_0),
        subsubsections_left(*old(iter)).0.len() == 0 && subsubsections_left(*old(iter)).1 is None ==> (r matches Ok(None)
            && subsubsections_left(*final(iter)) == subsubsections_left(*old(iter))),
{
    iter.iter.next()
}

/// `AttributesSubsubsection::attributes`: a reader over the attributes of `subsubsection`
#[verifier::external_body]
pub fn attributes_reader<'data>(subsubsection: &AttributesSubsubsection<'data>) -> (r:
    AttributeReader<'data>)
    ensures
        attribute_data(r) == subsubsection_attributes(*subsubsection),
{
    subsubsection.attributes()
}

/// `AttributeReader::read_tag`: there is no tag once no byte is left; otherwise the tag is
/// the unsigned LEB128 number that the bytes left start with, and exactly its bytes are
/// consumed
#[verifier::external_body]
pub fn read_tag(reader: &mut AttributeReader<'_>) -> (r: Result<Option<u64>, ObjectError>)
    ensures
        attribute_data(*old(reader)).len() == 0 ==> (r matches Ok(None) && attribute_data(
            *final(reader),
        ) == attribute_data(*old(reader))),
        attribute_data(*old(reader)).len() > 0 ==> match uleb128(attribute_data(*old(reader))) {
            Some((tag, len)) => r matches Ok(Some(t)) && t == tag && 1 <= len <= attribute_data(
                *old(reader),
            ).len() && attribute_data(*final(reader)) == attribute_data(*old(reader)).skip(
                len as int,
            ),
            None => r matches Err(e) && e == tag_error(attribute_data(*old(reader))),
        },
{
    reader.read_tag()
}

/// `AttributeReader::read_integer`: the value is the unsigned LEB128 number that the bytes
/// left start with, and exactly its bytes are consumed
#[verifier::external_body]
pub fn read_integer(reader: &mut AttributeReader<'_>) -> (r: Result<u64, ObjectError>)
    ensures
        match uleb128(attribute_data(*old(reader))) {
            Some((value, len)) => r matches Ok(v) && v == value && 1 <= len <= attribute_data(
                *old(reader),
            ).len() && attribute_data(*final(reader)) == attribute_data(*old(reader)).skip(
                len as int,
            ),
            None => r matches Err(e) && e == integer_error(attribute_data(*old(reader))),
        },
{
    reader.read_integer()
}

/// `AttributeReader::read_string`: reads a NUL-terminated string, which is returned without
/// its terminator; the string and its terminator are consumed. It fails where no NUL is left
#[verifier::external_body]
pub fn read_string<'data>(reader: &mut AttributeReader<'data>) -> (r: Result<
    &'data [u8],
    ObjectError,
>)
    ensures
        r is Ok <==> attribute_data(*old(reader)).contains(0u8),
        r matches Err(e) ==> e == string_error(attribute_data(*old(reader))),
        r matches Ok(s) ==> attribute_data(*old(reader)) == s@ + seq![0u8] + attribute_data(
            *final(reader),
        ),
        r matches Ok(s) ==> !s@.contains(0u8),
{
    reader.read_string()
}

} // verus!
