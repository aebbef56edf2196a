//! The section table of an image and the translation of virtual addresses
//! to file offsets.

use vstd::prelude::*;
use vstd::slice::slice_subrange;

use super::bytes::{le_u32_at, u32_at};
use super::ParseError;
use vstd::utf8::{decode_utf8, valid_utf8};

use crate::text::{decode_lossy, utf8_lossy};

verus! {

/// One entry of the section table.
#[derive(Debug, PartialEq, Eq)]
pub struct Section {
    pub name: String,
    pub virtual_size: u32,
    pub virtual_address: u32,
    pub raw_data_size: u32,
    pub raw_data_address: u32,
}

/// A section as a mathematical value.
pub struct SectionModel {
    pub name: Seq<char>,
    pub virtual_size: int,
    pub virtual_address: int,
    pub raw_data_size: int,
    pub raw_data_address: int,
}

impl View for Section {
    type V = SectionModel;

    open spec fn view(&self) -> SectionModel {
        SectionModel {
            name: self.name@,
            virtual_size: self.virtual_size as int,
            virtual_address: self.virtual_address as int,
            raw_data_size: self.raw_data_size as int,
            raw_data_address: self.raw_data_address as int,
        }
    }
}

/// The sections of an image, in the order of the file.
#[derive(Debug, PartialEq, Eq)]
pub struct SectionTable {
    pub sections: Vec<Section>,
}

impl View for SectionTable {
    type V = Seq<SectionModel>;

    open spec fn view(&self) -> Seq<SectionModel> {
        Seq::new(self.sections@.len(), |i: int| self.sections@[i]@)
    }
}

/// The number of bytes of one record of the section table.
pub const SECTION_RECORD_SIZE: usize = 40;

/// The number of bytes of the name field of a record.
pub const SECTION_NAME_SIZE: usize = 8;

/// The bytes without the zero bytes at their end.
pub open spec fn trim_nul(bytes: Seq<u8>) -> Seq<u8>
    decreases bytes.len(),
{
    if bytes.len() > 0 && bytes.last() == 0 {
        trim_nul(bytes.drop_last())
    } else {
        bytes
    }
}

/// The bytes of the name in the record at `index` of a section table: the
/// first eight bytes of the record without the zero bytes at their end.
pub open spec fn section_name_bytes(input: Seq<u8>, index: int) -> Seq<u8> {
    let at = index * SECTION_RECORD_SIZE as int;
    trim_nul(input.subrange(at, at + SECTION_NAME_SIZE as int))
}

/// The section that the record at `index` of a section table describes: a
/// name of eight bytes, padded with zero bytes, then the virtual size, the
/// virtual address, the size of the raw data and the address of the raw data.
/// The remaining sixteen bytes of the record are not read.
pub open spec fn section_at(input: Seq<u8>, index: int) -> SectionModel {
    let at = index * SECTION_RECORD_SIZE as int;
    SectionModel {
        name: utf8_lossy(section_name_bytes(input, index)),
        virtual_size: le_u32_at(input, at + 8),
        virtual_address: le_u32_at(input, at + 12),
        raw_data_size: le_u32_at(input, at + 16),
        raw_data_address: le_u32_at(input, at + 20),
    }
}

/// Whether `rva` lies in the half-open virtual range of the section.
pub open spec fn contains_address(section: SectionModel, rva: int) -> bool {
    section.virtual_address <= rva < section.virtual_address + section.virtual_size
}

/// The file offset of `rva` in a section that contains it.
pub open spec fn offset_in(section: SectionModel, rva: int) -> int {
    section.raw_data_address + (rva - section.virtual_address)
}

/// The file offset of `rva` in the first section from `start` on that
/// contains it.
pub open spec fn translate_from(sections: Seq<SectionModel>, rva: int, start: int) -> Option<int>
    decreases sections.len() - start,
{
    if start < 0 || start >= sections.len() {
        None
    } else if contains_address(sections[start], rva) {
        Some(offset_in(sections[start], rva))
    } else {
        translate_from(sections, rva, start + 1)
    }
}

/// The file offset of `rva`: that in the first section whose range contains
/// it, if there is one and the offset is a 32-bit number.
pub open spec fn translate(sections: Seq<SectionModel>, rva: int) -> Option<u32> {
    match translate_from(sections, rva, 0) {
        Some(offset) => if offset <= u32::MAX {
            Some(offset as u32)
        } else {
            None
        },
        None => None,
    }
}

/// An address that lies in the range of the section at `index`, and in the
/// range of no section before it, has the file offset
/// `raw_data_address + (rva - virtual_address)` of that section, where that
/// is a 32-bit number.
pub proof fn lemma_translate_in_section(sections: Seq<SectionModel>, rva: int, index: int)
    requires
        0 <= index < sections.len(),
        contains_address(sections[index], rva),
        forall|j: int| 0 <= j < index ==> !contains_address(#[trigger] sections[j], rva),
        0 <= offset_in(sections[index], rva) <= u32::MAX,
    ensures
        translate(sections, rva) == Some(offset_in(sections[index], rva) as u32),
{
    lemma_translate_skips(sections, rva, 0, index);
}

/// An address that lies in the range of no section has no file offset.
pub proof fn lemma_translate_outside(sections: Seq<SectionModel>, rva: int)
    requires
        forall|j: int| 0 <= j < sections.len() ==> !contains_address(#[trigger] sections[j], rva),
    ensures
        translate(sections, rva) is None,
{
    lemma_translate_skips(sections, rva, 0, sections.len() as int);
}

/// Of two addresses in the range of one section, and in the range of no
/// section before it, the file offsets differ as the addresses do.
pub proof fn lemma_translate_section_local(
    sections: Seq<SectionModel>,
    low: int,
    high: int,
    index: int,
)
    requires
        0 <= index < sections.len(),
        low <= high,
        contains_address(sections[index], low),
        contains_address(sections[index], high),
        forall|j: int|
            0 <= j < index ==> !contains_address(#[trigger] sections[j], low) && !contains_address(
                sections[j],
                high,
            ),
        0 <= offset_in(sections[index], low),
        offset_in(sections[index], high) <= u32::MAX,
    ensures
        translate(sections, low) is Some,
        translate(sections, high) is Some,
        translate(sections, high).unwrap() - translate(sections, low).unwrap() == high - low,
{
    lemma_translate_skips(sections, low, 0, index);
    lemma_translate_skips(sections, high, 0, index);
}

/// The search from `start` passes over sections that do not contain the
/// address.
proof fn lemma_translate_skips(sections: Seq<SectionModel>, rva: int, start: int, end: int)
    requires
        0 <= start <= end <= sections.len(),
        forall|j: int| start <= j < end ==> !contains_address(#[trigger] sections[j], rva),
    ensures
        translate_from(sections, rva, start) == translate_from(sections, rva, end),
    decreases end - start,
{
    if start < end {
        lemma_translate_skips(sections, rva, start + 1, end);
    }
}

/// Cuts the zero bytes off the end of `bytes`.
fn trim_trailing_nul<'a>(bytes: &'a [u8]) -> (trimmed: &'a [u8])
    ensures
        trimmed@ == trim_nul(bytes@),
{
    let mut end: usize = bytes.len();
    assert(bytes@ == bytes@.take(end as int));
    while end > 0 && bytes[end - 1] == 0
        invariant
            end <= bytes.len(),
            trim_nul(bytes@) == trim_nul(bytes@.take(end as int)),
        decreases end,
    {
        assert(bytes@.take(end as int).drop_last() == bytes@.take(end as int - 1));
        end = end - 1;
    }
    slice_subrange(bytes, 0, end)
}

impl SectionTable {
    /// The sections that a table of `count` records holds.
    pub open spec fn decode(input: Seq<u8>, count: int) -> Result<Seq<SectionModel>, ParseError> {
        if input.len() < count * SECTION_RECORD_SIZE as int {
            Err(ParseError::Truncated)
        } else {
            Ok(Seq::new(count as nat, |i: int| section_at(input, i)))
        }
    }

    /// Reads `number_of_sections` records from the start of `input` and
    /// returns the table with the input that follows it. A name whose bytes
    /// are UTF-8, as the bytes of every ASCII name are, is read as it stands.
    pub fn parse<'a>(input: &'a [u8], number_of_sections: u16) -> (parsed: Result<
        (&'a [u8], SectionTable),
        ParseError,
    >)
        ensures
            match parsed {
                Ok((rest, table)) => {
                    &&& Self::decode(input@, number_of_sections as int) == Ok::<
                        Seq<SectionModel>,
                        ParseError,
                    >(table@)
                    &&& forall|i: int|
                        0 <= i < number_of_sections && valid_utf8(
                            #[trigger] section_name_bytes(input@, i),
                        ) ==> table@[i].name == decode_utf8(section_name_bytes(input@, i))
                    &&& rest@ == input@.skip(number_of_sections as int * SECTION_RECORD_SIZE as int)
                },
                Err(error) => Self::decode(input@, number_of_sections as int) == Err::<
                    Seq<SectionModel>,
                    ParseError,
                >(error),
            },
    {
        let count: usize = number_of_sections as usize;
        let total: usize = count * SECTION_RECORD_SIZE;
        if input.len() < total {
            return Err(ParseError::Truncated);
        }
        let mut sections: Vec<Section> = Vec::new();
        let mut index: usize = 0;
        while index < count
            invariant
                index <= count,
                count == number_of_sections as int,
                total == count * SECTION_RECORD_SIZE,
                total <= input.len(),
                sections@.len() == index,
                forall|i: int| 0 <= i < index ==> (#[trigger] sections@[i])@ == section_at(input@, i),
                forall|i: int|
                    0 <= i < index && valid_utf8(#[trigger] section_name_bytes(input@, i))
                        ==> sections@[i].name@ == decode_utf8(section_name_bytes(input@, i)),
            decreases count - index,
        {
            let at: usize = index * SECTION_RECORD_SIZE;
            let name_bytes = trim_trailing_nul(slice_subrange(input, at, at + SECTION_NAME_SIZE));
            let name = decode_lossy(name_bytes);
            let section = Section {
                name,
                virtual_size: u32_at(input, at + 8),
                virtual_address: u32_at(input, at + 12),
                raw_data_size: u32_at(input, at + 16),
                raw_data_address: u32_at(input, at + 20),
            };
            sections.push(section);
            index = index + 1;
        }
        let table = SectionTable { sections };
        assert(table@ =~= Seq::new(count as nat, |i: int| section_at(input@, i)));
        Ok((slice_subrange(input, total, input.len()), table))
    }

    /// Translates a virtual address to a file offset: the offset in the
    /// first section whose virtual range contains the address. There is no
    /// offset where no section contains the address, and none where the
    /// offset is not a 32-bit number.
    pub fn rva_to_file_offset(&self, rva: u32) -> (offset: Option<u32>)
        ensures
            offset == translate(self@, rva as int),
    {
        let mut index: usize = 0;
        while index < self.sections.len()
            invariant
                index <= self.sections@.len(),
                translate_from(self@, rva as int, 0) == translate_from(
                    self@,
                    rva as int,
                    index as int,
                ),
            decreases self.sections@.len() - index,
        {
            let section = &self.sections[index];
            assert(self@[index as int] == section@);
            let start: u64 = section.virtual_address as u64;
            let end: u64 = start + section.virtual_size as u64;
            let address: u64 = rva as u64;
            if start <= address && address < end {
                let offset: u64 = section.raw_data_address as u64 + (address - start);
                if offset <= u32::MAX as u64 {
                    return Some(offset as u32);
                } else {
                    return None;
                }
            }
            index = index + 1;
        }
        None
    }
}

} // verus!
