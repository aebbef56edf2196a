//! The import directory table of an image and the names of the modules that
//! it lists.

use vstd::prelude::*;
use vstd::slice::slice_subrange;
use vstd::utf8::{decode_utf8, valid_utf8};

use super::bytes::{le_u32_at, u32_at};
use super::section_table::{translate, SectionModel, SectionTable};
use super::ParseError;
use crate::text::decode_strict;

verus! {

/// One entry of the import directory table.
#[derive(Clone, Copy, Debug, PartialEq, Eq, Structural)]
pub struct DirectoryEntry {
    pub import_lookup_table_rva: u32,
    pub name_rva: u32,
}

/// A module that an image imports.
#[derive(Debug, PartialEq, Eq)]
pub struct ImportedDll {
    pub name: String,
}

/// The modules that an image imports, in the order of its import directory
/// table.
#[derive(Debug, PartialEq, Eq)]
pub struct ImportTable {
    pub imports: Vec<ImportedDll>,
}

impl View for ImportTable {
    type V = Seq<Seq<char>>;

    open spec fn view(&self) -> Seq<Seq<char>> {
        Seq::new(self.imports@.len(), |i: int| self.imports@[i].name@)
    }
}

/// The number of bytes of one entry of the import directory table.
pub const DIRECTORY_ENTRY_SIZE: usize = 20;

/// The entry at `index` of an import directory table: the address of the
/// lookup table in its first four bytes and the address of the name in the
/// four bytes from the twelfth on. The other fields are not read.
pub open spec fn entry_at(input: Seq<u8>, index: int) -> DirectoryEntry {
    let at = index * DIRECTORY_ENTRY_SIZE as int;
    DirectoryEntry {
        import_lookup_table_rva: le_u32_at(input, at) as u32,
        name_rva: le_u32_at(input, at + 12) as u32,
    }
}

/// The index of the first entry from `index` on whose first field is zero,
/// if the input holds that entry whole.
pub open spec fn terminator_from(input: Seq<u8>, index: int) -> Option<int>
    decreases input.len() - index * DIRECTORY_ENTRY_SIZE as int,
{
    if index < 0 || input.len() < (index + 1) * DIRECTORY_ENTRY_SIZE as int {
        None
    } else if entry_at(input, index).import_lookup_table_rva == 0 {
        Some(index)
    } else {
        terminator_from(input, index + 1)
    }
}

/// The number of bytes from `at` on that come before the first zero byte or
/// the end of the data.
pub open spec fn name_length(data: Seq<u8>, at: int) -> int
    decreases data.len() - at,
{
    if at < 0 || at >= data.len() || data[at] == 0 {
        0
    } else {
        1 + name_length(data, at + 1)
    }
}

/// The bytes of the name that starts at the file offset `at`.
pub open spec fn name_bytes(data: Seq<u8>, at: int) -> Seq<u8> {
    data.subrange(at, at + name_length(data, at))
}

/// The name that stands at the virtual address `rva`: the longest run of
/// bytes other than zero at its file offset, read as UTF-8.
pub open spec fn name_at(data: Seq<u8>, sections: Seq<SectionModel>, rva: int) -> Result<
    Seq<char>,
    ParseError,
> {
    match translate(sections, rva) {
        None => Err(ParseError::UnmappedAddress),
        Some(offset) => {
            if offset > data.len() {
                Err(ParseError::UnmappedAddress)
            } else if name_length(data, offset as int) == 0 || !valid_utf8(
                name_bytes(data, offset as int),
            ) {
                Err(ParseError::InvalidName)
            } else {
                Ok(decode_utf8(name_bytes(data, offset as int)))
            }
        },
    }
}

/// The names of the entries, in their order, or the error of the first
/// entry whose name cannot be read.
pub open spec fn names_of(
    data: Seq<u8>,
    sections: Seq<SectionModel>,
    entries: Seq<DirectoryEntry>,
) -> Result<Seq<Seq<char>>, ParseError>
    decreases entries.len(),
{
    if entries.len() == 0 {
        Ok(Seq::empty())
    } else {
        match names_of(data, sections, entries.drop_last()) {
            Err(error) => Err(error),
            Ok(names) => match name_at(data, sections, entries.last().name_rva as int) {
                Err(error) => Err(error),
                Ok(name) => Ok(names.push(name)),
            },
        }
    }
}

/// An error among the first entries is the error of the whole list.
proof fn lemma_names_of_prefix_error(
    data: Seq<u8>,
    sections: Seq<SectionModel>,
    entries: Seq<DirectoryEntry>,
    count: int,
)
    requires
        0 <= count <= entries.len(),
        names_of(data, sections, entries.take(count)) is Err,
    ensures
        names_of(data, sections, entries) == names_of(data, sections, entries.take(count)),
    decreases entries.len() - count,
{
    if count < entries.len() {
        assert(entries.take(count + 1).drop_last() == entries.take(count));
        lemma_names_of_prefix_error(data, sections, entries, count + 1);
    } else {
        assert(entries.take(count) == entries);
    }
}

/// The length of the name at `at`, counted byte by byte.
fn measure_name(data: &[u8], at: usize) -> (length: usize)
    requires
        at <= data@.len(),
    ensures
        length as int == name_length(data@, at as int),
        at + length <= data@.len(),
{
    let mut end: usize = at;
    while end < data.len() && data[end] != 0
        invariant
            at <= end <= data@.len(),
            name_length(data@, at as int) == (end - at) + name_length(data@, end as int),
        decreases data@.len() - end,
    {
        end = end + 1;
    }
    end - at
}

impl ImportTable {
    /// The entries of an import directory table: those before the first
    /// entry whose first field is zero.
    pub open spec fn decode_directory(input: Seq<u8>) -> Result<Seq<DirectoryEntry>, ParseError> {
        match terminator_from(input, 0) {
            None => Err(ParseError::Truncated),
            Some(count) => Ok(Seq::new(count as nat, |i: int| entry_at(input, i))),
        }
    }

    /// The names of the modules that the import directory table at the start
    /// of `input` lists. `data` is the whole file, in which the names stand.
    pub open spec fn decode(input: Seq<u8>, data: Seq<u8>, sections: Seq<SectionModel>) -> Result<
        Seq<Seq<char>>,
        ParseError,
    > {
        match Self::decode_directory(input) {
            Err(error) => Err(error),
            Ok(entries) => names_of(data, sections, entries),
        }
    }

    /// Reads the entries of the import directory table at the start of
    /// `input`, up to the entry that ends the table, and returns them with
    /// the input that follows that entry.
    pub fn parse_import_directory_table<'a>(input: &'a [u8]) -> (parsed: Result<
        (&'a [u8], Vec<DirectoryEntry>),
        ParseError,
    >)
        ensures
            match parsed {
                Ok((rest, entries)) => {
                    &&& Self::decode_directory(input@) == Ok::<Seq<DirectoryEntry>, ParseError>(
                        entries@,
                    )
                    &&& rest@ == input@.skip((entries@.len() + 1) * DIRECTORY_ENTRY_SIZE as int)
                },
                Err(error) => Self::decode_directory(input@) == Err::<
                    Seq<DirectoryEntry>,
                    ParseError,
                >(error),
            },
    {
        let mut entries: Vec<DirectoryEntry> = Vec::new();
        let mut at: usize = 0;
        loop
            invariant
                at == entries@.len() * DIRECTORY_ENTRY_SIZE,
                at <= input@.len(),
                terminator_from(input@, 0) == terminator_from(input@, entries@.len() as int),
                forall|i: int| 0 <= i < entries@.len() ==> entries@[i] == entry_at(input@, i),
            decreases input@.len() - at,
        {
            if input.len() - at < DIRECTORY_ENTRY_SIZE {
                return Err(ParseError::Truncated);
            }
            let entry = DirectoryEntry {
                import_lookup_table_rva: u32_at(input, at),
                name_rva: u32_at(input, at + 12),
            };
            at = at + DIRECTORY_ENTRY_SIZE;
            if entry.import_lookup_table_rva == 0 {
                assert(entries@ =~= Seq::new(entries@.len(), |i: int| entry_at(input@, i)));
                return Ok((slice_subrange(input, at, input.len()), entries));
            }
            entries.push(entry);
        }
    }

    /// Reads the import directory table at the start of `input` and the name
    /// of each of its entries. `data` is the whole file and `sections` its
    /// section table, by which the address of a name becomes a file offset.
    pub fn parse<'a>(input: &'a [u8], data: &[u8], sections: &SectionTable) -> (parsed: Result<
        (&'a [u8], ImportTable),
        ParseError,
    >)
        ensures
            match parsed {
                Ok((rest, table)) => {
                    &&& Self::decode(input@, data@, sections@) == Ok::<
                        Seq<Seq<char>>,
                        ParseError,
                    >(table@)
                    &&& Self::decode_directory(input@) matches Ok(entries) && rest@ == input@.skip(
                        (entries.len() + 1) * DIRECTORY_ENTRY_SIZE as int,
                    )
                },
                Err(error) => Self::decode(input@, data@, sections@) == Err::<
                    Seq<Seq<char>>,
                    ParseError,
                >(error),
            },
    {
        let (rest, entries) = match Self::parse_import_directory_table(input) {
            Ok(found) => found,
            Err(error) => {
                return Err(error);
            },
        };
        let mut imports: Vec<ImportedDll> = Vec::new();
        let mut index: usize = 0;
        assert(Seq::new(imports@.len(), |i: int| imports@[i].name@) =~= Seq::<Seq<char>>::empty());
        assert(entries@.take(0).len() == 0);
        while index < entries.len()
            invariant
                index <= entries@.len(),
                imports@.len() == index,
                Self::decode_directory(input@) == Ok::<Seq<DirectoryEntry>, ParseError>(entries@),
                names_of(data@, sections@, entries@.take(index as int)) == Ok::<
                    Seq<Seq<char>>,
                    ParseError,
                >(Seq::new(imports@.len(), |i: int| imports@[i].name@)),
            decreases entries@.len() - index,
        {
            let ghost before = Seq::new(imports@.len(), |i: int| imports@[i].name@);
            proof {
                assert(entries@.take(index + 1).drop_last() == entries@.take(index as int));
                assert(entries@.take(index + 1).last() == entries@[index as int]);
            }
            let name = match Self::read_name(data, sections, entries[index].name_rva) {
                Ok(name) => name,
                Err(error) => {
                    proof {
                        assert(names_of(data@, sections@, entries@.take(index + 1)) == Err::<
                            Seq<Seq<char>>,
                            ParseError,
                        >(error));
                        lemma_names_of_prefix_error(data@, sections@, entries@, index + 1);
                    }
                    return Err(error);
                },
            };
            imports.push(ImportedDll { name });
            index = index + 1;
            assert(Seq::new(imports@.len(), |i: int| imports@[i].name@) =~= before.push(
                imports@.last().name@,
            ));
        }
        assert(entries@.take(index as int) == entries@);
        Ok((rest, ImportTable { imports }))
    }

    /// Reads the name that stands at the virtual address `rva`.
    pub fn read_name(data: &[u8], sections: &SectionTable, rva: u32) -> (name: Result<
        String,
        ParseError,
    >)
        ensures
            match name {
                Ok(text) => name_at(data@, sections@, rva as int) == Ok::<Seq<char>, ParseError>(
                    text@,
                ),
                Err(error) => name_at(data@, sections@, rva as int) == Err::<
                    Seq<char>,
                    ParseError,
                >(error),
            },
    {
        let offset = match sections.rva_to_file_offset(rva) {
            Some(offset) => offset as usize,
            None => {
                return Err(ParseError::UnmappedAddress);
            },
        };
        if offset > data.len() {
            return Err(ParseError::UnmappedAddress);
        }
        let length = measure_name(data, offset);
        if length == 0 {
            return Err(ParseError::InvalidName);
        }
        match decode_strict(slice_subrange(data, offset, offset + length)) {
            Some(text) => Ok(text.to_owned()),
            None => Err(ParseError::InvalidName),
        }
    }
}

} // verus!
