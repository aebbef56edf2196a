//! A whole image: the cascade of its headers down to its imports.

use vstd::prelude::*;
use vstd::slice::slice_subrange;

use super::coff_header::{CoffHeader, COFF_HEADER_SIZE};
use super::import_table::{ImportTable, ImportedDll};
use super::msdos_header::MsDosHeader;
use super::optional_header::OptionalHeader;
use super::section_table::{translate, SectionTable};
use super::ParseError;

verus! {

/// What is kept of a parsed image: the modules that it imports.
#[derive(Debug, Default, PartialEq, Eq)]
pub struct File {
    pub imports: Vec<ImportedDll>,
}

impl View for File {
    type V = Seq<Seq<char>>;

    /// The names of the imported modules, in the order of the file.
    open spec fn view(&self) -> Seq<Seq<char>> {
        Seq::new(self.imports@.len(), |i: int| self.imports@[i].name@)
    }
}

impl File {
    /// The names of the modules that the image in `data` imports.
    ///
    /// The legacy header gives the offset of the structural header. The
    /// optional header follows the structural one and gives the address of
    /// the import directory table. Where that address is missing or zero the
    /// image imports nothing. Otherwise the section table, which follows the
    /// optional header, turns the address into a file offset, and the table
    /// is read there.
    pub open spec fn decode(data: Seq<u8>) -> Result<Seq<Seq<char>>, ParseError> {
        match MsDosHeader::decode(data) {
            Err(error) => Err(error),
            Ok(msdos) => if msdos.pe_offset > data.len() {
                Err(ParseError::Truncated)
            } else {
                let at_coff = data.skip(msdos.pe_offset as int);
                match CoffHeader::decode(at_coff) {
                    Err(error) => Err(error),
                    Ok(coff) => {
                        let at_optional = at_coff.skip(COFF_HEADER_SIZE as int);
                        match OptionalHeader::decode(at_optional) {
                            Err(error) => Err(error),
                            Ok(optional) => match optional.import_table {
                                None => Ok(Seq::empty()),
                                Some(entry) => if entry.rva == 0 {
                                    Ok(Seq::empty())
                                } else {
                                    Self::decode_imports(
                                        data,
                                        at_optional.skip(optional.byte_length()),
                                        coff.number_of_sections as int,
                                        entry.rva as int,
                                    )
                                },
                            },
                        }
                    },
                }
            },
        }
    }

    /// The names that the import directory table at the virtual address
    /// `rva` lists, where the section table of `count` records stands at the
    /// start of `at_sections`.
    pub open spec fn decode_imports(
        data: Seq<u8>,
        at_sections: Seq<u8>,
        count: int,
        rva: int,
    ) -> Result<Seq<Seq<char>>, ParseError> {
        match SectionTable::decode(at_sections, count) {
            Err(error) => Err(error),
            Ok(sections) => match translate(sections, rva) {
                None => Err(ParseError::UnmappedAddress),
                Some(offset) => if offset > data.len() {
                    Err(ParseError::UnmappedAddress)
                } else {
                    ImportTable::decode(data.skip(offset as int), data, sections)
                },
            },
        }
    }

    /// An image that imports nothing.
    pub fn new() -> (file: Self)
        ensures
            file@ == Seq::<Seq<char>>::empty(),
    {
        let file = File { imports: Vec::new() };
        assert(file@ =~= Seq::<Seq<char>>::empty());
        file
    }

    /// Parses the image in `data` and returns the modules that it imports,
    /// together with `data` itself.
    pub fn parse<'a>(data: &'a [u8]) -> (parsed: Result<(&'a [u8], File), ParseError>)
        ensures
            match parsed {
                Ok((rest, file)) => {
                    &&& Self::decode(data@) == Ok::<Seq<Seq<char>>, ParseError>(file@)
                    &&& rest@ == data@
                },
                Err(error) => Self::decode(data@) == Err::<Seq<Seq<char>>, ParseError>(error),
            },
    {
        let msdos_header = match MsDosHeader::parse(data) {
            Ok((_, header)) => header,
            Err(error) => {
                return Err(error);
            },
        };
        if msdos_header.pe_offset as usize > data.len() {
            return Err(ParseError::Truncated);
        }
        let at_coff = slice_subrange(data, msdos_header.pe_offset as usize, data.len());
        let (input, coff_header) = match CoffHeader::parse(at_coff) {
            Ok(found) => found,
            Err(error) => {
                return Err(error);
            },
        };
        let (input, optional_header) = match OptionalHeader::parse(input) {
            Ok(found) => found,
            Err(error) => {
                return Err(error);
            },
        };
        let rva = match optional_header.get_import_table_entry() {
            Some(entry) => entry.rva,
            None => 0,
        };
        if rva == 0 {
            return Ok((data, File::new()));
        }
        let section_table = match SectionTable::parse(input, coff_header.number_of_sections) {
            Ok((_, table)) => table,
            Err(error) => {
                return Err(error);
            },
        };
        let offset = match section_table.rva_to_file_offset(rva) {
            Some(offset) => offset as usize,
            None => {
                return Err(ParseError::UnmappedAddress);
            },
        };
        if offset > data.len() {
            return Err(ParseError::UnmappedAddress);
        }
        let at_imports = slice_subrange(data, offset, data.len());
        match ImportTable::parse(at_imports, data, &section_table) {
            Ok((_, table)) => {
                let file = File { imports: table.imports };
                assert(file@ =~= table@);
                Ok((data, file))
            },
            Err(error) => Err(error),
        }
    }
}

} // verus!
