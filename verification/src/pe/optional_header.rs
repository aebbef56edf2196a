//! The optional header of an image, of which only the entry of the import
//! table in the data directories is kept.

use vstd::prelude::*;
use vstd::slice::slice_subrange;

use super::bytes::{le_u16_at, le_u32_at, u16_at, u32_at};
use super::ParseError;

verus! {

/// The two layouts of the optional header.
#[derive(Clone, Copy, Debug, PartialEq, Eq, Structural)]
pub enum Architecture {
    X86,
    X64,
}

/// One entry of the data directories: where a table lies and how long it is.
#[derive(Clone, Copy, Debug, PartialEq, Eq, Structural)]
pub struct DataDirectory {
    pub rva: u32,
    pub size: u32,
}

/// What is kept of the optional header.
#[derive(Clone, Copy, Debug, PartialEq, Eq, Structural)]
pub struct OptionalHeader {
    pub architecture: Architecture,
    pub number_of_directories: u32,
    pub import_table: Option<DataDirectory>,
}

/// The magic number of the 32-bit layout.
pub const MAGIC_X86: u16 = 0x10b;

/// The magic number of the 64-bit layout.
pub const MAGIC_X64: u16 = 0x20b;

/// Where the data directories start in the 32-bit layout.
pub const DIRECTORIES_AT_X86: usize = 96;

/// Where the data directories start in the 64-bit layout.
pub const DIRECTORIES_AT_X64: usize = 112;

/// The number of bytes of one entry of the data directories.
pub const DIRECTORY_SIZE: usize = 8;

/// The index of the import table among the data directories.
pub const IMPORT_DIRECTORY: usize = 1;

/// The layout that a magic number stands for.
pub open spec fn architecture_of(magic: int) -> Option<Architecture> {
    if magic == MAGIC_X86 {
        Some(Architecture::X86)
    } else if magic == MAGIC_X64 {
        Some(Architecture::X64)
    } else {
        None
    }
}

/// Where the data directories start in a layout. The number of directories
/// stands in the four bytes before them.
pub open spec fn directories_at(architecture: Architecture) -> int {
    match architecture {
        Architecture::X86 => DIRECTORIES_AT_X86 as int,
        Architecture::X64 => DIRECTORIES_AT_X64 as int,
    }
}

impl OptionalHeader {
    /// The number of bytes that the header takes: the fixed fields of its
    /// layout and its data directories.
    pub open spec fn byte_length(self) -> int {
        directories_at(self.architecture) + DIRECTORY_SIZE * self.number_of_directories
    }

    /// The header that the start of `input` holds: the magic number in the
    /// first two bytes selects the layout, and the entry of the import table
    /// is the second of the data directories, if there are that many.
    pub open spec fn decode(input: Seq<u8>) -> Result<OptionalHeader, ParseError> {
        if input.len() < 2 {
            Err(ParseError::Truncated)
        } else {
            match architecture_of(le_u16_at(input, 0)) {
                None => Err(ParseError::BadMagic),
                Some(architecture) => {
                    let start = directories_at(architecture);
                    if input.len() < start {
                        Err(ParseError::Truncated)
                    } else {
                        let count = le_u32_at(input, start - 4);
                        let entry = start + DIRECTORY_SIZE * IMPORT_DIRECTORY;
                        let header = OptionalHeader {
                            architecture,
                            number_of_directories: count as u32,
                            import_table: if count > IMPORT_DIRECTORY {
                                Some(
                                    DataDirectory {
                                        rva: le_u32_at(input, entry) as u32,
                                        size: le_u32_at(input, entry + 4) as u32,
                                    },
                                )
                            } else {
                                None
                            },
                        };
                        if input.len() < start + DIRECTORY_SIZE * count {
                            Err(ParseError::Truncated)
                        } else {
                            Ok(header)
                        }
                    }
                },
            }
        }
    }

    /// Reads the optional header at the start of `input` and returns it with
    /// the input that follows its data directories.
    pub fn parse<'a>(input: &'a [u8]) -> (parsed: Result<(&'a [u8], OptionalHeader), ParseError>)
        ensures
            match parsed {
                Ok((rest, header)) => {
                    &&& Self::decode(input@) == Ok::<OptionalHeader, ParseError>(header)
                    &&& header.byte_length() <= input@.len()
                    &&& rest@ == input@.skip(header.byte_length())
                },
                Err(error) => Self::decode(input@) == Err::<OptionalHeader, ParseError>(error),
            },
    {
        if input.len() < 2 {
            return Err(ParseError::Truncated);
        }
        let magic = u16_at(input, 0);
        let (architecture, start) = if magic == MAGIC_X86 {
            (Architecture::X86, DIRECTORIES_AT_X86)
        } else if magic == MAGIC_X64 {
            (Architecture::X64, DIRECTORIES_AT_X64)
        } else {
            return Err(ParseError::BadMagic);
        };
        if input.len() < start {
            return Err(ParseError::Truncated);
        }
        let count = u32_at(input, start - 4);
        let total: u64 = start as u64 + DIRECTORY_SIZE as u64 * count as u64;
        if (input.len() as u64) < total {
            return Err(ParseError::Truncated);
        }
        let import_table = if count as usize > IMPORT_DIRECTORY {
            let entry = start + DIRECTORY_SIZE * IMPORT_DIRECTORY;
            Some(DataDirectory { rva: u32_at(input, entry), size: u32_at(input, entry + 4) })
        } else {
            None
        };
        let header = OptionalHeader { architecture, number_of_directories: count, import_table };
        Ok((slice_subrange(input, total as usize, input.len()), header))
    }

    /// The entry of the import table, if the header has one.
    pub fn get_import_table_entry(&self) -> (entry: Option<DataDirectory>)
        ensures
            entry == self.import_table,
    {
        self.import_table
    }
}

} // verus!
