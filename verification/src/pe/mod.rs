//! The binary image parser: from the bytes of an executable file to the names
//! of the modules that it imports.

use vstd::prelude::*;

pub mod bytes;
pub mod coff_header;
pub mod file;
pub mod import_table;
pub mod msdos_header;
pub mod optional_header;
pub mod section_table;

verus! {

/// Why the bytes of a file are not an image that can be read.
#[derive(Clone, Copy, Debug, PartialEq, Eq, Structural)]
pub enum ParseError {
    /// The input ends before the last byte of a field or record.
    Truncated,
    /// The structural header does not start with its signature.
    BadSignature,
    /// The optional header is neither of the 32-bit nor of the 64-bit layout.
    BadMagic,
    /// A virtual address lies in no section, or its file offset lies behind
    /// the end of the file.
    UnmappedAddress,
    /// The name of an imported module is empty or is not UTF-8.
    InvalidName,
}

} // verus!
