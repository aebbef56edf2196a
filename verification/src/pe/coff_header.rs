//! The structural header of an image.

use vstd::prelude::*;
use vstd::slice::slice_subrange;

use super::bytes::{le_u16_at, u16_at};
use super::ParseError;

verus! {

/// What is kept of the structural header.
#[derive(Clone, Copy, Debug, PartialEq, Eq, Structural)]
pub struct CoffHeader {
    pub number_of_sections: u16,
    pub size_of_optional_header: u16,
}

/// The number of bytes of the structural header, signature included.
pub const COFF_HEADER_SIZE: usize = 24;

/// Whether the input starts with the four bytes `P`, `E`, 0, 0.
pub open spec fn has_signature(input: Seq<u8>) -> bool {
    &&& input.len() >= 4
    &&& input[0] == 0x50
    &&& input[1] == 0x45
    &&& input[2] == 0
    &&& input[3] == 0
}

impl CoffHeader {
    /// The header that the first 24 bytes of `input` hold.
    ///
    /// After the signature come the machine type (2 bytes), the number of
    /// sections (2), twelve bytes of time stamp and symbol table, the size of
    /// the optional header (2) and the characteristics (2).
    pub open spec fn decode(input: Seq<u8>) -> Result<CoffHeader, ParseError> {
        if !has_signature(input) {
            Err(ParseError::BadSignature)
        } else if input.len() < COFF_HEADER_SIZE {
            Err(ParseError::Truncated)
        } else {
            Ok(
                CoffHeader {
                    number_of_sections: le_u16_at(input, 6) as u16,
                    size_of_optional_header: le_u16_at(input, 20) as u16,
                },
            )
        }
    }

    /// Reads the structural header at the start of `input` and returns it
    /// with the input that follows it.
    pub fn parse<'a>(input: &'a [u8]) -> (parsed: Result<(&'a [u8], CoffHeader), ParseError>)
        ensures
            match parsed {
                Ok((rest, header)) => {
                    &&& Self::decode(input@) == Ok::<CoffHeader, ParseError>(header)
                    &&& rest@ == input@.skip(COFF_HEADER_SIZE as int)
                },
                Err(error) => Self::decode(input@) == Err::<CoffHeader, ParseError>(error),
            },
    {
        if input.len() < 4 || input[0] != 0x50 || input[1] != 0x45 || input[2] != 0 || input[3]
            != 0 {
            return Err(ParseError::BadSignature);
        }
        if input.len() < COFF_HEADER_SIZE {
            return Err(ParseError::Truncated);
        }
        let number_of_sections = u16_at(input, 6);
        let size_of_optional_header = u16_at(input, 20);
        let rest = slice_subrange(input, COFF_HEADER_SIZE, input.len());
        Ok((rest, CoffHeader { number_of_sections, size_of_optional_header }))
    }
}

} // verus!
