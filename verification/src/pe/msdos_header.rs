//! The legacy header at the start of an image.

use vstd::prelude::*;
use vstd::slice::slice_subrange;

use super::bytes::{le_u32_at, u32_at};
use super::ParseError;

verus! {

/// What is kept of the legacy header: where the structural header starts.
#[derive(Clone, Copy, Debug, PartialEq, Eq, Structural)]
pub struct MsDosHeader {
    pub pe_offset: u32,
}

/// The number of bytes of the legacy header.
pub const MSDOS_HEADER_SIZE: usize = 0x40;

/// Where in the legacy header the offset of the structural header stands.
pub const PE_OFFSET_AT: usize = 0x3c;

impl MsDosHeader {
    /// The header that the first 64 bytes of `input` hold. Only its last
    /// field is read.
    pub open spec fn decode(input: Seq<u8>) -> Result<MsDosHeader, ParseError> {
        if input.len() < MSDOS_HEADER_SIZE {
            Err(ParseError::Truncated)
        } else {
            Ok(MsDosHeader { pe_offset: le_u32_at(input, PE_OFFSET_AT as int) as u32 })
        }
    }

    /// Reads the legacy header at the start of `input` and returns it with
    /// the input that follows it.
    pub fn parse<'a>(input: &'a [u8]) -> (parsed: Result<(&'a [u8], MsDosHeader), ParseError>)
        ensures
            match parsed {
                Ok((rest, header)) => {
                    &&& Self::decode(input@) == Ok::<MsDosHeader, ParseError>(header)
                    &&& rest@ == input@.skip(MSDOS_HEADER_SIZE as int)
                },
                Err(error) => Self::decode(input@) == Err::<MsDosHeader, ParseError>(error),
            },
    {
        if input.len() < MSDOS_HEADER_SIZE {
            return Err(ParseError::Truncated);
        }
        let pe_offset = u32_at(input, PE_OFFSET_AT);
        Ok((slice_subrange(input, MSDOS_HEADER_SIZE, input.len()), MsDosHeader { pe_offset }))
    }
}

} // verus!
