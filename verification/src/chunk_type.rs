//! The 4-byte chunk-type tag: each byte must be an ASCII letter, and bit 5 of
//! each byte carries one of the four PNG property flags.

use crate::PngError;
use vstd::prelude::*;

verus! {

/// Does `b` hold an ASCII letter (`A`-`Z` or `a`-`z`)?
pub open spec fn is_alpha_byte(b: u8) -> bool {
    (65 <= b && b <= 90) || (97 <= b && b <= 122)
}

/// A well-formed tag: exactly 4 bytes, each an ASCII letter.
pub open spec fn is_tag(s: Seq<u8>) -> bool {
    s.len() == 4 && forall|i: int| 0 <= i < 4 ==> is_alpha_byte(#[trigger] s[i])
}

/// A 4-byte PNG chunk-type code. Construction only succeeds on four ASCII
/// letters, so every value of this type satisfies `is_tag`.
#[derive(Debug, Clone, Copy, PartialEq, Eq)]
pub struct ChunkType {
    bytes: [u8; 4],
}

impl View for ChunkType {
    type V = Seq<u8>;

    closed spec fn view(&self) -> Seq<u8> {
        self.bytes@
    }
}

impl ChunkType {
    /// Every constructed tag is 4 ASCII letters.
    pub open spec fn wf(self) -> bool {
        is_tag(self@)
    }

    /// Validates the 4 raw bytes: any non-letter byte is a format error.
    pub fn parse(bytes: [u8; 4]) -> (r: Result<ChunkType, PngError>)
        ensures
            r is Ok <==> is_tag(bytes@),
            r matches Ok(t) ==> t@ == bytes@ && t.wf(),
            r is Err ==> r == Err::<ChunkType, PngError>(PngError::Format),
    {
        let mut i: usize = 0;
        while i < 4
            invariant
                i <= 4,
                forall|j: int| 0 <= j < i ==> is_alpha_byte(#[trigger] bytes@[j]),
            decreases 4 - i,
        {
            let b = bytes[i];
            if !((65 <= b && b <= 90) || (97 <= b && b <= 122)) {
                return Err(PngError::Format);
            }
            i += 1;
        }
        Ok(ChunkType { bytes })
    }

    /// The raw bytes, in order.
    pub fn bytes(&self) -> (r: [u8; 4])
        ensures
            r@ == self@,
    {
        self.bytes
    }

    /// Ancillary flag: bit 5 of the first byte. Set means the chunk is
    /// non-critical and may safely be ignored by readers.
    pub fn is_ancillary(&self) -> (r: bool)
        ensures
            r == (self@[0] & 0x20 != 0),
    {
        self.bytes[0] & 0x20 != 0
    }

    /// Private flag: bit 5 of the second byte.
    pub fn is_private(&self) -> (r: bool)
        ensures
            r == (self@[1] & 0x20 != 0),
    {
        self.bytes[1] & 0x20 != 0
    }

    /// Safe-to-copy flag: bit 5 of the fourth byte.
    pub fn is_safe_to_copy(&self) -> (r: bool)
        ensures
            r == (self@[3] & 0x20 != 0),
    {
        self.bytes[3] & 0x20 != 0
    }

    /// A tag is valid iff the reserved bit (bit 5 of the third byte) is
    /// clear, i.e. the third character is uppercase.
    pub fn is_valid(&self) -> (r: bool)
        ensures
            r == spec_tag_valid(self@),
    {
        self.bytes[2] & 0x20 == 0
    }
}

/// The reserved bit of the tag is clear (third character uppercase).
pub open spec fn spec_tag_valid(s: Seq<u8>) -> bool {
    s[2] & 0x20 == 0
}

} // verus!
