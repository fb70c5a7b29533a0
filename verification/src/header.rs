//! The fixed 12-byte header: a 4-byte magic tag, then width and height, each
//! packed as a 32-bit little-endian word.

use crate::bytes::{
    lemma_u32_le_inverse, lemma_u32_le_round_trip, push_u32_le, read_u32_le, u32_from_le,
    u32_le_bytes,
};
use crate::error::BruhError;
use vstd::prelude::*;

verus! {

/// The magic tag: the ASCII bytes 'B', 'R', 'U', 'H' packed little-endian
/// into one 32-bit word ('B' is the least significant byte).
pub const BRUH_MAGIC_NUMBER: u32 = 0x4855_5242;

/// On-disk size of the header in bytes: three 4-byte words, no padding.
pub const BRUH_HEADER_SIZE: usize = 12;

/// The magic tag as the four bytes that open every file of the format.
pub open spec fn magic_tag_bytes() -> Seq<u8> {
    seq![0x42u8, 0x52u8, 0x55u8, 0x48u8]
}

/// The header record. `width` and `height` are > 0 for any image the encoder
/// accepts, but the decoder does not validate that: the magic tag is the sole
/// structural check the format performs.
#[derive(Clone, Copy, Debug, PartialEq, Eq, Structural)]
pub struct BruhHeader {
    pub magic: u32,
    pub width: u32,
    pub height: u32,
}

/// The 12 bytes of a header: magic, width, height, each little-endian.
pub open spec fn spec_header_bytes(h: BruhHeader) -> Seq<u8> {
    u32_le_bytes(h.magic) + u32_le_bytes(h.width) + u32_le_bytes(h.height)
}

/// What parsing the leading bytes of a buffer yields: `InvalidInput` when
/// fewer than 12 bytes are available, `FormatMismatch` when the first word is
/// not the magic tag, and otherwise the header read from the first 12 bytes.
/// Width and height are not validated, and no clause relates them to the
/// number of bytes that follow: that gap is part of the format.
pub open spec fn spec_parse_header(buf: Seq<u8>) -> Result<BruhHeader, BruhError> {
    if buf.len() < 12 {
        Err(BruhError::InvalidInput)
    } else if u32_from_le(buf.subrange(0, 4)) != BRUH_MAGIC_NUMBER {
        Err(BruhError::FormatMismatch)
    } else {
        Ok(
            BruhHeader {
                magic: BRUH_MAGIC_NUMBER,
                width: u32_from_le(buf.subrange(4, 8)),
                height: u32_from_le(buf.subrange(8, 12)),
            },
        )
    }
}

impl BruhHeader {
    /// A fresh header for an image of the given dimensions.
    pub fn new(width: u32, height: u32) -> (h: BruhHeader)
        ensures
            h == (BruhHeader { magic: BRUH_MAGIC_NUMBER, width, height }),
    {
        BruhHeader { magic: BRUH_MAGIC_NUMBER, width, height }
    }

    /// Packs the header field by field into its 12 on-disk bytes. Cannot
    /// fail, and the length is 12 for every width and height.
    pub fn bytes(&self) -> (r: Vec<u8>)
        ensures
            r@ == spec_header_bytes(*self),
            r@.len() == 12,
    {
        let mut out: Vec<u8> = Vec::new();
        push_u32_le(&mut out, self.magic);
        push_u32_le(&mut out, self.width);
        push_u32_le(&mut out, self.height);
        proof {
            assert(out@ =~= spec_header_bytes(*self));
        }
        out
    }

    /// Reads a header from the first 12 bytes of `buf`, checking only the
    /// magic tag, as `spec_parse_header` lays out.
    pub fn parse(buf: &Vec<u8>) -> (r: Result<BruhHeader, BruhError>)
        ensures
            r == spec_parse_header(buf@),
    {
        if buf.len() < BRUH_HEADER_SIZE {
            return Err(BruhError::InvalidInput);
        }
        let magic = read_u32_le(buf, 0);
        if magic != BRUH_MAGIC_NUMBER {
            return Err(BruhError::FormatMismatch);
        }
        let width = read_u32_le(buf, 4);
        let height = read_u32_le(buf, 8);
        Ok(BruhHeader { magic, width, height })
    }
}

/// The magic word decomposes little-endian into the ASCII bytes
/// 'B', 'R', 'U', 'H', in that order: the byte-order self-check.
pub proof fn lemma_magic_tag_bytes()
    ensures
        u32_le_bytes(BRUH_MAGIC_NUMBER) == magic_tag_bytes(),
{
    assert((0x4855_5242u32 & 0xff) as u8 == 0x42u8 && ((0x4855_5242u32 >> 8) & 0xff) as u8
        == 0x52u8 && ((0x4855_5242u32 >> 16) & 0xff) as u8 == 0x55u8 && ((0x4855_5242u32 >> 24)
        & 0xff) as u8 == 0x48u8) by (bit_vector);
    assert(u32_le_bytes(BRUH_MAGIC_NUMBER) =~= magic_tag_bytes());
}

/// Magic rejection: a buffer of at least 12 bytes whose first four bytes are
/// anything other than 'B', 'R', 'U', 'H' parses to `FormatMismatch`,
/// regardless of the remaining contents.
pub proof fn lemma_magic_rejection(buf: Seq<u8>)
    requires
        buf.len() >= 12,
        buf.subrange(0, 4) != magic_tag_bytes(),
    ensures
        spec_parse_header(buf) == Err::<BruhHeader, BruhError>(BruhError::FormatMismatch),
{
    if u32_from_le(buf.subrange(0, 4)) == BRUH_MAGIC_NUMBER {
        lemma_u32_le_inverse(buf.subrange(0, 4));
        lemma_magic_tag_bytes();
    }
}

/// Short-buffer rejection: a buffer of fewer than 12 bytes parses to
/// `InvalidInput`.
pub proof fn lemma_short_buffer_rejection(buf: Seq<u8>)
    requires
        buf.len() < 12,
    ensures
        spec_parse_header(buf) == Err::<BruhHeader, BruhError>(BruhError::InvalidInput),
{
}

/// Packing a header and parsing the bytes back gives the header again,
/// whenever its magic field holds the magic tag.
pub proof fn lemma_header_round_trip(h: BruhHeader)
    requires
        h.magic == BRUH_MAGIC_NUMBER,
    ensures
        spec_parse_header(spec_header_bytes(h)) == Ok::<BruhHeader, BruhError>(h),
{
    let b = spec_header_bytes(h);
    assert(b.subrange(0, 4) =~= u32_le_bytes(h.magic));
    assert(b.subrange(4, 8) =~= u32_le_bytes(h.width));
    assert(b.subrange(8, 12) =~= u32_le_bytes(h.height));
    lemma_u32_le_round_trip(h.magic);
    lemma_u32_le_round_trip(h.width);
    lemma_u32_le_round_trip(h.height);
}

} // verus!
