//! Whole-file encode and decode: the 12 header bytes followed immediately by
//! the flat pixel buffer, with no trailer, checksum or per-row padding.

use crate::bytes::{lemma_u32_le_round_trip, u32_le_bytes};
use crate::error::BruhError;
use crate::header::{spec_header_bytes, spec_parse_header, BruhHeader, BRUH_HEADER_SIZE, BRUH_MAGIC_NUMBER};
use crate::pixels::{lemma_pixels_bytes_len, pixels_bytes, serialize_pixels, Pixel};
use vstd::prelude::*;

verus! {

/// The bytes of a whole file for an image of the given dimensions: header
/// first, then the serialization of the row-major pixel sequence.
pub open spec fn spec_encode(width: u32, height: u32, pixels: Seq<Pixel>) -> Seq<u8> {
    spec_header_bytes(BruhHeader { magic: BRUH_MAGIC_NUMBER, width, height }) + pixels_bytes(
        pixels,
    )
}

/// What decoding a whole file yields: the parsed header together with every
/// byte after the first 12, untouched. The trailing length is never compared
/// against `width * height * 4`; that check is the caller's burden.
pub open spec fn spec_decode(buf: Seq<u8>) -> Result<(BruhHeader, Seq<u8>), BruhError> {
    match spec_parse_header(buf) {
        Ok(h) => Ok((h, buf.skip(12))),
        Err(e) => Err(e),
    }
}

/// Encodes an image into the bytes of a whole file. Cannot fail; the pixel
/// sequence must be the image's own row-major sequence, one entry per pixel.
pub fn encode_image(width: u32, height: u32, pixels: &Vec<Pixel>) -> (r: Vec<u8>)
    requires
        pixels@.len() == width * height,
    ensures
        r@ == spec_encode(width, height, pixels@),
        r@.len() == 12 + 4 * pixels@.len(),
{
    let header = BruhHeader::new(width, height);
    let mut out = header.bytes();
    let mut data = serialize_pixels(pixels);
    out.append(&mut data);
    proof {
        lemma_pixels_bytes_len(pixels@);
    }
    out
}

/// Decodes the bytes of a whole file: parses and validates the leading
/// header, then hands back the remaining bytes as the flat pixel buffer.
/// Fails exactly as `spec_parse_header` does: `InvalidInput` under 12 bytes,
/// `FormatMismatch` on a foreign magic tag, and nothing else.
pub fn decode_image(buf: &Vec<u8>) -> (r: Result<(BruhHeader, Vec<u8>), BruhError>)
    ensures
        match r {
            Ok((h, body)) => spec_decode(buf@) == Ok::<(BruhHeader, Seq<u8>), BruhError>(
                (h, body@),
            ),
            Err(e) => spec_decode(buf@) == Err::<(BruhHeader, Seq<u8>), BruhError>(e),
        },
{
    let header = match BruhHeader::parse(buf) {
        Ok(h) => h,
        Err(e) => {
            return Err(e);
        },
    };
    let n: usize = buf.len();
    let mut body: Vec<u8> = Vec::new();
    let mut i: usize = BRUH_HEADER_SIZE;
    while i < n
        invariant
            12 <= i <= n,
            n == buf@.len(),
            body@ == buf@.subrange(12, i as int),
        decreases n - i,
    {
        body.push(buf[i]);
        proof {
            assert(body@ =~= buf@.subrange(12, i + 1));
        }
        i = i + 1;
    }
    proof {
        assert(body@ =~= buf@.skip(12));
    }
    Ok((header, body))
}

/// Round trip: encoding an image with positive dimensions and decoding the
/// file again yields the same dimensions, the magic tag, and pixel data
/// byte-for-byte identical to the encoder's own row-major RGBA serialization
/// of the source pixels.
pub proof fn lemma_round_trip(width: u32, height: u32, pixels: Seq<Pixel>)
    requires
        width > 0,
        height > 0,
        pixels.len() == width * height,
    ensures
        spec_decode(spec_encode(width, height, pixels)) == Ok::<
            (BruhHeader, Seq<u8>),
            BruhError,
        >((BruhHeader { magic: BRUH_MAGIC_NUMBER, width, height }, pixels_bytes(pixels))),
{
    let h = BruhHeader { magic: BRUH_MAGIC_NUMBER, width, height };
    let hb = spec_header_bytes(h);
    let pb = pixels_bytes(pixels);
    let file = spec_encode(width, height, pixels);
    lemma_pixels_bytes_len(pixels);
    assert(hb.len() == 12);
    assert(file.subrange(0, 4) =~= u32_le_bytes(h.magic));
    assert(file.subrange(4, 8) =~= u32_le_bytes(h.width));
    assert(file.subrange(8, 12) =~= u32_le_bytes(h.height));
    lemma_u32_le_round_trip(h.magic);
    lemma_u32_le_round_trip(h.width);
    lemma_u32_le_round_trip(h.height);
    assert(file.skip(12) =~= pb);
}

} // verus!
