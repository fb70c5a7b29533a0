//! The pixel stream: between structured RGBA pixels and the flat byte buffer
//! that follows the header, in row-major, channel-interleaved order.

use vstd::prelude::*;

verus! {

/// One pixel: straight (non-premultiplied) RGBA channels.
#[derive(Clone, Copy, Debug, PartialEq, Eq, Structural)]
pub struct Pixel {
    pub r: u8,
    pub g: u8,
    pub b: u8,
    pub a: u8,
}

impl Pixel {
    /// A pixel from its four channels.
    pub fn new(r: u8, g: u8, b: u8, a: u8) -> (p: Pixel)
        ensures
            p == (Pixel { r, g, b, a }),
    {
        Pixel { r, g, b, a }
    }
}

/// The four serialized bytes of one pixel, in the fixed order R, G, B, A.
pub open spec fn pixel_bytes(p: Pixel) -> Seq<u8> {
    seq![p.r, p.g, p.b, p.a]
}

/// The serialization of a pixel sequence: the four bytes of each pixel in
/// turn. For a row-major pixel sequence this is exactly the format's pixel
/// buffer.
pub open spec fn pixels_bytes(ps: Seq<Pixel>) -> Seq<u8>
    decreases ps.len(),
{
    if ps.len() == 0 {
        Seq::empty()
    } else {
        pixels_bytes(ps.drop_last()) + pixel_bytes(ps.last())
    }
}

/// The serialization of `n` pixels is exactly `4 * n` bytes long.
pub proof fn lemma_pixels_bytes_len(ps: Seq<Pixel>)
    ensures
        pixels_bytes(ps).len() == 4 * ps.len(),
    decreases ps.len(),
{
    if ps.len() > 0 {
        lemma_pixels_bytes_len(ps.drop_last());
    }
}

/// Serializing one more pixel appends its four bytes.
pub proof fn lemma_pixels_bytes_push(ps: Seq<Pixel>, p: Pixel)
    ensures
        pixels_bytes(ps.push(p)) == pixels_bytes(ps) + pixel_bytes(p),
{
    assert(ps.push(p).drop_last() =~= ps);
    assert(ps.push(p).last() == p);
    assert(pixels_bytes(ps.push(p)) == pixels_bytes(ps) + pixel_bytes(p));
}

/// Pixel addressing: pixel `i` of the sequence occupies bytes
/// `4 * i .. 4 * i + 4` of the serialization, channel `j` at `4 * i + j`.
pub proof fn lemma_pixels_bytes_index(ps: Seq<Pixel>, i: int, j: int)
    requires
        0 <= i < ps.len(),
        0 <= j < 4,
    ensures
        pixels_bytes(ps)[4 * i + j] == pixel_bytes(ps[i])[j],
    decreases ps.len(),
{
    lemma_pixels_bytes_len(ps.drop_last());
    if i == ps.len() - 1 {
    } else {
        lemma_pixels_bytes_index(ps.drop_last(), i, j);
    }
}

/// Serializes the pixels in order, appending the channels R, G, B, A of each
/// pixel. Cannot fail, and the output is exactly four bytes per pixel.
pub fn serialize_pixels(pixels: &Vec<Pixel>) -> (r: Vec<u8>)
    ensures
        r@ == pixels_bytes(pixels@),
        r@.len() == 4 * pixels@.len(),
{
    let n: usize = pixels.len();
    let mut out: Vec<u8> = Vec::new();
    let mut i: usize = 0;
    while i < n
        invariant
            i <= n,
            n == pixels@.len(),
            out@ == pixels_bytes(pixels@.take(i as int)),
        decreases n - i,
    {
        let p = pixels[i];
        out.push(p.r);
        out.push(p.g);
        out.push(p.b);
        out.push(p.a);
        proof {
            lemma_pixels_bytes_push(pixels@.take(i as int), pixels@[i as int]);
            assert(pixels@.take(i + 1) =~= pixels@.take(i as int).push(pixels@[i as int]));
            assert(out@ =~= pixels_bytes(pixels@.take(i as int)) + pixel_bytes(pixels@[i as int]));
        }
        i = i + 1;
    }
    proof {
        assert(pixels@.take(n as int) =~= pixels@);
        lemma_pixels_bytes_len(pixels@);
    }
    out
}

/// Reinterprets the leading `width * height * 4` bytes of a flat buffer as
/// the row-major pixel sequence whose serialization they are. The caller must
/// guarantee the buffer is long enough; the format itself never checks.
pub fn deserialize_pixels(buf: &Vec<u8>, width: u32, height: u32) -> (r: Vec<Pixel>)
    requires
        width * height * 4 <= buf@.len(),
    ensures
        r@.len() == width * height,
        pixels_bytes(r@) == buf@.take(width * height * 4),
{
    let n: usize = buf.len();
    let count: usize = (width as usize) * (height as usize);
    let mut out: Vec<Pixel> = Vec::new();
    let mut i: usize = 0;
    while i < count
        invariant
            i <= count,
            n == buf@.len(),
            4 * count <= n,
            count == width * height,
            out@.len() == i,
            pixels_bytes(out@) == buf@.take(4 * i),
        decreases count - i,
    {
        let base: usize = 4 * i;
        let p = Pixel { r: buf[base], g: buf[base + 1], b: buf[base + 2], a: buf[base + 3] };
        let ghost prev: Seq<Pixel> = out@;
        out.push(p);
        proof {
            lemma_pixels_bytes_push(prev, p);
            assert(out@ =~= prev.push(p));
            assert(buf@.take(4 * (i + 1)) =~= buf@.take(4 * i as int) + pixel_bytes(p));
        }
        i = i + 1;
    }
    out
}

/// Reads the pixel at column `x`, row `y` straight out of a flat buffer, at
/// byte offset `(y * width + x) * 4`.
pub fn pixel_at(buf: &Vec<u8>, width: u32, height: u32, x: u32, y: u32) -> (p: Pixel)
    requires
        x < width,
        y < height,
        width * height * 4 <= buf@.len(),
    ensures
        p.r == buf@[(y * width + x) * 4],
        p.g == buf@[(y * width + x) * 4 + 1],
        p.b == buf@[(y * width + x) * 4 + 2],
        p.a == buf@[(y * width + x) * 4 + 3],
{
    proof {
        assert((y * width + x) * 4 + 4 <= width * height * 4) by (nonlinear_arith)
            requires
                x < width,
                y < height,
        ;
    }
    // pins buf@.len() into usize range, so the offset arithmetic cannot overflow
    let n: usize = buf.len();
    let base: usize = ((y as usize) * (width as usize) + (x as usize)) * 4;
    Pixel { r: buf[base], g: buf[base + 1], b: buf[base + 2], a: buf[base + 3] }
}

} // verus!
