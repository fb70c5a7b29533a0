//! Codec for the BRUH image container format: a 12-byte header (magic tag,
//! width, height, each a 32-bit little-endian word) followed by a flat
//! row-major buffer of RGBA pixel bytes.

pub mod bytes;
pub mod codec;
pub mod dest_path;
pub mod error;
pub mod header;
pub mod pixels;
