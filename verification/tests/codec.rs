use bruh::codec::{decode_image, encode_image};
use bruh::dest_path::destination_path;
use bruh::error::BruhError;
use bruh::header::{BruhHeader, BRUH_HEADER_SIZE, BRUH_MAGIC_NUMBER};
use bruh::pixels::{deserialize_pixels, pixel_at, serialize_pixels, Pixel};

fn two_by_two_pixels() -> Vec<Pixel> {
    vec![
        Pixel::new(255, 0, 0, 255),
        Pixel::new(0, 255, 0, 255),
        Pixel::new(0, 0, 255, 255),
        Pixel::new(255, 255, 255, 0),
    ]
}

#[test]
fn header_is_twelve_bytes() {
    for (w, h) in [(0u32, 0u32), (1, 1), (640, 480), (u32::MAX, u32::MAX)] {
        assert_eq!(BruhHeader::new(w, h).bytes().len(), BRUH_HEADER_SIZE);
    }
}

#[test]
fn header_opens_with_magic_ascii() {
    let bytes = BruhHeader::new(7, 9).bytes();
    assert_eq!(&bytes[0..4], &[0x42, 0x52, 0x55, 0x48]);
    assert_eq!(&bytes[0..4], b"BRUH");
}

#[test]
fn magic_constant_decomposes_into_ascii() {
    assert_eq!((BRUH_MAGIC_NUMBER & 0xff) as u8, b'B');
    assert_eq!(((BRUH_MAGIC_NUMBER >> 8) & 0xff) as u8, b'R');
    assert_eq!(((BRUH_MAGIC_NUMBER >> 16) & 0xff) as u8, b'U');
    assert_eq!(((BRUH_MAGIC_NUMBER >> 24) & 0xff) as u8, b'H');
}

#[test]
fn header_packs_dimensions_little_endian() {
    let bytes = BruhHeader::new(0x0102_0304, 0xA0B0_C0D0).bytes();
    assert_eq!(&bytes[4..8], &[0x04, 0x03, 0x02, 0x01]);
    assert_eq!(&bytes[8..12], &[0xD0, 0xC0, 0xB0, 0xA0]);
}

#[test]
fn two_by_two_serializes_to_known_bytes() {
    let data = serialize_pixels(&two_by_two_pixels());
    assert_eq!(
        data,
        vec![
            0xFF, 0x00, 0x00, 0xFF, 0x00, 0xFF, 0x00, 0xFF, 0x00, 0x00, 0xFF, 0xFF, 0xFF, 0xFF,
            0xFF, 0x00,
        ]
    );
}

#[test]
fn two_by_two_pixels_address_back() {
    let data = serialize_pixels(&two_by_two_pixels());
    assert_eq!(pixel_at(&data, 2, 2, 0, 0), Pixel::new(255, 0, 0, 255));
    assert_eq!(pixel_at(&data, 2, 2, 1, 0), Pixel::new(0, 255, 0, 255));
    assert_eq!(pixel_at(&data, 2, 2, 0, 1), Pixel::new(0, 0, 255, 255));
    assert_eq!(pixel_at(&data, 2, 2, 1, 1), Pixel::new(255, 255, 255, 0));
}

#[test]
fn round_trip_two_by_two() {
    let pixels = two_by_two_pixels();
    let file = encode_image(2, 2, &pixels);
    assert_eq!(file.len(), 12 + 16);
    let (header, body) = decode_image(&file).expect("decode of own encoding");
    assert_eq!(header.magic, BRUH_MAGIC_NUMBER);
    assert_eq!(header.width, 2);
    assert_eq!(header.height, 2);
    assert_eq!(body, serialize_pixels(&pixels));
    assert_eq!(deserialize_pixels(&body, 2, 2), pixels);
}

#[test]
fn round_trip_single_pixel() {
    let pixels = vec![Pixel::new(1, 2, 3, 4)];
    let file = encode_image(1, 1, &pixels);
    let (header, body) = decode_image(&file).expect("decode of own encoding");
    assert_eq!((header.width, header.height), (1, 1));
    assert_eq!(body, vec![1, 2, 3, 4]);
}

#[test]
fn magic_rejection() {
    let mut file = encode_image(2, 2, &two_by_two_pixels());
    file[0] = b'P';
    assert_eq!(decode_image(&file), Err(BruhError::FormatMismatch));

    let png_like = vec![0x89, 0x50, 0x4E, 0x47, 0x0D, 0x0A, 0x1A, 0x0A, 0, 0, 0, 13, 73];
    assert_eq!(decode_image(&png_like), Err(BruhError::FormatMismatch));
}

#[test]
fn magic_rejection_last_byte_off() {
    let mut file = encode_image(1, 1, &vec![Pixel::new(0, 0, 0, 0)]);
    file[3] = b'h';
    assert_eq!(decode_image(&file), Err(BruhError::FormatMismatch));
}

#[test]
fn short_buffer_rejection() {
    assert_eq!(decode_image(&vec![]), Err(BruhError::InvalidInput));
    assert_eq!(decode_image(&vec![b'B']), Err(BruhError::InvalidInput));
    let eleven = vec![b'B', b'R', b'U', b'H', 0, 0, 0, 0, 0, 0, 0];
    assert_eq!(decode_image(&eleven), Err(BruhError::InvalidInput));
}

#[test]
fn decoder_does_not_check_trailing_length() {
    // The format's sole structural check is the magic tag: a header with no
    // pixel bytes at all, and one with too many, both decode.
    let header_only = BruhHeader::new(4, 4).bytes();
    let (header, body) = decode_image(&header_only).expect("header-only file decodes");
    assert_eq!((header.width, header.height), (4, 4));
    assert!(body.is_empty());

    let mut padded = encode_image(1, 1, &vec![Pixel::new(9, 9, 9, 9)]);
    padded.extend_from_slice(&[1, 2, 3]);
    let (_, body) = decode_image(&padded).expect("padded file decodes");
    assert_eq!(body, vec![9, 9, 9, 9, 1, 2, 3]);
}

#[test]
fn extension_replaced() {
    let out = destination_path(&b"foo.png".to_vec());
    assert_eq!(out, b"foo.bruh".to_vec());
}

#[test]
fn extension_appended_when_missing() {
    let out = destination_path(&b"foo".to_vec());
    assert_eq!(out, b"foo.bruh".to_vec());
}

#[test]
fn extension_replaces_only_the_last_dot() {
    let out = destination_path(&b"shots/day.2/pic.old.png".to_vec());
    assert_eq!(out, b"shots/day.2/pic.old.bruh".to_vec());
}

#[test]
fn error_messages() {
    assert_eq!(
        BruhError::FormatMismatch.message(),
        "file was not in BRUH format (header did not match magic number)"
    );
    assert_eq!(
        BruhError::InvalidInput.message(),
        "input buffer is missing or shorter than the header"
    );
    assert_eq!(BruhError::SourceDecodeError.message(), "source image could not be decoded");
    assert_eq!(BruhError::IOFailure.message(), "reading or writing the file failed");
}

#[test]
fn serialize_empty_is_empty() {
    assert!(serialize_pixels(&vec![]).is_empty());
}
