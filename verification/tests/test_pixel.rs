use sc_extract::{convert_pixel, decode_pixel, DecodeError, PixelFormat, Reader, UnknownPixel};

fn convert(tag: u8, encoded: &[u8]) -> Result<[u8; 4], DecodeError> {
    let mut reader = Reader::new(encoded.to_vec());
    convert_pixel(&mut reader, tag)
}

#[test]
fn direct_rgba_is_read_unchanged() {
    assert_eq!(convert(0, &[1, 2, 3, 4]), Ok([1, 2, 3, 4]));
    assert_eq!(convert(1, &[0xFF, 0x00, 0x80, 0x7F]), Ok([0xFF, 0x00, 0x80, 0x7F]));
}

#[test]
fn packed_4444_shifts_each_nibble_by_four() {
    // 0xABCD, low byte first
    assert_eq!(convert(2, &[0xCD, 0xAB]), Ok([0xA0, 0xB0, 0xC0, 0xD0]));
    assert_eq!(convert(2, &[0xFF, 0xFF]), Ok([0xF0, 0xF0, 0xF0, 0xF0]));
    assert_eq!(convert(2, &[0x00, 0x00]), Ok([0, 0, 0, 0]));
    assert_eq!(convert(2, &[0x01, 0x10]), Ok([0x10, 0x00, 0x00, 0x10]));
}

#[test]
fn packed_5551_takes_alpha_from_the_low_byte() {
    assert_eq!(convert(3, &[0xFF, 0xFF]), Ok([248, 248, 248, 128]));
    assert_eq!(convert(3, &[0x01, 0x00]), Ok([0, 0, 0, 128]));
    assert_eq!(convert(3, &[0x02, 0x00]), Ok([0, 0, 8, 0]));
    // 0xF800: red only
    assert_eq!(convert(3, &[0x00, 0xF8]), Ok([248, 0, 0, 0]));
    // 0x07C0: green only
    assert_eq!(convert(3, &[0xC0, 0x07]), Ok([0, 248, 0, 0]));
    // 0x003E: blue only
    assert_eq!(convert(3, &[0x3E, 0x00]), Ok([0, 0, 248, 0]));
    // 0x0841: one in each colour field, and the lowest bit
    assert_eq!(convert(3, &[0x43, 0x08]), Ok([8, 8, 8, 128]));
}

#[test]
fn packed_565_has_full_alpha() {
    assert_eq!(convert(4, &[0x00, 0xF8]), Ok([248, 0, 0, 255]));
    assert_eq!(convert(4, &[0xE0, 0x07]), Ok([0, 252, 0, 255]));
    assert_eq!(convert(4, &[0x1F, 0x00]), Ok([0, 0, 248, 255]));
    assert_eq!(convert(4, &[0xFF, 0xFF]), Ok([248, 252, 248, 255]));
    assert_eq!(convert(4, &[0x00, 0x00]), Ok([0, 0, 0, 255]));
}

#[test]
fn luminance_alpha_spreads_the_high_byte() {
    assert_eq!(convert(6, &[0x34, 0x12]), Ok([0x12, 0x12, 0x12, 0x34]));
    assert_eq!(convert(6, &[0x00, 0xFF]), Ok([0xFF, 0xFF, 0xFF, 0x00]));
}

#[test]
fn luminance_fills_all_four_channels() {
    assert_eq!(convert(10, &[0x7F]), Ok([0x7F, 0x7F, 0x7F, 0x7F]));
    assert_eq!(convert(10, &[0x00]), Ok([0, 0, 0, 0]));
}

#[test]
fn unsupported_formats_are_unknown() {
    for tag in [5u8, 7, 8, 9, 11, 12, 100, 255] {
        assert_eq!(
            convert(tag, &[1, 2, 3, 4]),
            Err(DecodeError::UnknownPixelFormat(UnknownPixel(tag)))
        );
    }
}

#[test]
fn unknown_format_leaves_the_reader_untouched() {
    let mut reader = Reader::new(vec![1, 2, 3, 4]);
    assert_eq!(
        convert_pixel(&mut reader, 5),
        Err(DecodeError::UnknownPixelFormat(UnknownPixel(5)))
    );
    assert_eq!(reader.len(), 4);
    assert_eq!(reader._tell(), 0);
    assert_eq!(convert_pixel(&mut reader, 0), Ok([1, 2, 3, 4]));
}

#[test]
fn unknown_format_wins_over_an_empty_reader() {
    assert_eq!(convert(9, &[]), Err(DecodeError::UnknownPixelFormat(UnknownPixel(9))));
}

#[test]
fn each_format_consumes_its_encoded_width() {
    for (tag, width) in [(0u8, 4usize), (1, 4), (2, 2), (3, 2), (4, 2), (6, 2), (10, 1)] {
        let mut reader = Reader::new(vec![0; 8]);
        assert!(convert_pixel(&mut reader, tag).is_ok());
        assert_eq!(reader._tell(), width);
        assert_eq!(reader.len(), 8 - width);
    }
}

#[test]
fn short_pixel_is_an_underrun() {
    for (tag, width) in [(0u8, 4usize), (1, 4), (2, 2), (3, 2), (4, 2), (6, 2), (10, 1)] {
        let mut reader = Reader::new(vec![0xEE; width - 1]);
        assert_eq!(convert_pixel(&mut reader, tag), Err(DecodeError::RecordUnderrun));
        assert_eq!(reader.len(), 0);
    }
}

#[test]
fn tags_name_their_formats() {
    assert_eq!(PixelFormat::from_tag(0), Ok(PixelFormat::Rgba8888));
    assert_eq!(PixelFormat::from_tag(1), Ok(PixelFormat::Rgba8888));
    assert_eq!(PixelFormat::from_tag(2), Ok(PixelFormat::Rgba4444));
    assert_eq!(PixelFormat::from_tag(3), Ok(PixelFormat::Rgba5551));
    assert_eq!(PixelFormat::from_tag(4), Ok(PixelFormat::Rgb565));
    assert_eq!(PixelFormat::from_tag(5), Err(UnknownPixel(5)));
    assert_eq!(PixelFormat::from_tag(6), Ok(PixelFormat::La88));
    assert_eq!(PixelFormat::from_tag(7), Err(UnknownPixel(7)));
    assert_eq!(PixelFormat::from_tag(9), Err(UnknownPixel(9)));
    assert_eq!(PixelFormat::from_tag(10), Ok(PixelFormat::L8));
    assert_eq!(PixelFormat::from_tag(11), Err(UnknownPixel(11)));
}

#[test]
fn formats_know_their_encoded_width() {
    assert_eq!(PixelFormat::Rgba8888.encoded_width(), 4);
    assert_eq!(PixelFormat::Rgba4444.encoded_width(), 2);
    assert_eq!(PixelFormat::Rgba5551.encoded_width(), 2);
    assert_eq!(PixelFormat::Rgb565.encoded_width(), 2);
    assert_eq!(PixelFormat::La88.encoded_width(), 2);
    assert_eq!(PixelFormat::L8.encoded_width(), 1);
}

#[test]
fn decode_pixel_agrees_with_convert_pixel() {
    let encoded = vec![0x34, 0x12, 0x00, 0xF8, 0x7F];
    let mut by_format = Reader::new(encoded.clone());
    let mut by_tag = Reader::new(encoded);
    assert_eq!(
        decode_pixel(&mut by_format, PixelFormat::La88),
        convert_pixel(&mut by_tag, 6)
    );
    assert_eq!(
        decode_pixel(&mut by_format, PixelFormat::Rgb565),
        convert_pixel(&mut by_tag, 4)
    );
    assert_eq!(
        decode_pixel(&mut by_format, PixelFormat::L8),
        convert_pixel(&mut by_tag, 10)
    );
    assert_eq!(by_format.len(), 0);
    assert_eq!(by_tag.len(), 0);
}

#[test]
fn every_16_bit_value_unpacks_as_the_table_says() {
    for value in 0..=u16::MAX {
        let bytes = value.to_le_bytes();
        let v = value as u32;
        assert_eq!(
            convert(2, &bytes),
            Ok([
                ((v >> 12) << 4) as u8,
                (((v >> 8) & 0xF) << 4) as u8,
                (((v >> 4) & 0xF) << 4) as u8,
                ((v & 0xF) << 4) as u8
            ])
        );
        assert_eq!(
            convert(3, &bytes),
            Ok([
                ((v >> 11) << 3) as u8,
                (((v >> 6) & 0x1F) << 3) as u8,
                (((v >> 1) & 0x1F) << 3) as u8,
                ((v & 0xFF) << 7) as u8
            ])
        );
        assert_eq!(
            convert(4, &bytes),
            Ok([((v >> 11) << 3) as u8, (((v >> 5) & 0x3F) << 2) as u8, ((v & 0x1F) << 3) as u8, 255])
        );
        assert_eq!(
            convert(6, &bytes),
            Ok([(v >> 8) as u8, (v >> 8) as u8, (v >> 8) as u8, (v & 0xFF) as u8])
        );
    }
}
