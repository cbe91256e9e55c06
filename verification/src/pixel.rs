//! The pixel-format codec: seven compact encodings, each unpacked to one
//! canonical pixel of four 8-bit channels in the order red, green, blue,
//! alpha.

use crate::errors::{DecodeError, UnknownPixel};
use crate::reader::{le_u16, Reader};
use vstd::prelude::*;

verus! {

/// The encodings that an image record can declare.
#[derive(Clone, Copy, Debug, PartialEq, Eq, Structural)]
pub enum PixelFormat {
    /// Four bytes, one per channel (tags 0 and 1).
    Rgba8888,
    /// Sixteen bits, four per channel (tag 2).
    Rgba4444,
    /// Sixteen bits: five for each colour and the rest for alpha (tag 3).
    Rgba5551,
    /// Sixteen bits: five for red, six for green, five for blue (tag 4).
    Rgb565,
    /// Sixteen bits: luminance in the high byte, alpha in the low one
    /// (tag 6).
    La88,
    /// One byte of luminance (tag 10).
    L8,
}

/// The format that a sub-format tag stands for, if it stands for any.
pub open spec fn format_of(tag: u8) -> Option<PixelFormat> {
    if tag == 0 || tag == 1 {
        Some(PixelFormat::Rgba8888)
    } else if tag == 2 {
        Some(PixelFormat::Rgba4444)
    } else if tag == 3 {
        Some(PixelFormat::Rgba5551)
    } else if tag == 4 {
        Some(PixelFormat::Rgb565)
    } else if tag == 6 {
        Some(PixelFormat::La88)
    } else if tag == 10 {
        Some(PixelFormat::L8)
    } else {
        None
    }
}

/// The canonical pixel of a 16-bit value in the 4-4-4-4 packing: each
/// channel is its nibble shifted left by four.
pub open spec fn unpack_4444(v: int) -> [u8; 4] {
    [
        (((v / 4096) % 16) * 16) as u8,
        (((v / 256) % 16) * 16) as u8,
        (((v / 16) % 16) * 16) as u8,
        ((v % 16) * 16) as u8,
    ]
}

/// The canonical pixel of a 16-bit value in the 5-5-5-1 packing: red is
/// bits 15 to 11, green bits 10 to 6, blue bits 5 to 1, each shifted left
/// by three; alpha is what an 8-bit channel keeps of the low byte shifted
/// left by seven.
pub open spec fn unpack_5551(v: int) -> [u8; 4] {
    [
        ((v / 2048) * 8) as u8,
        (((v / 64) % 32) * 8) as u8,
        (((v / 2) % 32) * 8) as u8,
        (((v % 256) * 128) % 256) as u8,
    ]
}

/// The canonical pixel of a 16-bit value in the 5-6-5 packing: red is bits
/// 15 to 11 shifted left by three, green bits 10 to 5 shifted left by two,
/// blue bits 4 to 0 shifted left by three; alpha is always 255.
pub open spec fn unpack_565(v: int) -> [u8; 4] {
    [((v / 2048) * 8) as u8, (((v / 32) % 64) * 4) as u8, ((v % 32) * 8) as u8, 255u8]
}

/// The canonical pixel of a 16-bit luminance-alpha value: the high byte is
/// the three colours, the low byte is alpha.
pub open spec fn unpack_la88(v: int) -> [u8; 4] {
    [(v / 256) as u8, (v / 256) as u8, (v / 256) as u8, (v % 256) as u8]
}

impl PixelFormat {
    /// How many bytes one encoded pixel takes.
    pub open spec fn width(self) -> nat {
        match self {
            PixelFormat::Rgba8888 => 4,
            PixelFormat::L8 => 1,
            _ => 2,
        }
    }

    /// The canonical pixel that the first `self.width()` bytes of `bytes`
    /// encode.
    pub open spec fn unpack(self, bytes: Seq<u8>) -> [u8; 4] {
        match self {
            PixelFormat::Rgba8888 => [bytes[0], bytes[1], bytes[2], bytes[3]],
            PixelFormat::Rgba4444 => unpack_4444(le_u16(bytes[0], bytes[1])),
            PixelFormat::Rgba5551 => unpack_5551(le_u16(bytes[0], bytes[1])),
            PixelFormat::Rgb565 => unpack_565(le_u16(bytes[0], bytes[1])),
            PixelFormat::La88 => unpack_la88(le_u16(bytes[0], bytes[1])),
            PixelFormat::L8 => [bytes[0], bytes[0], bytes[0], bytes[0]],
        }
    }

    /// Classifies a sub-format tag. A tag outside the table is handed back
    /// in the error.
    pub fn from_tag(tag: u8) -> (r: Result<PixelFormat, UnknownPixel>)
        ensures
            r == match format_of(tag) {
                Some(format) => Ok::<PixelFormat, UnknownPixel>(format),
                None => Err::<PixelFormat, UnknownPixel>(UnknownPixel(tag)),
            },
    {
        match tag {
            0 | 1 => Ok(PixelFormat::Rgba8888),
            2 => Ok(PixelFormat::Rgba4444),
            3 => Ok(PixelFormat::Rgba5551),
            4 => Ok(PixelFormat::Rgb565),
            6 => Ok(PixelFormat::La88),
            10 => Ok(PixelFormat::L8),
            _ => Err(UnknownPixel(tag)),
        }
    }

    /// How many bytes one encoded pixel takes.
    pub fn encoded_width(self) -> (n: usize)
        ensures
            n == self.width(),
    {
        match self {
            PixelFormat::Rgba8888 => 4,
            PixelFormat::L8 => 1,
            _ => 2,
        }
    }
}

/// Unpacks a 16-bit value in the 4-4-4-4 packing.
fn pixel_4444(pixel: u16) -> (r: [u8; 4])
    ensures
        r == unpack_4444(pixel as int),
{
    assert(((pixel >> 12) & 0xF) << 4 == ((pixel / 4096) % 16) * 16) by (bit_vector);
    assert(((pixel >> 8) & 0xF) << 4 == ((pixel / 256) % 16) * 16) by (bit_vector);
    assert(((pixel >> 4) & 0xF) << 4 == ((pixel / 16) % 16) * 16) by (bit_vector);
    assert((pixel & 0xF) << 4 == (pixel % 16) * 16) by (bit_vector);
    [
        (((pixel >> 12) & 0xF) << 4) as u8,
        (((pixel >> 8) & 0xF) << 4) as u8,
        (((pixel >> 4) & 0xF) << 4) as u8,
        ((pixel & 0xF) << 4) as u8,
    ]
}

/// Unpacks a 16-bit value in the 5-5-5-1 packing.
fn pixel_5551(pixel: u16) -> (r: [u8; 4])
    ensures
        r == unpack_5551(pixel as int),
{
    assert(((pixel >> 11) & 0x1F) << 3 == (pixel / 2048) * 8) by (bit_vector);
    assert(((pixel >> 6) & 0x1F) << 3 == ((pixel / 64) % 32) * 8) by (bit_vector);
    assert(((pixel >> 1) & 0x1F) << 3 == ((pixel / 2) % 32) * 8) by (bit_vector);
    assert(((pixel & 0xFF) as u8) << 7 == ((pixel % 256) * 128) % 256) by (bit_vector);
    [
        (((pixel >> 11) & 0x1F) << 3) as u8,
        (((pixel >> 6) & 0x1F) << 3) as u8,
        (((pixel >> 1) & 0x1F) << 3) as u8,
        ((pixel & 0xFF) as u8) << 7,
    ]
}

/// Unpacks a 16-bit value in the 5-6-5 packing.
fn pixel_565(pixel: u16) -> (r: [u8; 4])
    ensures
        r == unpack_565(pixel as int),
{
    assert(((pixel >> 11) & 0x1F) << 3 == (pixel / 2048) * 8) by (bit_vector);
    assert(((pixel >> 5) & 0x3F) << 2 == ((pixel / 32) % 64) * 4) by (bit_vector);
    assert((pixel & 0x1F) << 3 == (pixel % 32) * 8) by (bit_vector);
    [
        (((pixel >> 11) & 0x1F) << 3) as u8,
        (((pixel >> 5) & 0x3F) << 2) as u8,
        ((pixel & 0x1F) << 3) as u8,
        255,
    ]
}

/// Unpacks a 16-bit luminance-alpha value.
fn pixel_la88(pixel: u16) -> (r: [u8; 4])
    ensures
        r == unpack_la88(pixel as int),
{
    assert(pixel >> 8 == pixel / 256) by (bit_vector);
    assert(pixel & 0xFF == pixel % 256) by (bit_vector);
    [(pixel >> 8) as u8, (pixel >> 8) as u8, (pixel >> 8) as u8, (pixel & 0xFF) as u8]
}

/// Reads one encoded pixel of the given format and returns its canonical
/// form.
pub fn decode_pixel(reader: &mut Reader, format: PixelFormat) -> (r: Result<[u8; 4], DecodeError>)
    ensures
        final(reader).buffer() == old(reader).buffer(),
        final(reader).position() == old(reader).position_after(format.width()),
        old(reader).position() <= final(reader).position() <= old(reader).buffer().len(),
        match r {
            Ok(pixel) => format.width() <= old(reader).unread().len() && pixel == format.unpack(
                old(reader).unread(),
            ),
            Err(e) => format.width() > old(reader).unread().len() && e
                == DecodeError::RecordUnderrun,
        },
{
    match format {
        PixelFormat::Rgba8888 => {
            match reader.read(4) {
                Ok(pixel) => Ok([pixel[0], pixel[1], pixel[2], pixel[3]]),
                Err(e) => Err(e),
            }
        },
        PixelFormat::Rgba4444 => {
            match reader.read_uint16() {
                Ok(pixel) => Ok(pixel_4444(pixel)),
                Err(e) => Err(e),
            }
        },
        PixelFormat::Rgba5551 => {
            match reader.read_uint16() {
                Ok(pixel) => Ok(pixel_5551(pixel)),
                Err(e) => Err(e),
            }
        },
        PixelFormat::Rgb565 => {
            match reader.read_uint16() {
                Ok(pixel) => Ok(pixel_565(pixel)),
                Err(e) => Err(e),
            }
        },
        PixelFormat::La88 => {
            match reader.read_uint16() {
                Ok(pixel) => Ok(pixel_la88(pixel)),
                Err(e) => Err(e),
            }
        },
        PixelFormat::L8 => {
            match reader.read_byte() {
                Ok(pixel) => Ok([pixel, pixel, pixel, pixel]),
                Err(e) => Err(e),
            }
        },
    }
}

/// Reads some data from the stream and returns the canonical pixel.
///
/// The tags 0, 1, 2, 3, 4, 6 and 10 name a format. For any other tag the
/// reader is left untouched and the tag comes back in the error.
pub fn convert_pixel(reader: &mut Reader, pixel_type: u8) -> (r: Result<[u8; 4], DecodeError>)
    ensures
        final(reader).buffer() == old(reader).buffer(),
        old(reader).position() <= final(reader).position(),
        match format_of(pixel_type) {
            None => final(reader).position() == old(reader).position() && r == Err::<
                [u8; 4],
                DecodeError,
            >(DecodeError::UnknownPixelFormat(UnknownPixel(pixel_type))),
            Some(format) => final(reader).position() == old(reader).position_after(format.width())
                && match r {
                Ok(pixel) => format.width() <= old(reader).unread().len() && pixel
                    == format.unpack(old(reader).unread()),
                Err(e) => format.width() > old(reader).unread().len() && e
                    == DecodeError::RecordUnderrun,
            },
        },
{
    match PixelFormat::from_tag(pixel_type) {
        Ok(format) => decode_pixel(reader, format),
        Err(unknown) => Err(DecodeError::UnknownPixelFormat(unknown)),
    }
}

} // verus!
