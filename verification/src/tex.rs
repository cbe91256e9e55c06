//! Sprite containers: the record stream that a decompressed container
//! holds, the images in it, and the names of the files they go to.

use crate::container::{decompress, decompressed};
use crate::errors::{DecodeError, UnknownPixel};
use crate::pixel::{decode_pixel, format_of, PixelFormat};
use crate::reader::{le_u16, le_u32, Reader};
use crate::tiles::{adjust_pixels, deinterleaved};
use vstd::prelude::*;
use vstd::string::StringExecFns;

verus! {

/// A raster image: `width * height` canonical pixels, row by row, the top
/// row first.
#[derive(Debug, PartialEq, Eq)]
pub struct Image {
    pub width: u16,
    pub height: u16,
    pub pixels: Vec<[u8; 4]>,
}

/// What an `Image` is to the contracts.
pub struct ImageView {
    pub width: nat,
    pub height: nat,
    pub pixels: Seq<[u8; 4]>,
}

impl View for Image {
    type V = ImageView;

    open spec fn view(&self) -> ImageView {
        ImageView {
            width: self.width as nat,
            height: self.height as nat,
            pixels: self.pixels@,
        }
    }
}

impl Image {
    /// The image holds exactly one pixel for each raster position.
    pub open spec fn wf(&self) -> bool {
        self.pixels@.len() == self.width * self.height
    }

    /// The pixel at column `x` of row `y`, if the image has that position.
    pub fn get_pixel(&self, x: u16, y: u16) -> (pixel: Option<[u8; 4]>)
        ensures
            pixel == (if x < self.width && y < self.height && y * self.width + x
                < self.pixels@.len() {
                Some(self.pixels@[y * self.width + x])
            } else {
                None
            }),
            self.wf() && x < self.width && y < self.height ==> pixel is Some,
    {
        if x >= self.width || y >= self.height {
            return None;
        }
        assert(0 <= y * self.width + x < self.width * self.height <= 0xFFFF * 0xFFFF)
            by (nonlinear_arith)
            requires
                0 <= x < self.width <= 0xFFFF,
                0 <= y < self.height <= 0xFFFF,
        ;
        assert(0 <= y * self.width) by (nonlinear_arith)
            requires
                0 <= y,
                0 <= self.width,
        ;
        let at = (y as usize) * (self.width as usize) + (x as usize);
        if at < self.pixels.len() {
            Some(self.pixels[at])
        } else {
            None
        }
    }
}

/// What reading one record came to.
#[derive(Debug, PartialEq, Eq)]
pub enum Record {
    /// The record carries no image and was passed over.
    Skipped,
    /// The record carried this image.
    Image(Image),
    /// The record could not be decoded.
    Failed(DecodeError),
}

/// What a `Record` is to the contracts.
pub enum RecordView {
    Skipped,
    Image(ImageView),
    Failed(DecodeError),
}

impl View for Record {
    type V = RecordView;

    open spec fn view(&self) -> RecordView {
        match self {
            Record::Skipped => RecordView::Skipped,
            Record::Image(image) => RecordView::Image(image@),
            Record::Failed(error) => RecordView::Failed(*error),
        }
    }
}

/// An image record declares its sub-format in one byte and its width and
/// height in two bytes each, before the pixels.
pub const IMAGE_HEADER_LEN: u32 = 5;

/// The kinds of record that carry an image.
pub open spec fn is_image_kind(kind: u8) -> bool {
    kind == 1 || kind == 24 || kind == 27 || kind == 28
}

/// The kinds of image record that store their pixels tile by tile.
pub open spec fn is_tiled_kind(kind: u8) -> bool {
    kind == 27 || kind == 28
}

/// The size that the record at `pos` declares for what follows its header.
pub open spec fn byte_size_at(buf: Seq<u8>, pos: int) -> int {
    le_u32(buf[pos + 1], buf[pos + 2], buf[pos + 3], buf[pos + 4])
}

/// The width that the image record at `pos` declares.
pub open spec fn width_at(buf: Seq<u8>, pos: int) -> int {
    le_u16(buf[pos + 6], buf[pos + 7])
}

/// The height that the image record at `pos` declares.
pub open spec fn height_at(buf: Seq<u8>, pos: int) -> int {
    le_u16(buf[pos + 8], buf[pos + 9])
}

/// How many bytes the pixels of the image record at `pos` take.
pub open spec fn pixel_bytes(buf: Seq<u8>, pos: int, format: PixelFormat) -> int {
    width_at(buf, pos) * height_at(buf, pos) * format.width()
}

/// The first `count` pixels that are encoded back to back from `start`
/// on, in the order in which they are stored.
pub open spec fn flat_pixels(buf: Seq<u8>, start: int, format: PixelFormat, count: int) -> Seq<
    [u8; 4],
> {
    Seq::new(count as nat, |k: int| format.unpack(buf.skip(start + k * format.width())))
}

/// The image that the record at `pos` carries, given that its pixels are
/// in `format` and all present.
pub open spec fn image_at(buf: Seq<u8>, pos: int, format: PixelFormat) -> ImageView {
    let width = width_at(buf, pos);
    let height = height_at(buf, pos);
    let flat = flat_pixels(buf, pos + 10, format, width * height);
    ImageView {
        width: width as nat,
        height: height as nat,
        pixels: if is_tiled_kind(buf[pos]) {
            deinterleaved(flat, width, height)
        } else {
            flat
        },
    }
}

/// What the record that starts at `pos` comes to.
///
/// A record whose header, image header or pixels do not fit in what is
/// left of the buffer fails with `RecordUnderrun`, and so does a record
/// without an image that declares more bytes than are left. An image
/// record with a sub-format outside the table fails with
/// `UnknownPixelFormat`, whatever its dimensions.
pub open spec fn record_at(buf: Seq<u8>, pos: int) -> RecordView {
    let left = buf.len() - pos;
    if left < 5 {
        RecordView::Failed(DecodeError::RecordUnderrun)
    } else if !is_image_kind(buf[pos]) {
        if byte_size_at(buf, pos) <= left - 5 {
            RecordView::Skipped
        } else {
            RecordView::Failed(DecodeError::RecordUnderrun)
        }
    } else if left < 10 {
        RecordView::Failed(DecodeError::RecordUnderrun)
    } else {
        match format_of(buf[pos + 5]) {
            None => RecordView::Failed(
                DecodeError::UnknownPixelFormat(UnknownPixel(buf[pos + 5])),
            ),
            Some(format) => if pixel_bytes(buf, pos, format) <= left - 10 {
                RecordView::Image(image_at(buf, pos, format))
            } else {
                RecordView::Failed(DecodeError::RecordUnderrun)
            },
        }
    }
}

/// Where the reader stands after the record that starts at `pos`.
///
/// A record without an image ends where its declared size says. An image
/// record ends after its last pixel. An image record with an unknown
/// sub-format ends where its declared size says, or after its image header
/// where the size points back into it. Whenever something does not fit,
/// the reader ends up exhausted.
pub open spec fn record_end(buf: Seq<u8>, pos: int) -> int {
    let left = buf.len() - pos;
    let size = byte_size_at(buf, pos);
    if left < 5 {
        buf.len() as int
    } else if !is_image_kind(buf[pos]) {
        if size <= left - 5 {
            pos + 5 + size
        } else {
            buf.len() as int
        }
    } else if left < 10 {
        buf.len() as int
    } else {
        match format_of(buf[pos + 5]) {
            None => if size <= 5 {
                pos + 10
            } else if size <= left - 5 {
                pos + 5 + size
            } else {
                buf.len() as int
            },
            Some(format) => if pixel_bytes(buf, pos, format) <= left - 10 {
                pos + 10 + pixel_bytes(buf, pos, format)
            } else {
                buf.len() as int
            },
        }
    }
}

/// Decodes `width * height` pixels of one format, in the order in which
/// they are stored.
fn read_pixels(reader: &mut Reader, format: PixelFormat, width: u16, height: u16) -> (r: Result<
    Vec<[u8; 4]>,
    DecodeError,
>)
    ensures
        final(reader).buffer() == old(reader).buffer(),
        match r {
            Ok(pixels) => width * height * format.width() <= old(reader).unread().len()
                && final(reader).position() == old(reader).position() + width * height
                * format.width() && pixels@ == flat_pixels(
                old(reader).buffer(),
                old(reader).position() as int,
                format,
                width * height,
            ),
            Err(e) => width * height * format.width() > old(reader).unread().len()
                && final(reader).position() == old(reader).buffer().len() && e
                == DecodeError::RecordUnderrun,
        },
{
    assert(width * height <= 0xFFFF * 0xFFFF) by (nonlinear_arith)
        requires
            width <= 0xFFFF,
            height <= 0xFFFF,
    ;
    let count = (width as usize) * (height as usize);
    let ghost buf = reader.buffer();
    let ghost start = reader.position() as int;
    let ghost step = format.width() as int;
    let left = reader.len();
    let mut pixels: Vec<[u8; 4]> = Vec::new();
    let mut k: usize = 0;
    assert(k * step == 0) by (nonlinear_arith)
        requires
            k == 0,
    ;
    while k < count
        invariant
            k <= count,
            count == width * height,
            step == format.width(),
            buf == old(reader).buffer(),
            start == old(reader).position(),
            reader.buffer() == buf,
            reader.position() == start + k * step,
            start + k * step <= buf.len(),
            pixels@ == flat_pixels(buf, start, format, k as int),
        decreases count - k,
    {
        assert(k * step + step == (k + 1) * step) by (nonlinear_arith);
        match decode_pixel(reader, format) {
            Ok(pixel) => {
                pixels.push(pixel);
            },
            Err(e) => {
                assert((k + 1) * step <= count * step) by (nonlinear_arith)
                    requires
                        k + 1 <= count,
                        0 <= step,
                ;
                return Err(e);
            },
        }
        k += 1;
    }
    Ok(pixels)
}

/// Reads the record at which the reader stands.
///
/// A record without an image is passed over by its declared size. An image
/// record is decoded pixel by pixel and, where its kind stores tiles, put
/// in raster order. Where the sub-format is unknown no pixel is decoded:
/// the record fails and the reader moves on to the end that the record
/// declares, so that the next record is read from its own start.
pub fn read_record(reader: &mut Reader) -> (record: Record)
    ensures
        final(reader).buffer() == old(reader).buffer(),
        final(reader).position() == record_end(
            old(reader).buffer(),
            old(reader).position() as int,
        ),
        old(reader).position() <= final(reader).position() <= old(reader).buffer().len(),
        old(reader).unread().len() > 0 ==> old(reader).position() < final(reader).position(),
        record@ == record_at(old(reader).buffer(), old(reader).position() as int),
        record matches Record::Image(image) ==> image.wf(),
{
    let ghost buf = reader.buffer();
    let ghost pos = reader.position() as int;
    let file_type = match reader.read_byte() {
        Ok(v) => v,
        Err(e) => { return Record::Failed(e); },
    };
    let file_size = match reader.read_uint32() {
        Ok(v) => v,
        Err(e) => { return Record::Failed(e); },
    };
    if !(file_type == 1 || file_type == 24 || file_type == 27 || file_type == 28) {
        return match reader.skip(file_size as usize) {
            Ok(_) => Record::Skipped,
            Err(e) => Record::Failed(e),
        };
    }
    let sub_type = match reader.read_byte() {
        Ok(v) => v,
        Err(e) => { return Record::Failed(e); },
    };
    let width = match reader.read_uint16() {
        Ok(v) => v,
        Err(e) => { return Record::Failed(e); },
    };
    let height = match reader.read_uint16() {
        Ok(v) => v,
        Err(e) => { return Record::Failed(e); },
    };
    let format = match PixelFormat::from_tag(sub_type) {
        Ok(format) => format,
        Err(unknown) => {
            if file_size > IMAGE_HEADER_LEN {
                let _ = reader.skip((file_size - IMAGE_HEADER_LEN) as usize);
            }
            return Record::Failed(DecodeError::UnknownPixelFormat(unknown));
        },
    };
    let flat = match read_pixels(reader, format, width, height) {
        Ok(pixels) => pixels,
        Err(e) => { return Record::Failed(e); },
    };
    let pixels = if file_type == 27 || file_type == 28 {
        adjust_pixels(&flat, height, width)
    } else {
        flat
    };
    Record::Image(Image { width, height, pixels })
}

/// An image together with the name of the file it goes to.
#[derive(Debug, PartialEq, Eq)]
pub struct Sprite {
    pub name: String,
    pub image: Image,
}

/// What a `Sprite` is to the contracts.
pub struct SpriteView {
    pub name: Seq<char>,
    pub image: ImageView,
}

impl View for Sprite {
    type V = SpriteView;

    open spec fn view(&self) -> SpriteView {
        SpriteView { name: self.name@, image: self.image@ }
    }
}

/// What one container gave: its sprites in the order of their records,
/// and the errors of the records that could not be decoded, in theirs.
#[derive(Debug, PartialEq, Eq)]
pub struct Extraction {
    pub sprites: Vec<Sprite>,
    pub failures: Vec<DecodeError>,
}

/// What an `Extraction` is to the contracts.
pub struct ExtractionView {
    pub sprites: Seq<SpriteView>,
    pub failures: Seq<DecodeError>,
}

impl View for Extraction {
    type V = ExtractionView;

    open spec fn view(&self) -> ExtractionView {
        ExtractionView {
            sprites: self.sprites@.map_values(|sprite: Sprite| sprite@),
            failures: self.failures@,
        }
    }
}

/// The records of a decoded buffer from `pos` on, one after the other
/// until the buffer is used up.
pub open spec fn records_from(buf: Seq<u8>, pos: int) -> Seq<RecordView>
    decreases buf.len() - pos,
    via records_from_decreases
{
    if 0 <= pos < buf.len() {
        seq![record_at(buf, pos)] + records_from(buf, record_end(buf, pos))
    } else {
        Seq::empty()
    }
}

#[via_fn]
proof fn records_from_decreases(buf: Seq<u8>, pos: int) {
    if 0 <= pos < buf.len() {
        lemma_record_end(buf, pos);
    }
}

/// The images among a run of records, in their order.
pub open spec fn images_of(records: Seq<RecordView>) -> Seq<ImageView>
    decreases records.len(),
{
    if records.len() == 0 {
        Seq::empty()
    } else {
        match records.last() {
            RecordView::Image(image) => images_of(records.drop_last()).push(image),
            _ => images_of(records.drop_last()),
        }
    }
}

/// The errors among a run of records, in their order.
pub open spec fn failures_of(records: Seq<RecordView>) -> Seq<DecodeError>
    decreases records.len(),
{
    if records.len() == 0 {
        Seq::empty()
    } else {
        match records.last() {
            RecordView::Failed(error) => failures_of(records.drop_last()).push(error),
            _ => failures_of(records.drop_last()),
        }
    }
}

/// The extension of the files that sprites go to.
pub open spec fn extension() -> Seq<char> {
    seq!['.', 'p', 'n', 'g']
}

/// The file name of the sprite with the given index among the sprites of
/// its container: the stem for the first, and one more trailing
/// underscore for each one after it, before the extension.
pub open spec fn sprite_file_name(stem: Seq<char>, index: nat) -> Seq<char> {
    stem + Seq::new(index, |i: int| '_') + extension()
}

/// The images with their file names.
pub open spec fn named(images: Seq<ImageView>, stem: Seq<char>) -> Seq<SpriteView> {
    Seq::new(
        images.len(),
        |i: int| SpriteView { name: sprite_file_name(stem, i as nat), image: images[i] },
    )
}

/// What a decoded buffer gives under a file stem.
pub open spec fn extraction_of(decoded: Seq<u8>, stem: Seq<char>) -> ExtractionView {
    let records = records_from(decoded, 0);
    ExtractionView { sprites: named(images_of(records), stem), failures: failures_of(records) }
}

/// A record takes at least one byte and never reaches past the buffer:
/// the reader moves forward and stays inside.
pub proof fn lemma_record_end(buf: Seq<u8>, pos: int)
    requires
        0 <= pos < buf.len(),
    ensures
        pos < record_end(buf, pos) <= buf.len(),
{
    let left = buf.len() - pos;
    if left >= 10 && is_image_kind(buf[pos]) {
        match format_of(buf[pos + 5]) {
            None => {},
            Some(format) => {
                assert(0 <= pixel_bytes(buf, pos, format)) by (nonlinear_arith)
                    requires
                        pixel_bytes(buf, pos, format) == width_at(buf, pos) * height_at(buf, pos)
                            * format.width(),
                        0 <= width_at(buf, pos),
                        0 <= height_at(buf, pos),
                        0 <= format.width(),
                ;
            },
        }
    }
}

/// Builds the file name of the sprite with the given index.
pub fn sprite_name(file_stem: &str, index: usize) -> (name: String)
    ensures
        name@ == sprite_file_name(file_stem@, index as nat),
{
    let mut name = file_stem.to_owned();
    let mut k: usize = 0;
    while k < index
        invariant
            k <= index,
            name@ == file_stem@ + Seq::new(k as nat, |i: int| '_'),
        decreases index - k,
    {
        proof {
            reveal_strlit("_");
        }
        name.append("_");
        k += 1;
    }
    proof {
        reveal_strlit(".png");
    }
    name.append(".png");
    name
}

/// Walks a decoded buffer record by record and collects its sprites.
///
/// Records without an image are passed over. A record that cannot be
/// decoded leaves its error and no sprite; the walk goes on behind it.
pub fn decode_records(decoded: Vec<u8>, file_stem: &str) -> (extraction: Extraction)
    ensures
        extraction@ == extraction_of(decoded@, file_stem@),
        forall|i: int| 0 <= i < extraction.sprites@.len() ==> extraction.sprites@[i].image.wf(),
{
    let ghost buf = decoded@;
    let ghost stem = file_stem@;
    let mut reader = Reader::new(decoded);
    let mut sprites: Vec<Sprite> = Vec::new();
    let mut failures: Vec<DecodeError> = Vec::new();
    let ghost mut done: Seq<RecordView> = Seq::empty();
    while reader.len() > 0
        invariant
            stem == file_stem@,
            reader.buffer() == buf,
            reader.position() <= buf.len(),
            records_from(buf, 0) == done + records_from(buf, reader.position() as int),
            sprites@.map_values(|sprite: Sprite| sprite@) == named(images_of(done), stem),
            failures@ == failures_of(done),
            forall|i: int| 0 <= i < sprites@.len() ==> sprites@[i].image.wf(),
        decreases buf.len() - reader.position(),
    {
        let ghost pos = reader.position() as int;
        let record = read_record(&mut reader);
        let ghost earlier = done;
        proof {
            lemma_record_end(buf, pos);
            done = earlier.push(record@);
            assert(done.drop_last() =~= earlier);
            assert(earlier + records_from(buf, pos) =~= done + records_from(
                buf,
                record_end(buf, pos),
            ));
        }
        match record {
            Record::Skipped => {},
            Record::Image(image) => {
                let ghost before = sprites@.map_values(|sprite: Sprite| sprite@);
                assert(before.len() == sprites@.len());
                let name = sprite_name(file_stem, sprites.len());
                sprites.push(Sprite { name, image });
                assert(sprites@.map_values(|sprite: Sprite| sprite@) =~= named(
                    images_of(done),
                    stem,
                )) by {
                    let after = sprites@.map_values(|sprite: Sprite| sprite@);
                    let goal = named(images_of(done), stem);
                    assert forall|i: int| 0 <= i < after.len() implies after[i] == goal[i] by {
                        if i < before.len() {
                            assert(before[i] == named(images_of(earlier), stem)[i]);
                        }
                    }
                }
            },
            Record::Failed(error) => {
                failures.push(error);
            },
        }
    }
    Extraction { sprites, failures }
}

/// The outer header of a sprite container, which precedes the compressed
/// stream.
pub const OUTER_HEADER_LEN: usize = 26;

/// The shortest sprite container: the outer header and the nine header
/// bytes of the stream.
pub const MIN_CONTAINER_LEN: usize = 35;

/// Whether `result` is what decoding the sprite container `data` under the
/// file stem `stem` comes to.
///
/// A container of fewer than 35 bytes is too small. Otherwise the stream
/// behind the 26 bytes of outer header is repaired and decompressed, and
/// the records of the decoded buffer give the sprites.
pub open spec fn decodes_to(
    data: Seq<u8>,
    stem: Seq<char>,
    result: Result<Extraction, DecodeError>,
) -> bool {
    match result {
        Ok(extraction) => data.len() >= 35 && match decompressed(data.skip(26)) {
            Some(decoded) => extraction@ == extraction_of(decoded, stem),
            None => false,
        },
        Err(DecodeError::TooSmallContainer) => data.len() < 35,
        Err(DecodeError::DecompressionFailure(_)) => data.len() >= 35 && decompressed(
            data.skip(26),
        ) is None,
        Err(_) => false,
    }
}

/// Processes compressed, raw `_tex.sc` file data.
///
/// A single container can hold several sprites. All of them are decoded
/// and named after `file_stem`, with underscores appended from the second
/// sprite on. Records that fail do not fail the container: their errors
/// are listed beside the sprites.
pub fn process_sc(data: &[u8], file_stem: &str) -> (r: Result<Extraction, DecodeError>)
    ensures
        decodes_to(data@, file_stem@, r),
        data@.len() < 35 ==> r == Err::<Extraction, DecodeError>(DecodeError::TooSmallContainer),
        r matches Ok(extraction) ==> forall|i: int|
            0 <= i < extraction.sprites@.len() ==> extraction.sprites@[i].image.wf(),
{
    if data.len() < MIN_CONTAINER_LEN {
        return Err(DecodeError::TooSmallContainer);
    }
    let stream = vstd::slice::slice_subrange(data, OUTER_HEADER_LEN, data.len());
    match decompress(stream) {
        Ok(decoded) => Ok(decode_records(decoded, file_stem)),
        Err(e) => Err(e),
    }
}

/// Decoding is repeatable: whatever two runs over the same container
/// bytes and the same file stem return, both succeed or both fail, and
/// where they succeed they give the same sprites and the same errors.
pub proof fn lemma_decoding_is_repeatable(
    data: Seq<u8>,
    stem: Seq<char>,
    first: Result<Extraction, DecodeError>,
    second: Result<Extraction, DecodeError>,
)
    requires
        decodes_to(data, stem, first),
        decodes_to(data, stem, second),
    ensures
        first is Ok <==> second is Ok,
        first is Ok ==> first->Ok_0@ == second->Ok_0@,
        first matches Err(DecodeError::TooSmallContainer) <==> second matches Err(
            DecodeError::TooSmallContainer,
        ),
{
}

/// A record without an image that declares `n` bytes, all of them
/// present, moves the reader exactly `n` bytes past its header, and the
/// next record is read from there.
pub proof fn lemma_skipped_record(buf: Seq<u8>, pos: int)
    requires
        0 <= pos,
        pos + 5 <= buf.len(),
        !is_image_kind(buf[pos]),
        pos + 5 + byte_size_at(buf, pos) <= buf.len(),
    ensures
        record_at(buf, pos) == RecordView::Skipped,
        record_end(buf, pos) == pos + 5 + byte_size_at(buf, pos),
        records_from(buf, pos) == seq![RecordView::Skipped] + records_from(
            buf,
            pos + 5 + byte_size_at(buf, pos),
        ),
{
}

/// An image record whose sub-format is outside the table gives
/// `UnknownPixelFormat` with the offending tag, and never an image.
pub proof fn lemma_unknown_format_gives_no_image(buf: Seq<u8>, pos: int)
    requires
        0 <= pos,
        pos + 10 <= buf.len(),
        is_image_kind(buf[pos]),
        format_of(buf[pos + 5]) is None,
    ensures
        record_at(buf, pos) == RecordView::Failed(
            DecodeError::UnknownPixelFormat(UnknownPixel(buf[pos + 5])),
        ),
        images_of(records_from(buf, pos)) == images_of(records_from(buf, record_end(buf, pos))),
{
    let first = record_at(buf, pos);
    let rest = records_from(buf, record_end(buf, pos));
    lemma_images_of_concat(seq![first], rest);
    assert(seq![first].drop_last() =~= Seq::<RecordView>::empty());
    assert(images_of(Seq::<RecordView>::empty()) =~= Seq::<ImageView>::empty());
}

/// The images of two runs of records, one after the other, are the images
/// of the first followed by those of the second.
pub proof fn lemma_images_of_concat(front: Seq<RecordView>, back: Seq<RecordView>)
    ensures
        images_of(front + back) == images_of(front) + images_of(back),
    decreases back.len(),
{
    if back.len() > 0 {
        lemma_images_of_concat(front, back.drop_last());
        assert((front + back).drop_last() =~= front + back.drop_last());
        match back.last() {
            RecordView::Image(image) => {
                assert((images_of(front) + images_of(back.drop_last())).push(image) =~= images_of(
                    front,
                ) + images_of(back.drop_last()).push(image));
            },
            _ => {},
        }
    }
}

} // verus!
