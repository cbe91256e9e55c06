//! Decoder for compressed sprite containers (`_tex.sc`) and compressed
//! tables (`.csv`).
//!
//! A sprite container holds an outer header and an LZMA stream whose size
//! field is cut short. Behind the repaired and decompressed stream lies a
//! sequence of tagged records; those of four kinds carry one image each,
//! in one of seven compact pixel encodings, and two of these kinds store
//! their pixels in tiles. `process_sc` turns the raw bytes of a container
//! into named sprites, `process_csv` the raw bytes of a table into its
//! text.

pub mod container;
pub mod csv;
pub mod errors;
pub mod pixel;
pub mod reader;
pub mod tex;
pub mod tiles;

pub use crate::container::{check_header, decompress, prepare_stream, ContainerKind};
pub use crate::csv::process_csv;
pub use crate::errors::{DecodeError, DecompressionError, UnknownPixel};
pub use crate::pixel::{convert_pixel, decode_pixel, PixelFormat};
pub use crate::reader::Reader;
pub use crate::tex::{
    decode_records, process_sc, read_record, sprite_name, Extraction, Image, Record, Sprite,
};
pub use crate::tiles::adjust_pixels;
