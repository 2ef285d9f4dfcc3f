//! Decoding of the IDX binary format, in which datasets such as MNIST are
//! stored.
//!
//! A file starts with four header bytes (two zero bytes, the element type
//! tag, the dimensionality `D`), then `D` big-endian `u32` dimension sizes,
//! then the elements, big-endian, in row-major order. The first dimension
//! counts the items: single elements when `D` is 1, rows of
//! `dim1 * dim2` elements when `D` is 3.

mod sealed;
pub mod types;
mod decoder;
mod lemmas;

pub use decoder::{header_error, header_shape, IDXDecoder, IDXError};
pub use lemmas::{
    be_bytes4, dims_bytes, header_bytes, lemma_shape_round_trip, lemma_wrong_dimensions,
    lemma_wrong_magic, lemma_wrong_type,
};
