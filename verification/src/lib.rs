//! A verified codec for length-prefixed, type-tagged, checksummed binary
//! chunks (the PNG chunk layout), together with a sequential reader that
//! concatenates several byte sources into one logical stream.

pub mod endian;
pub mod source;
pub mod digits;
pub mod png_chunk_type;
pub mod png_chunk;
pub mod multi_reader;
