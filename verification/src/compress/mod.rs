//! Compression: the types and their names, the packed parameter lists, the error
//! codes of the codecs, and the loops that drive a codec over a whole input.

pub mod bz2;
pub mod codes;
pub mod filter;
pub mod gz;
pub mod helper;
pub mod lz4;
pub mod params;
pub mod tick;
pub mod zst;

pub use filter::{
    Bz2Compress, Bz2Decompress, GzCompress, GzDecompress, Lz4Compress, Lz4Decompress, ZstCompress, ZstDecompress,
};
