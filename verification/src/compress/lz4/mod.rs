//! The LZ4 frame codec.

pub mod compress;
pub mod decompress;
pub mod error;

pub use error::{classify, Classification};
