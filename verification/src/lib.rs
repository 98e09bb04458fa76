//! A sequential binary decoder: a byte buffer with a read cursor, typed reads
//! under a selectable byte order, and null-terminated strings.

pub mod error;
pub mod laws;
pub mod order;
pub mod parser;
pub mod state;
pub mod text;

pub use error::ParseError;
pub use order::Endian;
pub use parser::BinaryParser;
