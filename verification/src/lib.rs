//! Structure guesser for IFF-style chunked binary files.
//!
//! Files of this family are sequences of chunks, each a 4-byte tag, a
//! big-endian 32-bit declared payload size, the payload bytes, and one
//! padding byte after an odd payload.  Whether a chunk's payload is itself
//! a sequence of sub-chunks is not declared anywhere; the walker guesses it
//! from lookahead (a plausible tag, a plausible nested header, a nested size
//! that fits) and rewinds to the plain leaf interpretation whenever the
//! guess proves wrong partway through.

pub mod cursor;
pub mod error;
pub mod laws;
pub mod parser;
pub mod tag;

pub use cursor::Cursor;
pub use error::ChunkError;
pub use parser::{IFFHeader, IFFParser, Record};
pub use tag::Tag;
