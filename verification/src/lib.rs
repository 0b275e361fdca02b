//! Maps a reverse-engineered class-layout description to an index from byte
//! offset to the fields declared at that offset, and answers offset queries.
//!
//! Text is handled as ASCII byte strings (`Vec<u8>` / `&[u8]`) throughout, so
//! every function here is stated over `Seq<u8>` models.

pub mod bytes;
pub mod classify;
pub mod hex;
pub mod index;
pub mod metadata;
pub mod parse;
pub mod query;
