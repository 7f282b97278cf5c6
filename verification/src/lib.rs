//! Track session core: seekable, chunked read access to remote audio tracks
//! that a caller only knows by opaque identifiers.
//!
//! The crate resolves an offered set of encodings to one preferred format,
//! windows a decrypted byte stream into a logical sub-range, caches opened
//! tracks under reference counting so concurrent callers share one stream,
//! and serves chunked reads, seeks and closes against that cache.
//!
//! Network fetches, decryption and transport live outside this crate; they
//! hand in plain values (stream contents, lengths, encoding tables) and the
//! logic here is verified against models of those values.

pub mod errors;
pub mod ids;
pub mod encoding;
pub mod stream;
pub mod acquire;
pub mod subfile;
pub mod track;
pub mod registry;
pub mod session;
pub mod browse;
pub mod login;
pub mod remote;
