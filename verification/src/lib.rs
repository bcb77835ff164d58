//! Streaming SHA-1 and SHA-256 hash engines built on the Merkle–Damgård
//! construction: a fixed-size internal state, a per-block compression
//! transform, a byte-buffering layer that accepts arbitrarily sized input
//! chunks, and a padding step that produces a fixed-length digest.
//!
//! Every executable function carries a contract relating it to a purely
//! mathematical model of the algorithms, so that the digest a caller gets is
//! proved to be the specified function of the whole byte stream, however that
//! stream was chunked across `update` calls.

pub mod sha1;
pub mod sha2;
pub mod words;
