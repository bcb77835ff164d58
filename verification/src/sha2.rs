//! The SHA-2 family; only the 256-bit variant is provided.

pub mod sha256;
