//! A proof-of-work nonce searcher.
//!
//! Given a challenge suffix and a 32-bit difficulty mask, the library searches
//! for a 64-bit nonce whose digest, computed over the hex-encoded nonce
//! followed by the suffix, has a zero bit in every position where the mask has
//! a zero bit in its leading four bytes.

pub mod digest;
pub mod mask;
pub mod predicate;
pub mod preimage;
pub mod search;
