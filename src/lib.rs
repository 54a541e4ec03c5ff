//! The Poseidon sponge hash over the Goldilocks prime field.
//!
//! Field elements are `u64` values held in canonical form, below the prime
//! `P = 2^64 - 2^32 + 1`. The field arithmetic and the sponge are verified
//! here. The sponge asks its caller for each permutation call, so its laws
//! hold for any 12-element permutation; the caller plugs in Poseidon.

pub mod field;
pub mod sponge;
pub mod buffer;

pub use buffer::Buffer;
pub use sponge::{Sponge, SpongeStep};
