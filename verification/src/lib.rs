//! A small, deterministic, seedable pseudo-random number generator.
//!
//! The generator keeps 128 bits of state (two 64-bit words) and derives every
//! value it hands out from one primitive 64-bit step of the xorshift128+
//! family.  On top of that step it offers narrower unsigned draws, rejection
//! sampled bounded and ranged integers, in-place shuffling and byte filling.
//! Every operation is a pure function of the seed, so two generators built
//! from the same seed bytes agree forever.

pub mod laws;
pub mod model;
pub mod rng;

pub use rng::Rng;
