//! A linear congruential generator (LCG) that can be stepped forward and,
//! when the multiplier is invertible, backward, together with a routine that
//! recovers the parameters of an unknown LCG from a run of its outputs.
//!
//! All state values are arbitrary-precision integers; the arithmetic is exact.

pub mod arith;
pub mod bigint;
pub mod crack;
pub mod lcg;
pub mod modular;

pub use crate::crack::crack_lcg;
pub use crate::lcg::LCG;
pub use crate::modular::{modinv, modulo};
