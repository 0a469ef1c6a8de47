//! Fixed-width 256-bit unsigned integers with wraparound arithmetic.
//!
//! [`U256`] holds a word as two 128-bit limbs and computes with native
//! integer operations only. [`big_uint::U256`] holds the same word in an
//! arbitrary-precision integer. Both state their arithmetic over the number
//! that a word stands for, modulo `2^256`.

pub mod arith;
pub mod big_uint;
pub mod egcd;
pub mod hex;
pub mod laws;
pub mod limb;
pub mod mul;
pub mod nibble;
pub mod order;
pub mod shift;
pub mod word;

pub use egcd::egcd128b;
pub use hex::fhstr;
pub use mul::{mul_karatsuba_u128, mul_safe_karatsuba_u128, mul_u128};
pub use nibble::{mul_karatsuba_u8, nibble_mul};
pub use word::{Initialize, UPrimitive, U256};
