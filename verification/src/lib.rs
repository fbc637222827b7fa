//! The xoshiro128 family of pseudo-random generators: a 128-bit state that a
//! fixed GF(2)-linear transition advances, two ways of drawing a 32-bit word
//! from it, seeding, and jumps that skip a fixed power of two of steps.
//!
//! None of this is fit for cryptographic use: a few outputs give the state away.

pub mod field;
pub mod jump;
pub mod linear;
pub mod orbit;
pub mod output;
pub mod seed;
pub mod splitmix;
pub mod state;
pub mod xoshiro128plus;
pub mod xoshiro128starstar;

pub use crate::state::State;
pub use crate::xoshiro128plus::Xoshiro128Plus;
pub use crate::xoshiro128starstar::Xoshiro128StarStar;
