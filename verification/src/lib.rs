//! The password of the day of a cable modem, derived from a date and a seed,
//! and the encrypted form of a seed for the modem's configuration.
//!
//! Every function states in its contract what it returns, and Verus proves that
//! it does. What is left to the `time`, `des` and `block-modes` crates is
//! called through a few small functions whose contracts are taken on trust.

pub mod calendar;
pub mod cipher;
pub mod date_range;
pub mod date_text;
pub mod error;
pub mod laws;
pub mod mixing;
pub mod potd;
pub mod seed;
pub mod text;
pub mod vals;

pub use crate::cipher::seed_to_des;
pub use crate::error::PotdError;
pub use crate::potd::{generate, generate_multiple};
