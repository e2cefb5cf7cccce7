//! A verified password-generation library.
//!
//! [`generator`] builds a candidate pool from selected character classes
//! minus excluded characters and draws uniformly random passwords from it;
//! [`strength`] estimates how strong a password is from the character
//! categories it contains.  Every public function carries a contract that
//! pins down its result; the only unverified pieces are the thin wrappers
//! around the random number generator and `String::push`.

pub mod generator;
pub mod strength;
pub mod utils;
