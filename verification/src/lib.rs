//! Fee configuration of a token bonding curve: the fee rate as a pair of
//! integers, its validation rule, the fee owed on a trade, and the fixed
//! 16-byte layout under which the rate is stored.

pub mod curve;
pub mod error;
pub mod little_endian;
