//! The constants of the default configuration.

use vstd::prelude::*;

verus! {

/// The default alphabet: the ten digits, then twenty-two upper-case letters.
pub const CHAR_LIST: &'static str = "0123456789ABCDEFGHJKMNPQRSTVWXYZ";

/// The default number of random symbols of an identifier.
pub const RANDOMNESS_LENGTH: usize = 22;

/// The number of symbols of the timestamp prefix.
pub const ENCODED_LENGTH: usize = 10;

} // verus!
