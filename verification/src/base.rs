//! The operations under the default configuration: the default alphabet
//! and the default number of random symbols.

use crate::alphabet::{drawn_from, Alphabet};
use crate::codec::{decode_spec, encode_spec, text_of};
use crate::configs::{CHAR_LIST, ENCODED_LENGTH, RANDOMNESS_LENGTH};
use crate::identifier::{generated, identifier_of, prefix_at, verified, verify_spec};
use crate::time::PointInTime;
use vstd::prelude::*;

pub use crate::errors::RowIDError;
pub use crate::identifier::{GenerateResult, VerifyResult};

verus! {

/// The number of random symbols that `generate` appends: the one asked
/// for, or the default.
pub open spec fn randomness_length_or_default(randomness_length: Option<usize>) -> nat {
    match randomness_length {
        Some(length) => length as nat,
        None => RANDOMNESS_LENGTH as nat,
    }
}

/// Generates an identifier of 32 symbols for the present moment: the
/// timestamp prefix, then the default number of random symbols.
pub fn rowid() -> (identifier: String)
    ensures
        identifier@.len() == ENCODED_LENGTH + RANDOMNESS_LENGTH == 32,
        exists|now: PointInTime|
            identifier_of(
                CHAR_LIST@,
                prefix_at(CHAR_LIST@, now),
                RANDOMNESS_LENGTH as nat,
                identifier@,
            ),
{
    crate::identifier::rowid(&Alphabet::standard(), RANDOMNESS_LENGTH)
}

/// Encodes a point in time as the timestamp prefix of an identifier.
pub fn encode(system_time: PointInTime) -> (prefix: Result<String, RowIDError>)
    ensures
        text_of(prefix) == encode_spec(CHAR_LIST@, system_time),
{
    crate::codec::encode(&Alphabet::standard(), system_time)
}

/// Decodes the timestamp prefix of an identifier into its point in time.
pub fn decode(encoded: &str) -> (system_time: Result<PointInTime, RowIDError>)
    ensures
        system_time == decode_spec(CHAR_LIST@, encoded@),
{
    crate::codec::decode(&Alphabet::standard(), encoded)
}

/// Generates the identifier of `system_time`, with `randomness_length`
/// random symbols or, where none is given, the default number of them.
pub fn generate(system_time: PointInTime, randomness_length: Option<usize>) -> (made:
    GenerateResult)
    ensures
        generated(CHAR_LIST@, system_time, randomness_length_or_default(randomness_length), made),
        made.success ==> made.result.unwrap()@.len() == ENCODED_LENGTH
            + randomness_length_or_default(randomness_length),
{
    let length: usize = match randomness_length {
        Some(length) => length,
        None => RANDOMNESS_LENGTH,
    };
    crate::identifier::generate(&Alphabet::standard(), system_time, length)
}

/// Verifies an identifier at the moment of the call: decodes its prefix
/// and tells whether the decoded point in time is natural.
pub fn verify(encoded: &str) -> (outcome: VerifyResult)
    ensures
        exists|now: PointInTime| outcome == verify_spec(CHAR_LIST@, encoded@, now),
        verified(CHAR_LIST@, encoded@, outcome),
{
    crate::identifier::verify(&Alphabet::standard(), encoded)
}

/// A string of `randomness_length` random symbols of the default alphabet.
pub fn get_randomness(randomness_length: usize) -> (randomness: String)
    ensures
        randomness@.len() == randomness_length,
        randomness_length == 0 ==> randomness@ == Seq::<char>::empty(),
        drawn_from(CHAR_LIST@, randomness@),
{
    crate::randomness::get_randomness(&Alphabet::standard(), randomness_length)
}

} // verus!
