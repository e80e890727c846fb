//! Identifiers: a timestamp prefix followed by random symbols; how they
//! are made, and how one is taken apart and judged.

use crate::alphabet::{drawn_from, Alphabet};
use crate::codec::{decode, decode_spec, encode, encode_spec};
use crate::configs::ENCODED_LENGTH;
use crate::errors::RowIDError;
use crate::randomness::get_randomness;
use crate::strings::string_of;
use crate::time::PointInTime;
use vstd::prelude::*;

verus! {

/// What `generate` hands back: the identifier, or why there is none.
#[derive(Clone, Debug, PartialEq, Eq)]
pub struct GenerateResult {
    /// Whether an identifier was made.
    pub success: bool,
    /// The identifier; present exactly on success.
    pub result: Option<String>,
    /// The failure; present exactly where there is no identifier.
    pub error: Option<RowIDError>,
}

/// What `verify` hands back: the point in time that an identifier holds
/// and whether it is natural, or why the input is no identifier.
#[derive(Clone, Copy, Debug, PartialEq, Eq)]
pub struct VerifyResult {
    /// Whether the input's prefix could be decoded.
    pub success: bool,
    /// The decoded point in time; present exactly on success.
    pub result: Option<PointInTime>,
    /// Whether the decoded point in time is not later than the moment of
    /// the check; present exactly on success.
    pub natural: Option<bool>,
    /// The failure; present exactly where nothing was decoded.
    pub error: Option<RowIDError>,
}

/// Whether `identifier` is `prefix` followed by `randomness_length`
/// symbols of the alphabet.
pub open spec fn identifier_of(
    alphabet: Seq<char>,
    prefix: Seq<char>,
    randomness_length: nat,
    identifier: Seq<char>,
) -> bool {
    &&& identifier.len() == prefix.len() + randomness_length
    &&& identifier.take(prefix.len() as int) == prefix
    &&& drawn_from(alphabet, identifier.skip(prefix.len() as int))
}

/// What generating from a point in time and given random symbols gives.
pub open spec fn generated_with(
    alphabet: Seq<char>,
    system_time: PointInTime,
    randomness: Seq<char>,
    made: GenerateResult,
) -> bool {
    match encode_spec(alphabet, system_time) {
        Ok(prefix) => {
            &&& made.success
            &&& made.error is None
            &&& made.result matches Some(identifier)
            &&& identifier@ == prefix + randomness
        },
        Err(error) => {
            &&& !made.success
            &&& made.result is None
            &&& made.error == Some(error)
        },
    }
}

/// What generating from a point in time gives, whichever symbols are
/// drawn: the failure of the encoding, or else the prefix followed by
/// `randomness_length` symbols of the alphabet.
pub open spec fn generated(
    alphabet: Seq<char>,
    system_time: PointInTime,
    randomness_length: nat,
    made: GenerateResult,
) -> bool {
    match encode_spec(alphabet, system_time) {
        Ok(prefix) => {
            &&& made.success
            &&& made.error is None
            &&& made.result matches Some(identifier)
            &&& identifier_of(alphabet, prefix, randomness_length, identifier@)
        },
        Err(error) => {
            &&& !made.success
            &&& made.result is None
            &&& made.error == Some(error)
        },
    }
}

/// What verifying `input` at the moment `now` gives.
pub open spec fn verify_spec(alphabet: Seq<char>, input: Seq<char>, now: PointInTime)
    -> VerifyResult {
    match decode_spec(alphabet, input) {
        Ok(system_time) => VerifyResult {
            success: true,
            result: Some(system_time),
            natural: Some(system_time.unix_nanos <= now.unix_nanos),
            error: None,
        },
        Err(error) => VerifyResult {
            success: false,
            result: None,
            natural: None,
            error: Some(error),
        },
    }
}

/// What verifying `input` gives at whatever moment the check is made: the
/// failure of the decoding with no point in time and no judgement, or
/// else the decoded point in time with a judgement of it.
pub open spec fn verified(alphabet: Seq<char>, input: Seq<char>, outcome: VerifyResult) -> bool {
    match decode_spec(alphabet, input) {
        Ok(system_time) => {
            &&& outcome.success
            &&& outcome.result == Some(system_time)
            &&& outcome.natural is Some
            &&& outcome.error is None
        },
        Err(error) => outcome == (VerifyResult {
            success: false,
            result: None,
            natural: None,
            error: Some(error),
        }),
    }
}

/// The prefix that an identifier made at the moment `now` starts with:
/// the encoded moment; for a moment before the epoch the prefix of the
/// epoch, and for one beyond what the prefix can hold the alphabet's last
/// symbol, repeated. Identifiers made without leave to fail start so.
pub open spec fn prefix_at(alphabet: Seq<char>, now: PointInTime) -> Seq<char> {
    match encode_spec(alphabet, now) {
        Ok(prefix) => prefix,
        Err(RowIDError::EpochUnderflow) => Seq::new(ENCODED_LENGTH as nat, |i: int| alphabet[0]),
        Err(_) => Seq::new(ENCODED_LENGTH as nat, |i: int| alphabet.last()),
    }
}

impl GenerateResult {
    /// The result that holds an identifier.
    pub fn made(identifier: String) -> (made: GenerateResult)
        ensures
            made.success,
            made.result == Some(identifier),
            made.error is None,
    {
        GenerateResult { success: true, result: Some(identifier), error: None }
    }

    /// The result that holds a failure.
    pub fn failed(error: RowIDError) -> (made: GenerateResult)
        ensures
            !made.success,
            made.result is None,
            made.error == Some(error),
    {
        GenerateResult { success: false, result: None, error: Some(error) }
    }
}

/// The identifier of `system_time` that ends in the given symbols, or the
/// failure of the encoding.
pub fn generate_with(alphabet: &Alphabet, system_time: PointInTime, randomness: &str) -> (made:
    GenerateResult)
    ensures
        generated_with(alphabet@, system_time, randomness@, made),
{
    match encode(alphabet, system_time) {
        Ok(prefix) => GenerateResult::made(prefix.concat(randomness)),
        Err(error) => GenerateResult::failed(error),
    }
}

/// Generates the identifier of `system_time` with `randomness_length`
/// random symbols, or reports why the point in time cannot be encoded.
/// Symbols are drawn only once the point in time is encoded.
pub fn generate(alphabet: &Alphabet, system_time: PointInTime, randomness_length: usize) -> (made:
    GenerateResult)
    ensures
        generated(alphabet@, system_time, randomness_length as nat, made),
        made.success ==> made.result.unwrap()@.len() == ENCODED_LENGTH + randomness_length,
{
    match encode(alphabet, system_time) {
        Ok(prefix) => {
            let randomness: String = get_randomness(alphabet, randomness_length);
            let identifier: String = prefix.concat(randomness.as_str());
            proof {
                let start = encode_spec(alphabet@, system_time).unwrap();
                assert(identifier@.take(start.len() as int) =~= start);
                assert(identifier@.skip(start.len() as int) =~= randomness@);
            }
            GenerateResult::made(identifier)
        },
        Err(error) => GenerateResult::failed(error),
    }
}

/// Takes `encoded` apart as an identifier and judges it at the moment
/// `now`: the point in time that its prefix holds, and whether that point
/// is natural, that is, not later than `now`.
pub fn verify_at(alphabet: &Alphabet, encoded: &str, now: PointInTime) -> (outcome: VerifyResult)
    ensures
        outcome == verify_spec(alphabet@, encoded@, now),
{
    match decode(alphabet, encoded) {
        Ok(system_time) => VerifyResult {
            success: true,
            result: Some(system_time),
            natural: Some(system_time.not_after(&now)),
            error: None,
        },
        Err(error) => VerifyResult {
            success: false,
            result: None,
            natural: None,
            error: Some(error),
        },
    }
}

/// Verifies `encoded` at the moment of the call, as the system clock
/// gives it.
pub fn verify(alphabet: &Alphabet, encoded: &str) -> (outcome: VerifyResult)
    ensures
        exists|now: PointInTime| outcome == verify_spec(alphabet@, encoded@, now),
        verified(alphabet@, encoded@, outcome),
{
    let now: PointInTime = PointInTime::now();
    verify_at(alphabet, encoded, now)
}

/// The prefix of an identifier made at the moment `now`.
pub fn identifier_prefix(alphabet: &Alphabet, now: PointInTime) -> (prefix: String)
    ensures
        prefix@ == prefix_at(alphabet@, now),
{
    proof {
        use_type_invariant(alphabet);
    }
    match encode(alphabet, now) {
        Ok(prefix) => prefix,
        Err(error) => {
            let symbol: char = match error {
                RowIDError::EpochUnderflow => alphabet.digit_symbol(0),
                _ => alphabet.digit_symbol(alphabet.len() - 1),
            };
            let mut symbols: Vec<char> = Vec::new();
            let mut i: usize = 0;
            while i < ENCODED_LENGTH
                invariant
                    i <= ENCODED_LENGTH,
                    symbols@.len() == i,
                    forall|k: int| 0 <= k < i ==> symbols@[k] == symbol,
                decreases ENCODED_LENGTH - i,
            {
                symbols.push(symbol);
                i += 1;
            }
            assert(symbols@ =~= prefix_at(alphabet@, now));
            string_of(&symbols)
        },
    }
}

/// The identifier of the moment `now` that ends in the given symbols.
pub fn rowid_with(alphabet: &Alphabet, now: PointInTime, randomness: &str) -> (identifier: String)
    ensures
        identifier@ == prefix_at(alphabet@, now) + randomness@,
{
    identifier_prefix(alphabet, now).concat(randomness)
}

/// An identifier of the present moment with `randomness_length` random
/// symbols. It never fails: a clock that stands before the epoch, or
/// beyond what the prefix can hold, gives the nearest prefix there is.
pub fn rowid(alphabet: &Alphabet, randomness_length: usize) -> (identifier: String)
    ensures
        exists|now: PointInTime|
            identifier_of(
                alphabet@,
                prefix_at(alphabet@, now),
                randomness_length as nat,
                identifier@,
            ),
        identifier@.len() == ENCODED_LENGTH + randomness_length,
{
    let now: PointInTime = PointInTime::now();
    let randomness: String = get_randomness(alphabet, randomness_length);
    let identifier: String = rowid_with(alphabet, now, randomness.as_str());
    proof {
        let prefix = prefix_at(alphabet@, now);
        assert(prefix.len() == ENCODED_LENGTH);
        assert(identifier@.take(prefix.len() as int) =~= prefix);
        assert(identifier@.skip(prefix.len() as int) =~= randomness@);
        assert(identifier_of(alphabet@, prefix, randomness_length as nat, identifier@));
    }
    identifier
}

} // verus!
