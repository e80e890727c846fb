//! The timestamp codec: a count of milliseconds as a fixed number of
//! digits in the base that the alphabet's length gives, and back.

use crate::alphabet::{valid_char_list, Alphabet};
use crate::configs::ENCODED_LENGTH;
use crate::errors::RowIDError;
use crate::strings::string_of;
use crate::time::{
    point_of, system_time_to_timestamp, timestamp_of, timestamp_to_system_time, PointInTime,
};
use vstd::arithmetic::div_mod::{lemma_basic_div, lemma_div_denominator, lemma_div_non_zero};
use vstd::arithmetic::mul::lemma_mul_is_commutative;
use vstd::arithmetic::power::{lemma_pow0, lemma_pow_positive, pow};
use vstd::prelude::*;

verus! {

/// The number of timestamps that the prefix can tell apart in base `base`:
/// `base` to the power of the prefix's length.
pub open spec fn capacity(base: nat) -> int {
    pow(base as int, ENCODED_LENGTH as nat)
}

/// The digit of `value` at `place` in base `base`; place 0 is the least
/// significant.
pub open spec fn digit(base: int, value: int, place: nat) -> int {
    (value / pow(base, place)) % base
}

/// The timestamp prefix of `value`: its digits in the alphabet's base,
/// most significant first, each digit written as the alphabet's symbol at
/// that position.
pub open spec fn encoded(alphabet: Seq<char>, value: int) -> Seq<char> {
    Seq::new(
        ENCODED_LENGTH as nat,
        |i: int| alphabet[digit(alphabet.len() as int, value, (ENCODED_LENGTH - 1 - i) as nat)],
    )
}

/// The number that a string of symbols writes, most significant digit
/// first.
pub open spec fn decoded(alphabet: Seq<char>, symbols: Seq<char>) -> int
    decreases symbols.len(),
{
    if symbols.len() == 0 {
        0
    } else {
        decoded(alphabet, symbols.drop_last()) * alphabet.len() + alphabet.index_of(
            symbols.last(),
        )
    }
}

/// What encoding a timestamp gives: its prefix, or an overflow where the
/// prefix has too few digits for it.
pub open spec fn encode_timestamp_spec(alphabet: Seq<char>, timestamp: u64) -> Result<
    Seq<char>,
    RowIDError,
> {
    if timestamp < capacity(alphabet.len()) {
        Ok(encoded(alphabet, timestamp as int))
    } else {
        Err(RowIDError::TimestampOverflow)
    }
}

/// What encoding a point in time gives.
pub open spec fn encode_spec(alphabet: Seq<char>, system_time: PointInTime) -> Result<
    Seq<char>,
    RowIDError,
> {
    match timestamp_of(system_time) {
        Ok(timestamp) => encode_timestamp_spec(alphabet, timestamp),
        Err(error) => Err(error),
    }
}

/// What decoding the prefix of `input` into a count of milliseconds
/// gives. Only the first symbols, as many as the prefix has, are read; an
/// input that is long enough is refused for any symbol among them that the
/// alphabet lacks, and only then for a number beyond 64 bits.
pub open spec fn decode_timestamp_spec(alphabet: Seq<char>, input: Seq<char>) -> Result<
    u64,
    RowIDError,
> {
    if input.len() < ENCODED_LENGTH {
        Err(RowIDError::EncodedLength)
    } else if exists|i: int| 0 <= i < ENCODED_LENGTH && !alphabet.contains(#[trigger] input[i]) {
        Err(RowIDError::InvalidEncoded)
    } else if decoded(alphabet, input.take(ENCODED_LENGTH as int)) > u64::MAX {
        Err(RowIDError::TimestampOverflow)
    } else {
        Ok(decoded(alphabet, input.take(ENCODED_LENGTH as int)) as u64)
    }
}

/// What decoding the prefix of `input` into a point in time gives.
pub open spec fn decode_spec(alphabet: Seq<char>, input: Seq<char>) -> Result<
    PointInTime,
    RowIDError,
> {
    match decode_timestamp_spec(alphabet, input) {
        Ok(timestamp) => Ok(point_of(timestamp)),
        Err(error) => Err(error),
    }
}

/// A result with its string taken as a sequence of characters.
pub open spec fn text_of(result: Result<String, RowIDError>) -> Result<Seq<char>, RowIDError> {
    match result {
        Ok(text) => Ok(text@),
        Err(error) => Err(error),
    }
}

/// The next power of a positive base, and that powers of it are positive.
pub(crate) proof fn lemma_pow_step(base: int, place: nat)
    requires
        base > 0,
    ensures
        pow(base, place) > 0,
        pow(base, place + 1) == pow(base, place) * base,
{
    lemma_pow_positive(base, place);
    reveal(pow);
    lemma_mul_is_commutative(base, pow(base, place));
}

/// Dropping one more digit divides by the next power.
pub(crate) proof fn lemma_div_step(value: int, base: int, place: nat)
    requires
        value >= 0,
        base > 0,
    ensures
        (value / pow(base, place)) / base == value / pow(base, place + 1),
{
    lemma_pow_step(base, place);
    lemma_div_denominator(value, pow(base, place), base);
}

/// A value has no digit beyond a place exactly when it is below that
/// place's power.
pub(crate) proof fn lemma_fits(value: int, base: int, places: nat)
    requires
        value >= 0,
        base > 0,
    ensures
        value / pow(base, places) == 0 <==> value < pow(base, places),
{
    lemma_pow_positive(base, places);
    if value < pow(base, places) {
        lemma_basic_div(value, pow(base, places));
    } else {
        lemma_div_non_zero(value, pow(base, places));
    }
}

/// Encodes a count of milliseconds as the timestamp prefix.
pub fn encode_timestamp(alphabet: &Alphabet, timestamp: u64) -> (prefix: Result<String, RowIDError>)
    ensures
        text_of(prefix) == encode_timestamp_spec(alphabet@, timestamp),
{
    proof {
        use_type_invariant(alphabet);
    }
    let symbol_count: usize = alphabet.len();
    let base: u64 = symbol_count as u64;
    let mut rest: u64 = timestamp;
    let mut digits: Vec<char> = Vec::new();
    let mut place: usize = 0;
    proof {
        lemma_pow0(base as int);
    }
    while place < ENCODED_LENGTH
        invariant
            valid_char_list(alphabet@),
            base == symbol_count == alphabet@.len(),
            place <= ENCODED_LENGTH,
            rest == (timestamp as int) / pow(base as int, place as nat),
            digits@.len() == place,
            forall|q: nat|
                q < place ==> digits@[q as int] == alphabet@[#[trigger] digit(
                    base as int,
                    timestamp as int,
                    q,
                )],
        decreases ENCODED_LENGTH - place,
    {
        let value: u64 = rest % base;
        assert(value == digit(base as int, timestamp as int, place as nat));
        digits.push(alphabet.digit_symbol(value as usize));
        rest = rest / base;
        proof {
            lemma_div_step(timestamp as int, base as int, place as nat);
        }
        place += 1;
    }
    proof {
        lemma_fits(timestamp as int, base as int, ENCODED_LENGTH as nat);
    }
    if rest != 0 {
        return Err(RowIDError::TimestampOverflow);
    }
    let mut symbols: Vec<char> = Vec::new();
    let mut left: usize = ENCODED_LENGTH;
    while left > 0
        invariant
            left <= ENCODED_LENGTH,
            digits@.len() == ENCODED_LENGTH,
            symbols@.len() == ENCODED_LENGTH - left,
            forall|i: int|
                0 <= i < symbols@.len() ==> symbols@[i] == digits@[ENCODED_LENGTH - 1 - i],
        decreases left,
    {
        left -= 1;
        symbols.push(digits[left]);
    }
    assert forall|i: int| 0 <= i < ENCODED_LENGTH implies symbols@[i] == encoded(
        alphabet@,
        timestamp as int,
    )[i] by {
        let place = (ENCODED_LENGTH - 1 - i) as nat;
        assert(digits@[place as int] == alphabet@[digit(base as int, timestamp as int, place)]);
    }
    assert(symbols@ =~= encoded(alphabet@, timestamp as int));
    Ok(string_of(&symbols))
}

/// One more symbol at the end shifts the number by one digit and adds
/// the symbol's value.
pub(crate) proof fn lemma_decoded_push(alphabet: Seq<char>, symbols: Seq<char>, symbol: char)
    ensures
        decoded(alphabet, symbols.push(symbol)) == decoded(alphabet, symbols) * alphabet.len()
            + alphabet.index_of(symbol),
{
    assert(symbols.push(symbol).drop_last() =~= symbols);
}

/// A string of the alphabet's symbols writes no negative number.
proof fn lemma_decoded_nonnegative(alphabet: Seq<char>, symbols: Seq<char>)
    requires
        forall|i: int| 0 <= i < symbols.len() ==> alphabet.contains(#[trigger] symbols[i]),
    ensures
        decoded(alphabet, symbols) >= 0,
    decreases symbols.len(),
{
    if symbols.len() > 0 {
        lemma_decoded_nonnegative(alphabet, symbols.drop_last());
        assert(alphabet.contains(symbols[symbols.len() - 1]));
        assert(decoded(alphabet, symbols.drop_last()) * alphabet.len() >= 0) by (nonlinear_arith)
            requires
                decoded(alphabet, symbols.drop_last()) >= 0,
                alphabet.len() >= 0,
        ;
    }
}

/// Decodes the timestamp prefix of `encoded` into a count of
/// milliseconds.
pub fn decode_timestamp(alphabet: &Alphabet, encoded: &str) -> (timestamp: Result<u64, RowIDError>)
    ensures
        timestamp == decode_timestamp_spec(alphabet@, encoded@),
{
    proof {
        use_type_invariant(alphabet);
    }
    let count: usize = encoded.unicode_len();
    if count < ENCODED_LENGTH {
        return Err(RowIDError::EncodedLength);
    }
    let symbol_count: usize = alphabet.len();
    let base: u128 = symbol_count as u128;
    let mut value: u64 = 0;
    let mut overflowed: bool = false;
    let mut i: usize = 0;
    while i < ENCODED_LENGTH
        invariant
            valid_char_list(alphabet@),
            base == symbol_count == alphabet@.len(),
            i <= ENCODED_LENGTH <= encoded@.len(),
            forall|k: int| 0 <= k < i ==> alphabet@.contains(#[trigger] encoded@[k]),
            !overflowed ==> value == decoded(alphabet@, encoded@.take(i as int)),
            overflowed ==> decoded(alphabet@, encoded@.take(i as int)) > u64::MAX,
        decreases ENCODED_LENGTH - i,
    {
        let symbol: char = encoded.get_char(i);
        let found: Option<usize> = alphabet.index_of(symbol);
        let index: usize = match found {
            Some(index) => index,
            None => {
                return Err(RowIDError::InvalidEncoded);
            },
        };
        proof {
            let before = encoded@.take(i as int);
            assert(encoded@.take(i + 1) =~= before.push(symbol));
            lemma_decoded_push(alphabet@, before, symbol);
            lemma_decoded_nonnegative(alphabet@, before);
            assert(0 <= alphabet@.index_of(symbol) < alphabet@.len());
            assert(decoded(alphabet@, before) * alphabet@.len() >= decoded(alphabet@, before))
                by (nonlinear_arith)
                requires
                    decoded(alphabet@, before) >= 0,
                    alphabet@.len() >= 1,
            ;
        }
        if !overflowed {
            assert(value * base + index <= u128::MAX) by (nonlinear_arith)
                requires
                    value <= u64::MAX,
                    base <= u64::MAX,
                    index <= u64::MAX,
            ;
            let next: u128 = (value as u128) * base + (index as u128);
            if next > u64::MAX as u128 {
                overflowed = true;
            } else {
                value = next as u64;
            }
        }
        i += 1;
    }
    assert(encoded@.take(ENCODED_LENGTH as int) == encoded@.take(i as int));
    if overflowed {
        Err(RowIDError::TimestampOverflow)
    } else {
        Ok(value)
    }
}

/// Encodes a point in time as the timestamp prefix of an identifier.
pub fn encode(alphabet: &Alphabet, system_time: PointInTime) -> (prefix: Result<String, RowIDError>)
    ensures
        text_of(prefix) == encode_spec(alphabet@, system_time),
{
    match system_time_to_timestamp(system_time) {
        Ok(timestamp) => encode_timestamp(alphabet, timestamp),
        Err(error) => Err(error),
    }
}

/// Decodes the timestamp prefix of `encoded` into the point in time that
/// it stands for. What follows the prefix is not read.
pub fn decode(alphabet: &Alphabet, encoded: &str) -> (system_time: Result<PointInTime, RowIDError>)
    ensures
        system_time == decode_spec(alphabet@, encoded@),
{
    match decode_timestamp(alphabet, encoded) {
        Ok(timestamp) => Ok(timestamp_to_system_time(timestamp)),
        Err(error) => Err(error),
    }
}

} // verus!
