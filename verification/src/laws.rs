//! What holds of the codec and of identifiers, for every alphabet and
//! every point in time.

use crate::alphabet::{
    char_list_error, lemma_index_of, lemma_standard_char_list, sorted_char_list,
    valid_char_list,
};
use crate::codec::{
    capacity, decode_spec, decode_timestamp_spec, decoded, digit, encode_spec, encoded,
    lemma_decoded_push, lemma_div_step, lemma_fits, lemma_pow_step,
};
use crate::configs::{CHAR_LIST, ENCODED_LENGTH};
use crate::errors::RowIDError;
use crate::identifier::{generated, prefix_at, verify_spec, GenerateResult, VerifyResult};
use crate::time::{
    lemma_point_of_timestamp, lemma_timestamp_of_point, millis_of, timestamp_of,
    truncated_to_millis, PointInTime,
};
use vstd::arithmetic::div_mod::{
    lemma_div_denominator, lemma_div_is_ordered, lemma_fundamental_div_mod,
    lemma_fundamental_div_mod_converse, lemma_mod_bound,
};
use vstd::arithmetic::mul::lemma_mul_is_commutative;
use vstd::arithmetic::power::{lemma_pow0, lemma_pow_adds, lemma_pow_positive, pow};
use vstd::prelude::*;

verus! {

/// Every digit of a number that is not negative is a position of the
/// alphabet.
pub proof fn lemma_digit_bounds(base: int, value: int, place: nat)
    requires
        base > 0,
        value >= 0,
    ensures
        0 <= digit(base, value, place) < base,
{
    lemma_mod_bound(value / pow(base, place), base);
}

/// The prefix of a number that is not negative has the prefix's length and
/// holds symbols of the alphabet only.
pub proof fn lemma_encoded_symbols(alphabet: Seq<char>, value: int)
    requires
        valid_char_list(alphabet),
        value >= 0,
    ensures
        encoded(alphabet, value).len() == ENCODED_LENGTH,
        forall|i: int|
            0 <= i < ENCODED_LENGTH ==> alphabet.contains(#[trigger] encoded(alphabet, value)[i]),
{
    assert forall|i: int| 0 <= i < ENCODED_LENGTH implies alphabet.contains(
        #[trigger] encoded(alphabet, value)[i],
    ) by {
        let place = (ENCODED_LENGTH - 1 - i) as nat;
        lemma_digit_bounds(alphabet.len() as int, value, place);
        lemma_index_of(alphabet, digit(alphabet.len() as int, value, place));
    }
}

/// The first `count` symbols of a number's prefix write the number
/// without its last digits.
proof fn lemma_decoded_encoded_take(alphabet: Seq<char>, value: int, count: nat)
    requires
        valid_char_list(alphabet),
        0 <= value < capacity(alphabet.len()),
        count <= ENCODED_LENGTH,
    ensures
        decoded(alphabet, encoded(alphabet, value).take(count as int)) == value / pow(
            alphabet.len() as int,
            (ENCODED_LENGTH - count) as nat,
        ),
    decreases count,
{
    let base = alphabet.len() as int;
    let prefix = encoded(alphabet, value);
    if count == 0 {
        lemma_fits(value, base, ENCODED_LENGTH as nat);
        assert(prefix.take(0).len() == 0);
    } else {
        let before = (count - 1) as nat;
        let place = (ENCODED_LENGTH - count) as nat;
        lemma_decoded_encoded_take(alphabet, value, before);
        let symbol = prefix[before as int];
        assert(prefix.take(count as int) =~= prefix.take(before as int).push(symbol));
        lemma_decoded_push(alphabet, prefix.take(before as int), symbol);
        lemma_digit_bounds(base, value, place);
        lemma_index_of(alphabet, digit(base, value, place));
        let kept = value / pow(base, place);
        lemma_div_step(value, base, place);
        lemma_fundamental_div_mod(kept, base);
        lemma_mul_is_commutative(kept / base, base);
    }
}

/// The symbols that encode a number below the capacity write that number.
pub proof fn lemma_decoded_encoded(alphabet: Seq<char>, value: int)
    requires
        valid_char_list(alphabet),
        0 <= value < capacity(alphabet.len()),
    ensures
        decoded(alphabet, encoded(alphabet, value)) == value,
{
    lemma_decoded_encoded_take(alphabet, value, ENCODED_LENGTH as nat);
    lemma_pow0(alphabet.len() as int);
    assert(encoded(alphabet, value).take(ENCODED_LENGTH as int) =~= encoded(alphabet, value));
}

/// Decoding reads the prefix alone: whatever follows a timestamp's
/// prefix, the timestamp comes back.
pub proof fn lemma_decode_encode_timestamp(alphabet: Seq<char>, timestamp: u64, suffix: Seq<char>)
    requires
        valid_char_list(alphabet),
        timestamp < capacity(alphabet.len()),
    ensures
        decode_timestamp_spec(alphabet, encoded(alphabet, timestamp as int) + suffix) == Ok::<
            u64,
            RowIDError,
        >(timestamp),
{
    let prefix = encoded(alphabet, timestamp as int);
    let input = prefix + suffix;
    lemma_encoded_symbols(alphabet, timestamp as int);
    lemma_decoded_encoded(alphabet, timestamp as int);
    assert(input.take(ENCODED_LENGTH as int) =~= prefix);
    assert forall|i: int| 0 <= i < ENCODED_LENGTH implies alphabet.contains(
        #[trigger] input[i],
    ) by {
        assert(input[i] == prefix[i]);
    }
}

/// Round trip: a point in time that can be encoded comes back from its
/// prefix, and from any identifier that starts with its prefix, without
/// what it held beyond whole milliseconds.
pub proof fn law_decode_encode(alphabet: Seq<char>, system_time: PointInTime, suffix: Seq<char>)
    requires
        valid_char_list(alphabet),
        encode_spec(alphabet, system_time) is Ok,
    ensures
        decode_spec(alphabet, encode_spec(alphabet, system_time).unwrap() + suffix) == Ok::<
            PointInTime,
            RowIDError,
        >(truncated_to_millis(system_time)),
{
    let timestamp = timestamp_of(system_time).unwrap();
    lemma_decode_encode_timestamp(alphabet, timestamp, suffix);
    lemma_point_of_timestamp(system_time);
}

/// A point in time can be encoded exactly when it does not lie before the
/// epoch and its count of milliseconds is below the capacity and within
/// 64 bits; before the epoch the error is the underflow, else the overflow.
pub proof fn law_encode_succeeds(alphabet: Seq<char>, system_time: PointInTime)
    ensures
        encode_spec(alphabet, system_time) is Ok <==> 0 <= system_time.unix_nanos && millis_of(
            system_time,
        ) <= u64::MAX && millis_of(system_time) < capacity(alphabet.len()),
        system_time.unix_nanos < 0 ==> encode_spec(alphabet, system_time) == Err::<
            Seq<char>,
            RowIDError,
        >(RowIDError::EpochUnderflow),
        !(encode_spec(alphabet, system_time) is Ok) && system_time.unix_nanos >= 0
            ==> encode_spec(alphabet, system_time) == Err::<Seq<char>, RowIDError>(
            RowIDError::TimestampOverflow,
        ),
{
}

/// The epoch is encoded as the alphabet's first symbol, repeated.
pub proof fn law_encode_epoch(alphabet: Seq<char>)
    requires
        valid_char_list(alphabet),
    ensures
        encode_spec(alphabet, PointInTime { unix_nanos: 0 }) == Ok::<Seq<char>, RowIDError>(
            Seq::new(ENCODED_LENGTH as nat, |i: int| alphabet[0]),
        ),
{
    let base = alphabet.len() as int;
    lemma_pow_step(base, ENCODED_LENGTH as nat);
    assert forall|i: int| 0 <= i < ENCODED_LENGTH implies encoded(alphabet, 0)[i]
        == alphabet[0] by {
        let place = (ENCODED_LENGTH - 1 - i) as nat;
        lemma_fits(0, base, place);
        lemma_pow_step(base, place);
    }
    assert(encoded(alphabet, 0) =~= Seq::new(ENCODED_LENGTH as nat, |i: int| alphabet[0]));
}

/// A string of the alphabet's symbols writes a number below the power of
/// the base that its length gives, and the digits of that number are the
/// values of its symbols.
proof fn lemma_digits_of_decoded(alphabet: Seq<char>, symbols: Seq<char>)
    requires
        valid_char_list(alphabet),
        forall|i: int| 0 <= i < symbols.len() ==> alphabet.contains(#[trigger] symbols[i]),
    ensures
        0 <= decoded(alphabet, symbols) < pow(alphabet.len() as int, symbols.len()),
        forall|i: int|
            0 <= i < symbols.len() ==> digit(
                alphabet.len() as int,
                decoded(alphabet, symbols),
                (symbols.len() - 1 - i) as nat,
            ) == alphabet.index_of(#[trigger] symbols[i]),
    decreases symbols.len(),
{
    let base = alphabet.len() as int;
    if symbols.len() == 0 {
        lemma_pow0(base);
    } else {
        let before = symbols.drop_last();
        let count = before.len();
        let shorter = decoded(alphabet, before);
        let longer = decoded(alphabet, symbols);
        let last = alphabet.index_of(symbols.last());
        lemma_digits_of_decoded(alphabet, before);
        assert(alphabet.contains(symbols[symbols.len() - 1]));
        lemma_pow_step(base, count);
        assert(shorter * base + last < pow(base, count) * base) by (nonlinear_arith)
            requires
                0 <= shorter < pow(base, count),
                0 <= last < base,
        ;
        assert(shorter * base >= 0) by (nonlinear_arith)
            requires
                shorter >= 0,
                base > 0,
        ;
        lemma_fundamental_div_mod_converse(longer, base, shorter, last);
        lemma_pow0(base);
        assert forall|i: int| 0 <= i < symbols.len() implies digit(
            base,
            longer,
            (symbols.len() - 1 - i) as nat,
        ) == alphabet.index_of(#[trigger] symbols[i]) by {
            if i < count {
                let place = (count - 1 - i) as nat;
                assert(symbols[i] == before[i]);
                lemma_pow_step(base, place);
                lemma_mul_is_commutative(pow(base, place), base);
                lemma_div_denominator(longer, base, pow(base, place));
            }
        }
    }
}

/// The symbols that a number is decoded from are the symbols that encode
/// it.
pub proof fn lemma_encoded_decoded(alphabet: Seq<char>, symbols: Seq<char>)
    requires
        valid_char_list(alphabet),
        symbols.len() == ENCODED_LENGTH,
        forall|i: int| 0 <= i < symbols.len() ==> alphabet.contains(#[trigger] symbols[i]),
    ensures
        0 <= decoded(alphabet, symbols) < capacity(alphabet.len()),
        encoded(alphabet, decoded(alphabet, symbols)) == symbols,
{
    lemma_digits_of_decoded(alphabet, symbols);
    assert forall|i: int| 0 <= i < ENCODED_LENGTH implies encoded(
        alphabet,
        decoded(alphabet, symbols),
    )[i] == symbols[i] by {
        assert(alphabet.contains(symbols[i]));
    }
    assert(encoded(alphabet, decoded(alphabet, symbols)) =~= symbols);
}

/// The other round trip: the point in time that an input is decoded into
/// is encoded as the input's prefix. So no two prefixes hold the same
/// point in time.
pub proof fn law_encode_decode(alphabet: Seq<char>, input: Seq<char>)
    requires
        valid_char_list(alphabet),
        decode_spec(alphabet, input) is Ok,
    ensures
        encode_spec(alphabet, decode_spec(alphabet, input).unwrap()) == Ok::<
            Seq<char>,
            RowIDError,
        >(input.take(ENCODED_LENGTH as int)),
{
    let timestamp = decode_timestamp_spec(alphabet, input).unwrap();
    let prefix = input.take(ENCODED_LENGTH as int);
    assert forall|i: int| 0 <= i < prefix.len() implies alphabet.contains(
        #[trigger] prefix[i],
    ) by {
        assert(prefix[i] == input[i]);
    }
    lemma_encoded_decoded(alphabet, prefix);
    lemma_timestamp_of_point(timestamp);
}

/// The default alphabet's prefix tells 32 to the power of 10 timestamps
/// apart, which is within 64 bits: under it no decoding overflows.
pub proof fn law_standard_capacity()
    ensures
        capacity(CHAR_LIST@.len()) == 1_125_899_906_842_624,
        forall|input: Seq<char>|
            #[trigger] decode_spec(CHAR_LIST@, input) != Err::<PointInTime, RowIDError>(
                RowIDError::TimestampOverflow,
            ),
{
    lemma_standard_char_list();
    reveal_with_fuel(pow, 11);
    assert(pow(32, 10) == 1_125_899_906_842_624);
    assert forall|input: Seq<char>|
        #[trigger] decode_spec(CHAR_LIST@, input) != Err::<PointInTime, RowIDError>(
            RowIDError::TimestampOverflow,
        ) by {
        if decode_spec(CHAR_LIST@, input) == Err::<PointInTime, RowIDError>(
            RowIDError::TimestampOverflow,
        ) {
            let prefix = input.take(ENCODED_LENGTH as int);
            assert forall|i: int| 0 <= i < prefix.len() implies CHAR_LIST@.contains(
                #[trigger] prefix[i],
            ) by {
                assert(prefix[i] == input[i]);
            }
            lemma_encoded_decoded(CHAR_LIST@, prefix);
        }
    }
}

/// An input with fewer symbols than the prefix has is refused for its
/// length, whatever it holds.
pub proof fn law_decode_short(alphabet: Seq<char>, input: Seq<char>)
    requires
        input.len() < ENCODED_LENGTH,
    ensures
        decode_spec(alphabet, input) == Err::<PointInTime, RowIDError>(RowIDError::EncodedLength),
{
}

/// An input that is long enough and holds, anywhere in its prefix, a
/// symbol that the alphabet lacks is refused as invalid.
pub proof fn law_decode_invalid(alphabet: Seq<char>, input: Seq<char>, position: int)
    requires
        input.len() >= ENCODED_LENGTH,
        0 <= position < ENCODED_LENGTH,
        !alphabet.contains(input[position]),
    ensures
        decode_spec(alphabet, input) == Err::<PointInTime, RowIDError>(RowIDError::InvalidEncoded),
{
}

/// Decoding succeeds exactly on the inputs that none of the three
/// failures takes, and each failure comes with its inputs alone.
pub proof fn law_decode_succeeds(alphabet: Seq<char>, input: Seq<char>)
    ensures
        decode_spec(alphabet, input) is Ok <==> {
            &&& input.len() >= ENCODED_LENGTH
            &&& forall|i: int| 0 <= i < ENCODED_LENGTH ==> alphabet.contains(#[trigger] input[i])
            &&& decoded(alphabet, input.take(ENCODED_LENGTH as int)) <= u64::MAX
        },
        decode_spec(alphabet, input) == Err::<PointInTime, RowIDError>(RowIDError::EncodedLength)
            <==> input.len() < ENCODED_LENGTH,
        decode_spec(alphabet, input) == Err::<PointInTime, RowIDError>(RowIDError::InvalidEncoded)
            <==> input.len() >= ENCODED_LENGTH && exists|i: int|
            0 <= i < ENCODED_LENGTH && !alphabet.contains(#[trigger] input[i]),
{
}

/// A failure to decode is the failure to verify, with no point in time
/// and no judgement, whatever the moment of the check.
pub proof fn law_verify_failure(alphabet: Seq<char>, input: Seq<char>, now: PointInTime)
    requires
        decode_spec(alphabet, input) is Err,
    ensures
        verify_spec(alphabet, input, now) == (VerifyResult {
            success: false,
            result: None,
            natural: None,
            error: Some(decode_spec(alphabet, input)->Err_0),
        }),
{
}

/// An identifier that starts with the prefix of a point in time, verified
/// at a moment that is not before that point, is found valid and natural,
/// and holds the point in time without its part below a millisecond.
pub proof fn law_verify_generated(
    alphabet: Seq<char>,
    system_time: PointInTime,
    randomness: Seq<char>,
    now: PointInTime,
)
    requires
        valid_char_list(alphabet),
        encode_spec(alphabet, system_time) is Ok,
        system_time.unix_nanos <= now.unix_nanos,
    ensures
        verify_spec(alphabet, encode_spec(alphabet, system_time).unwrap() + randomness, now) == (
        VerifyResult {
            success: true,
            result: Some(truncated_to_millis(system_time)),
            natural: Some(true),
            error: None,
        }),
{
    law_decode_encode(alphabet, system_time, randomness);
}

/// What is generated holds an identifier or a failure, never both and
/// never neither: an identifier exactly where the point in time can be
/// encoded, and then one of the prefix's length and the random symbols
/// asked for.
pub proof fn law_generated(
    alphabet: Seq<char>,
    system_time: PointInTime,
    randomness_length: nat,
    made: GenerateResult,
)
    requires
        generated(alphabet, system_time, randomness_length, made),
    ensures
        made.success <==> encode_spec(alphabet, system_time) is Ok,
        made.success <==> made.result is Some,
        made.success <==> made.error is None,
        made.success ==> made.result.unwrap()@.len() == ENCODED_LENGTH + randomness_length,
{
}

/// A list of symbols is a valid alphabet exactly when nothing stands
/// against it.
pub proof fn law_char_list_error(symbols: Seq<char>)
    ensures
        char_list_error(symbols) is None <==> valid_char_list(symbols),
        char_list_error(symbols) == Some(RowIDError::CharListLength) <==> symbols.len() < 2,
        char_list_error(symbols) == Some(RowIDError::CharListDuplicate) <==> symbols.len() >= 2
            && !symbols.no_duplicates(),
{
}

/// Whether `left` comes before `right` in the order of strings that the
/// alphabet's order of symbols gives: at the first position where the
/// two differ, the symbol of `left` stands earlier in the alphabet.
pub open spec fn precedes(alphabet: Seq<char>, left: Seq<char>, right: Seq<char>) -> bool {
    exists|position: int|
        {
            &&& 0 <= position < left.len()
            &&& position < right.len()
            &&& #[trigger] left.take(position) == right.take(position)
            &&& alphabet.index_of(left[position]) < alphabet.index_of(right[position])
        }
}

/// Whether `left` comes before `right` in the order of strings by code
/// points.
pub open spec fn precedes_by_code_point(left: Seq<char>, right: Seq<char>) -> bool {
    exists|position: int|
        {
            &&& 0 <= position < left.len()
            &&& position < right.len()
            &&& #[trigger] left.take(position) == right.take(position)
            &&& (left[position] as u32) < (right[position] as u32)
        }
}

/// The number that the first `count` symbols of a prefix write.
spec fn kept(base: int, value: int, count: nat) -> int {
    value / pow(base, (ENCODED_LENGTH - count) as nat)
}

/// What fewer symbols write follows from what more symbols write.
proof fn lemma_kept_of_kept(base: int, value: int, fewer: nat, more: nat)
    requires
        base > 0,
        value >= 0,
        fewer <= more <= ENCODED_LENGTH,
    ensures
        kept(base, value, fewer) == kept(base, value, more) / pow(base, (more - fewer) as nat),
{
    let low = (ENCODED_LENGTH - more) as nat;
    let high = (more - fewer) as nat;
    lemma_pow_adds(base, low, high);
    lemma_pow_positive(base, low);
    lemma_pow_positive(base, high);
    lemma_div_denominator(value, pow(base, low), pow(base, high));
}

/// Where the first `count` symbols of two prefixes write different
/// numbers, the prefixes differ at a position before `count`, and there
/// the smaller number has the smaller digit.
proof fn lemma_first_difference(alphabet: Seq<char>, smaller: int, larger: int, count: nat)
    requires
        valid_char_list(alphabet),
        0 <= smaller < larger < capacity(alphabet.len()),
        count <= ENCODED_LENGTH,
        kept(alphabet.len() as int, smaller, count) < kept(alphabet.len() as int, larger, count),
    ensures
        exists|position: int|
            {
                &&& 0 <= position < count
                &&& #[trigger] encoded(alphabet, smaller).take(position) == encoded(
                    alphabet,
                    larger,
                ).take(position)
                &&& digit(alphabet.len() as int, smaller, (ENCODED_LENGTH - 1 - position) as nat)
                    < digit(alphabet.len() as int, larger, (ENCODED_LENGTH - 1 - position) as nat)
            },
    decreases count,
{
    let base = alphabet.len() as int;
    if count == 0 {
        lemma_fits(smaller, base, ENCODED_LENGTH as nat);
        lemma_fits(larger, base, ENCODED_LENGTH as nat);
    } else {
        let before = (count - 1) as nat;
        let place = (ENCODED_LENGTH - count) as nat;
        lemma_pow_positive(base, (ENCODED_LENGTH - before) as nat);
        lemma_div_is_ordered(smaller, larger, pow(base, (ENCODED_LENGTH - before) as nat));
        if kept(base, smaller, before) < kept(base, larger, before) {
            lemma_first_difference(alphabet, smaller, larger, before);
        } else {
            let left = encoded(alphabet, smaller);
            let right = encoded(alphabet, larger);
            assert forall|i: int| 0 <= i < before implies left[i] == right[i] by {
                let shorter = (i + 1) as nat;
                lemma_kept_of_kept(base, smaller, shorter, before);
                lemma_kept_of_kept(base, larger, shorter, before);
            }
            assert(left.take(before as int) =~= right.take(before as int));
            let low = kept(base, smaller, count);
            let high = kept(base, larger, count);
            lemma_div_step(smaller, base, place);
            lemma_div_step(larger, base, place);
            lemma_fundamental_div_mod(low, base);
            lemma_fundamental_div_mod(high, base);
        }
    }
}

/// The prefix grows with the timestamp: of two timestamps below the
/// capacity, the smaller has the prefix that comes first by the
/// alphabet's order of symbols.
pub proof fn law_encoded_increases(alphabet: Seq<char>, smaller: int, larger: int)
    requires
        valid_char_list(alphabet),
        0 <= smaller < larger < capacity(alphabet.len()),
    ensures
        precedes(alphabet, encoded(alphabet, smaller), encoded(alphabet, larger)),
{
    let base = alphabet.len() as int;
    lemma_pow0(base);
    lemma_first_difference(alphabet, smaller, larger, ENCODED_LENGTH as nat);
    let position = choose|position: int|
        {
            &&& 0 <= position < ENCODED_LENGTH
            &&& #[trigger] encoded(alphabet, smaller).take(position) == encoded(
                alphabet,
                larger,
            ).take(position)
            &&& digit(base, smaller, (ENCODED_LENGTH - 1 - position) as nat) < digit(
                base,
                larger,
                (ENCODED_LENGTH - 1 - position) as nat,
            )
        };
    let place = (ENCODED_LENGTH - 1 - position) as nat;
    lemma_digit_bounds(base, smaller, place);
    lemma_digit_bounds(base, larger, place);
    lemma_index_of(alphabet, digit(base, smaller, place));
    lemma_index_of(alphabet, digit(base, larger, place));
}

/// Under an alphabet whose symbols stand in the order of their code
/// points, as the default alphabet's do, the prefixes of growing
/// timestamps grow in the plain order of strings.
pub proof fn law_encoded_sorts(alphabet: Seq<char>, smaller: int, larger: int)
    requires
        valid_char_list(alphabet),
        sorted_char_list(alphabet),
        0 <= smaller < larger < capacity(alphabet.len()),
    ensures
        precedes_by_code_point(encoded(alphabet, smaller), encoded(alphabet, larger)),
{
    law_encoded_increases(alphabet, smaller, larger);
    let left = encoded(alphabet, smaller);
    let right = encoded(alphabet, larger);
    let position = choose|position: int|
        {
            &&& 0 <= position < left.len()
            &&& position < right.len()
            &&& #[trigger] left.take(position) == right.take(position)
            &&& alphabet.index_of(left[position]) < alphabet.index_of(right[position])
        };
    lemma_encoded_symbols(alphabet, smaller);
    lemma_encoded_symbols(alphabet, larger);
    assert(alphabet.contains(left[position]));
    assert(alphabet.contains(right[position]));
}

/// Under an alphabet whose symbols stand in the order of their code
/// points, identifiers sort by the millisecond they were made in: of two
/// points in time that can be encoded, the one with the smaller count of
/// milliseconds has the prefix that comes first in the order of strings.
pub proof fn law_encode_sorts(alphabet: Seq<char>, earlier: PointInTime, later: PointInTime)
    requires
        valid_char_list(alphabet),
        sorted_char_list(alphabet),
        encode_spec(alphabet, earlier) is Ok,
        encode_spec(alphabet, later) is Ok,
        millis_of(earlier) < millis_of(later),
    ensures
        precedes_by_code_point(
            encode_spec(alphabet, earlier).unwrap(),
            encode_spec(alphabet, later).unwrap(),
        ),
{
    law_encoded_sorts(alphabet, millis_of(earlier), millis_of(later));
}

/// Every digit of the last number below a power of the base is the last
/// digit of the base.
proof fn lemma_digit_of_last(base: int, places: nat, place: nat)
    requires
        base > 0,
        place < places,
    ensures
        digit(base, pow(base, places) - 1, place) == base - 1,
{
    let low = pow(base, place);
    let high = pow(base, (places - place) as nat);
    let rest = pow(base, (places - place - 1) as nat);
    lemma_pow_adds(base, place, (places - place) as nat);
    lemma_pow_positive(base, place);
    lemma_pow_step(base, (places - place - 1) as nat);
    assert(low * high - 1 == (high - 1) * low + (low - 1)) by (nonlinear_arith);
    lemma_fundamental_div_mod_converse(pow(base, places) - 1, low, high - 1, low - 1);
    assert(rest * base - 1 == (rest - 1) * base + (base - 1)) by (nonlinear_arith);
    lemma_fundamental_div_mod_converse(high - 1, base, rest - 1, base - 1);
}

/// The last timestamp below the capacity is encoded as the alphabet's last
/// symbol, repeated.
pub proof fn law_encode_last(alphabet: Seq<char>)
    requires
        valid_char_list(alphabet),
    ensures
        encoded(alphabet, capacity(alphabet.len()) - 1) == Seq::new(
            ENCODED_LENGTH as nat,
            |i: int| alphabet.last(),
        ),
{
    let base = alphabet.len() as int;
    let last = capacity(alphabet.len()) - 1;
    assert forall|i: int| 0 <= i < ENCODED_LENGTH implies encoded(alphabet, last)[i]
        == alphabet.last() by {
        lemma_digit_of_last(base, ENCODED_LENGTH as nat, (ENCODED_LENGTH - 1 - i) as nat);
    }
    assert(encoded(alphabet, last) =~= Seq::new(ENCODED_LENGTH as nat, |i: int| alphabet.last()));
}

/// The timestamp whose prefix an identifier made at the moment `now`
/// starts with: the moment's own where it can be encoded, the epoch's for
/// a moment before the epoch, and else the last one below the capacity.
pub open spec fn saturated_timestamp(alphabet: Seq<char>, now: PointInTime) -> int {
    if now.unix_nanos < 0 {
        0
    } else if encode_spec(alphabet, now) is Ok {
        millis_of(now)
    } else {
        capacity(alphabet.len()) - 1
    }
}

/// An identifier made without leave to fail starts with the prefix of a
/// timestamp below the capacity, the nearest to the moment that has one.
pub proof fn law_prefix_at(alphabet: Seq<char>, now: PointInTime)
    requires
        valid_char_list(alphabet),
    ensures
        0 <= saturated_timestamp(alphabet, now) < capacity(alphabet.len()),
        prefix_at(alphabet, now) == encoded(alphabet, saturated_timestamp(alphabet, now)),
{
    lemma_pow_positive(alphabet.len() as int, ENCODED_LENGTH as nat);
    if now.unix_nanos < 0 {
        law_encode_epoch(alphabet);
    } else if encode_spec(alphabet, now) is Ok {
    } else {
        law_encode_last(alphabet);
    }
}

} // verus!
