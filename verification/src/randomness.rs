//! Random symbols of an alphabet.

use crate::alphabet::{drawn_from, valid_char_list, Alphabet};
use rand::rngs::ThreadRng;
use rand::Rng;
use vstd::prelude::*;

verus! {

/// The handle of `rand` to the calling thread's generator: a
/// cryptographically secure generator that the operating system seeds.
#[verifier::external_type_specification]
#[verifier::external_body]
pub struct ExThreadRng(ThreadRng);

/// `thread_rng` of `rand` hands out the calling thread's generator. It
/// panics where the operating system gives that generator no seed;
/// nothing is claimed of the handle.
pub assume_specification[ rand::thread_rng ]() -> ThreadRng;

/// Draws an index below `bound` with `gen_range` of `rand`, which panics
/// on an empty range, excluded here by `bound > 0`, and returns a value
/// of the range `0..bound`. Nothing more is claimed of the draw.
#[verifier::external_body]
fn random_index(generator: &mut ThreadRng, bound: usize) -> (index: usize)
    requires
        bound > 0,
    ensures
        index < bound,
{
    generator.gen_range(0..bound)
}

/// A string of `randomness_length` symbols, each drawn from the alphabet
/// independently of the others.
pub fn get_randomness(alphabet: &Alphabet, randomness_length: usize) -> (randomness: String)
    ensures
        randomness@.len() == randomness_length,
        randomness_length == 0 ==> randomness@ == Seq::<char>::empty(),
        drawn_from(alphabet@, randomness@),
{
    proof {
        use_type_invariant(alphabet);
    }
    let symbol_count: usize = alphabet.len();
    let mut randomness: String = String::new();
    if randomness_length == 0 {
        return randomness;
    }
    let mut generator: ThreadRng = rand::thread_rng();
    let mut drawn: usize = 0;
    while drawn < randomness_length
        invariant
            valid_char_list(alphabet@),
            symbol_count == alphabet@.len(),
            drawn <= randomness_length,
            randomness@.len() == drawn,
            drawn_from(alphabet@, randomness@),
        decreases randomness_length - drawn,
    {
        let index: usize = random_index(&mut generator, symbol_count);
        let symbol: char = alphabet.digit_symbol(index);
        randomness.push(symbol);
        assert(alphabet@.contains(symbol)) by {
            assert(alphabet@[index as int] == symbol);
        }
        drawn += 1;
    }
    randomness
}

} // verus!
