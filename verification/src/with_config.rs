//! The operations under a configuration of the caller's: a builder takes
//! an alphabet and a number of random symbols, checks them, and hands out
//! the operations bound to them.

use crate::alphabet::{char_list_error, drawn_from, valid_char_list, Alphabet};
use crate::codec::{decode_spec, encode_spec, text_of};
use crate::configs::{CHAR_LIST, ENCODED_LENGTH, RANDOMNESS_LENGTH};
use crate::errors::RowIDError;
use crate::identifier::{
    generated, identifier_of, prefix_at, verified, verify_spec, GenerateResult, VerifyResult,
};
use crate::time::PointInTime;
use vstd::prelude::*;

verus! {

/// What a builder has been told so far.
#[derive(Clone, Debug, PartialEq, Eq)]
pub struct RowIDWithConfigState {
    /// The symbols of the alphabet, in order.
    pub char_list: String,
    /// The number of random symbols of an identifier.
    pub randomness_length: usize,
}

/// A builder of a configuration. It starts from the default
/// configuration; each setting replaces what was set before, and nothing
/// is checked until `done`.
#[derive(Clone, Debug, PartialEq, Eq)]
pub struct RowIDWithConfig {
    /// What has been set so far.
    pub state: RowIDWithConfigState,
}

/// A configuration as plain values.
pub struct Config {
    /// The symbols of the alphabet, in order.
    pub char_list: Seq<char>,
    /// The number of random symbols of an identifier.
    pub randomness_length: nat,
}

/// The operations bound to a checked configuration.
#[derive(Clone, Debug)]
pub struct RowIDWithConfigResult {
    alphabet: Alphabet,
    randomness_length: usize,
}

impl View for RowIDWithConfigResult {
    type V = Config;

    closed spec fn view(&self) -> Config {
        Config { char_list: self.alphabet@, randomness_length: self.randomness_length as nat }
    }
}

impl RowIDWithConfig {
    /// A builder that holds the default configuration.
    pub fn new() -> (builder: RowIDWithConfig)
        ensures
            builder.state.char_list@ == CHAR_LIST@,
            builder.state.randomness_length == RANDOMNESS_LENGTH,
    {
        RowIDWithConfig {
            state: RowIDWithConfigState {
                char_list: CHAR_LIST.to_owned(),
                randomness_length: RANDOMNESS_LENGTH,
            },
        }
    }

    /// Sets the alphabet.
    pub fn char_list(self, char_list: &str) -> (builder: RowIDWithConfig)
        ensures
            builder.state.char_list@ == char_list@,
            builder.state.randomness_length == self.state.randomness_length,
    {
        RowIDWithConfig {
            state: RowIDWithConfigState {
                char_list: char_list.to_owned(),
                randomness_length: self.state.randomness_length,
            },
        }
    }

    /// Sets the number of random symbols.
    pub fn randomness_length(self, randomness_length: usize) -> (builder: RowIDWithConfig)
        ensures
            builder.state.char_list@ == self.state.char_list@,
            builder.state.randomness_length == randomness_length,
    {
        RowIDWithConfig {
            state: RowIDWithConfigState { char_list: self.state.char_list, randomness_length },
        }
    }

    /// Checks the configuration and binds the operations to it: an
    /// alphabet of fewer than two symbols is refused, then one that holds
    /// a symbol twice; every number of random symbols is accepted.
    pub fn done(self) -> (bound: Result<RowIDWithConfigResult, RowIDError>)
        ensures
            match bound {
                Ok(bound) => {
                    &&& char_list_error(self.state.char_list@) is None
                    &&& bound@.char_list == self.state.char_list@
                    &&& bound@.randomness_length == self.state.randomness_length
                },
                Err(error) => char_list_error(self.state.char_list@) == Some(error),
            },
    {
        match Alphabet::new(self.state.char_list.as_str()) {
            Ok(alphabet) => Ok(
                RowIDWithConfigResult {
                    alphabet,
                    randomness_length: self.state.randomness_length,
                },
            ),
            Err(error) => Err(error),
        }
    }
}

impl RowIDWithConfigResult {
    /// The configured alphabet, which is valid: at least two symbols,
    /// none of them twice.
    pub fn char_list(&self) -> (char_list: String)
        ensures
            char_list@ == self@.char_list,
            valid_char_list(self@.char_list),
    {
        self.alphabet.char_list()
    }

    /// The configured number of random symbols.
    pub fn randomness_length(&self) -> (randomness_length: usize)
        ensures
            randomness_length == self@.randomness_length,
    {
        self.randomness_length
    }

    /// Generates an identifier for the present moment: the timestamp
    /// prefix, then the configured number of random symbols.
    pub fn rowid(&self) -> (identifier: String)
        ensures
            identifier@.len() == ENCODED_LENGTH + self@.randomness_length,
            exists|now: PointInTime|
                identifier_of(
                    self@.char_list,
                    prefix_at(self@.char_list, now),
                    self@.randomness_length,
                    identifier@,
                ),
    {
        assert(self@.char_list == self.alphabet@);
        crate::identifier::rowid(&self.alphabet, self.randomness_length)
    }

    /// Encodes a point in time as the timestamp prefix of an identifier.
    pub fn encode(&self, system_time: PointInTime) -> (prefix: Result<String, RowIDError>)
        ensures
            text_of(prefix) == encode_spec(self@.char_list, system_time),
    {
        crate::codec::encode(&self.alphabet, system_time)
    }

    /// Decodes the timestamp prefix of an identifier into its point in
    /// time.
    pub fn decode(&self, encoded: &str) -> (system_time: Result<PointInTime, RowIDError>)
        ensures
            system_time == decode_spec(self@.char_list, encoded@),
    {
        crate::codec::decode(&self.alphabet, encoded)
    }

    /// Generates the identifier of `system_time`, with `randomness_length`
    /// random symbols or, where none is given, the configured number.
    pub fn generate(&self, system_time: PointInTime, randomness_length: Option<usize>) -> (made:
        GenerateResult)
        ensures
            generated(
                self@.char_list,
                system_time,
                match randomness_length {
                    Some(length) => length as nat,
                    None => self@.randomness_length,
                },
                made,
            ),
            made.success ==> made.result.unwrap()@.len() == ENCODED_LENGTH + match randomness_length {
                Some(length) => length as nat,
                None => self@.randomness_length,
            },
    {
        let length: usize = match randomness_length {
            Some(length) => length,
            None => self.randomness_length,
        };
        crate::identifier::generate(&self.alphabet, system_time, length)
    }

    /// Verifies an identifier at the moment of the call.
    pub fn verify(&self, encoded: &str) -> (outcome: VerifyResult)
        ensures
            exists|now: PointInTime| outcome == verify_spec(self@.char_list, encoded@, now),
            verified(self@.char_list, encoded@, outcome),
    {
        assert(self@.char_list == self.alphabet@);
        crate::identifier::verify(&self.alphabet, encoded)
    }

    /// A string of `randomness_length` random symbols of the configured
    /// alphabet.
    pub fn get_randomness(&self, randomness_length: usize) -> (randomness: String)
        ensures
            randomness@.len() == randomness_length,
            randomness_length == 0 ==> randomness@ == Seq::<char>::empty(),
            drawn_from(self@.char_list, randomness@),
    {
        crate::randomness::get_randomness(&self.alphabet, randomness_length)
    }
}

} // verus!
