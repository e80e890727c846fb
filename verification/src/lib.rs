//! Time-based unique identifiers.
//!
//! An identifier is a timestamp prefix of ten symbols, the milliseconds
//! since the Unix epoch written in the base that the alphabet's length
//! gives, followed by random symbols of the same alphabet. Identifiers
//! sort by the time they were made at, and the time can be read back from
//! them.
//!
//! The operations under the default configuration are in [`base`], and
//! here under their own names; [`with_config`] binds them to an alphabet
//! and a number of random symbols of the caller's.

pub mod alphabet;
pub mod base;
pub mod codec;
pub mod configs;
pub mod errors;
pub mod identifier;
pub mod laws;
pub mod randomness;
pub mod strings;
pub mod time;
pub mod with_config;

pub use crate::alphabet::Alphabet;
pub use crate::base::{decode, encode, generate, get_randomness, rowid, verify};
pub use crate::errors::RowIDError;
pub use crate::identifier::{GenerateResult, VerifyResult};
pub use crate::time::{system_time_to_timestamp, timestamp_to_system_time, PointInTime};
pub use crate::with_config::{RowIDWithConfig, RowIDWithConfigResult, RowIDWithConfigState};
