//! Snowflake identifiers: 64-bit, roughly time-ordered ids made of a
//! millisecond timestamp, an instance number and a sequence number.
//!
//! [`Snowflake`] holds the three fields, packs them into one signed 64-bit
//! integer, writes that integer in decimal or binary, and reads it back.
//! [`numeral`] is the text side: what a run of digits denotes and how a
//! number is written. [`utils`] reads the wall clock.

pub mod constants;
pub mod numeral;
pub mod snowflake;
pub mod utils;

pub use snowflake::FieldOverflow;
pub use snowflake::Snowflake;
pub use snowflake::SnowflakeParseError;
