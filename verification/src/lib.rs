//! Linear payment streams: how much of a stream's total has unlocked at a given
//! time, and the withdrawal that pays it out to the stream's recipient.

pub mod error;
pub mod stream;
pub mod vesting;
pub mod withdraw;
