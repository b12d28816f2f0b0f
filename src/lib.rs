//! A counter program over an owner-tagged storage slot.
//!
//! The persisted record is a name and a counter, stored in its binary
//! (borsh) layout. Each invocation either initialises the record from the
//! instruction input or increments the stored counter.

pub mod codec;
pub mod processor;
pub mod laws;
