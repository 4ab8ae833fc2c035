//! A virtual input-device protocol engine.
//!
//! The crate builds the fixed-size capability descriptor a consumer reads on
//! connect, tracks multi-touch slot state and turns pointer and key samples
//! into correctly framed event records, encodes both as the byte frames the
//! wire carries, and decides which connection currently receives events.
//! Socket handling, threads and clocks live outside the library; every
//! function here is pure and verified.

pub mod codec;
pub mod descriptor;
pub mod events;
pub mod registry;
pub mod tracker;
