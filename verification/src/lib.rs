//! Protocol core for a utility-meter telemetry link: a checksum-verified
//! frame assembler and an OBIS-keyed attribute decoder.
//!
//! The library is pure: it turns byte streams, already split into lines by
//! the caller, into verified frames, and frame lines into typed measurement
//! records. Transport, logging and metrics publication live outside it.

use vstd::prelude::*;

pub mod assembler;
pub mod attribute;
pub mod cli;
pub mod crc;
pub mod decimal;
pub mod metrics;
pub mod dispatch;
pub mod error;
pub mod obis;
pub mod telegram;
pub mod text;

verus! {

} // verus!
