//! A client library for the ZKTeco time-attendance protocol: packet framing,
//! session sequencing, bulk transfers and record decoding.
use vstd::prelude::*;

pub mod assistant;
pub mod bulk;
pub mod bytes;
pub mod codec;
pub mod commands;
pub mod error;
pub mod fetch;
pub mod info;
pub mod layouts;
pub mod records;
pub mod scanner;
pub mod session;
pub mod text;
pub mod time;
pub mod tools;

verus! {

/// Largest value of the 16-bit sequencing fields.
pub const USHRT_MAX: u16 = 65535;

} // verus!
