//! An in-process key/value cache whose entries carry an optional time to live.
//!
//! Time is counted in nanoseconds since the Unix epoch. The table logic takes
//! the current time as an argument, so that every rule about expiry is proved
//! for every instant; only `clock` reads the system time.
use vstd::prelude::*;

pub mod item;
pub mod table;
pub mod cache;
pub mod laws;
mod clock;
