//! What a network activity event reports, as OCSF numbers it.
use vstd::prelude::*;

verus! {

/// A connection was opened.
pub const OPEN: u32 = 1;

/// A connection was closed.
pub const CLOSE: u32 = 2;

/// Anything that the other numbers do not cover.
pub const OTHER: u32 = 99;

}
