//! What the device did with the traffic of an event.
use vstd::prelude::*;

verus! {

/// The traffic was let through.
pub const ALLOWED: &'static str = "Allowed";

/// The traffic was refused.
pub const BLOCKED: &'static str = "Blocked";

/// The traffic was discarded silently.
pub const DROPPED: &'static str = "Dropped";

/// The event does not say.
pub const UNKNOWN: &'static str = "Unknown";

}
