//! The current time.
use vstd::prelude::*;

verus! {

/// `Utc::now` and `DateTime::timestamp_millis` of the `chrono` crate: the
/// milliseconds since the Unix epoch. Nothing is promised of the value.
#[verifier::external_body]
pub(crate) fn now_millis() -> (r: i64) {
    chrono::Utc::now().timestamp_millis()
}

}
