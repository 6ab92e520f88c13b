//! Fresh identifiers and the current time.

use vstd::prelude::*;

verus! {

/// A new random identifier: `uuid::Uuid::new_v4`, written out in its
/// hyphenated form. Nothing is claimed of the text, which differs from call
/// to call.
#[verifier::external_body]
pub(crate) fn fresh_id() -> (id: String) {
    uuid::Uuid::new_v4().to_string()
}

/// The current time as milliseconds since the Unix epoch:
/// `chrono::Utc::now` read through `timestamp_millis`. Nothing is claimed of
/// the number, which differs from call to call.
#[verifier::external_body]
pub(crate) fn now_millis() -> (millis: i64) {
    chrono::Utc::now().timestamp_millis()
}

} // verus!
