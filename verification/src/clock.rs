//! Time and fresh identifiers, as the system gives them.

use crate::model::{text_view, Timestamp};
use vstd::prelude::*;

verus! {

/// What `chrono` writes for the point in time that lies `seconds` and
/// `nanos` after the Unix epoch, in the format of RFC 3339; nothing where
/// `chrono` cannot hold that point.
pub uninterp spec fn rfc3339_text(seconds: i64, nanos: u32) -> Option<Seq<char>>;

/// `chrono::Utc::now`, read through `DateTime::timestamp` and
/// `DateTime::timestamp_subsec_nanos`: the time on the system clock. Nothing
/// is claimed of the reading. `chrono` panics where the system clock stands
/// before the Unix epoch.
#[verifier::external_body]
pub(crate) fn now() -> (t: Timestamp) {
    let now = chrono::Utc::now();
    Timestamp { seconds: now.timestamp(), nanos: now.timestamp_subsec_nanos() }
}

/// `chrono::DateTime::to_rfc3339` on the UTC time that
/// `chrono::DateTime::from_timestamp` makes of the seconds and nanoseconds:
/// the time as RFC 3339 text, or nothing where `from_timestamp` refuses the
/// pair. The text depends on the pair alone.
#[verifier::external_body]
pub(crate) fn rfc3339(at: &Timestamp) -> (r: Option<String>)
    ensures
        text_view(r) == rfc3339_text(at.seconds, at.nanos),
{
    match chrono::DateTime::from_timestamp(at.seconds, at.nanos) {
        Some(time) => Some(time.to_rfc3339()),
        None => None,
    }
}

/// `uuid::Uuid::new_v4`, written out by its `Display`: a random identifier.
/// Nothing is claimed of it, not even that it is new.
#[verifier::external_body]
pub(crate) fn fresh_id() -> (id: String) {
    uuid::Uuid::new_v4().to_string()
}

} // verus!
