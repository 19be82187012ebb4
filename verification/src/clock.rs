//! The wall clock, and rendering of timestamps.
use vstd::prelude::*;

verus! {

/// Earliest timestamp the library renders as text: 0001-01-01T00:00:00Z,
/// in milliseconds since the epoch.
pub const MIN_TIMESTAMP_MILLIS: i64 = -62135596800000;

/// Latest timestamp the library renders as text: 9999-12-31T23:59:59.999Z,
/// in milliseconds since the epoch.
pub const MAX_TIMESTAMP_MILLIS: i64 = 253402300799999;

/// The RFC 3339 rendering of a UTC timestamp given in milliseconds since
/// the epoch: a function of the number alone.
pub uninterp spec fn rfc3339_of(millis: int) -> Seq<char>;

/// The current time in whole seconds since the epoch.
///
/// Relies on chrono's Utc::now and DateTime::timestamp. Nothing is assumed
/// of the value.
#[verifier::external_body]
pub fn now_timestamp() -> i64 {
    chrono::Utc::now().timestamp()
}

/// The current time in milliseconds since the epoch.
///
/// Relies on chrono's Utc::now and DateTime::timestamp_millis. Nothing is
/// assumed of the value.
#[verifier::external_body]
pub fn now_timestamp_millis() -> i64 {
    chrono::Utc::now().timestamp_millis()
}

/// Renders a UTC timestamp as RFC 3339 text.
///
/// Relies on chrono's DateTime::from_timestamp_millis and to_rfc3339: both
/// are functions of the number alone, and the admitted range lies well
/// within chrono's documented span of roughly ±262,000 years, so the
/// conversion cannot come back empty.
#[verifier::external_body]
pub fn rfc3339_utc_of_millis(millis: i64) -> (r: String)
    requires
        MIN_TIMESTAMP_MILLIS <= millis <= MAX_TIMESTAMP_MILLIS,
    ensures
        r@ == rfc3339_of(millis as int),
{
    match chrono::DateTime::from_timestamp_millis(millis) {
        Some(dt) => dt.to_rfc3339(),
        None => String::new(),
    }
}

} // verus!
