//! The few date conversions the reports need, done by chrono and trusted.
//!
//! chrono's `DateTime<Tz>` cannot be declared to the verifier (its time-zone
//! parameter drags in a whole trait), so a UTC instant is carried opaquely
//! in `UtcDateTime` instead.

use vstd::prelude::*;

verus! {

/// The largest count of seconds since the epoch that chrono can represent
/// as a UTC instant (23:59:59 on the last day of its year 262142).
pub const MAX_UTC_SECONDS: u64 = 8_210_266_876_799;

/// A UTC instant, held as chrono's `DateTime<Utc>` and opaque to the
/// verifier; everything proved about dates goes through timestamps and
/// `rfc3339_of` instead.
#[verifier::external_body]
pub struct UtcDateTime {
    inner: chrono::DateTime<chrono::Utc>,
}

/// The RFC 3339 rendering of the UTC instant `ts` seconds after the epoch.
/// The rendering is a function of the timestamp alone; what it looks like
/// only chrono says.
pub uninterp spec fn rfc3339_of(ts: int) -> Seq<char>;

/// Relies on chrono's `DateTime::<Utc>::from_timestamp` (total for
/// timestamps up to `MAX_UTC_SECONDS`) composed with `DateTime::to_rfc3339`:
/// together a pure function from the timestamp to its RFC 3339 text.
#[verifier::external_body]
pub(crate) fn rfc3339_utc(ts: u64) -> (r: String)
    requires
        ts <= MAX_UTC_SECONDS,
    ensures
        r@ == rfc3339_of(ts as int),
{
    chrono::DateTime::<chrono::Utc>::from_timestamp(ts as i64, 0).unwrap().to_rfc3339()
}

impl UtcDateTime {
    /// Relies on chrono's `DateTime::<Utc>::from_timestamp`, which yields
    /// the UTC instant for any timestamp up to `MAX_UTC_SECONDS`.
    #[verifier::external_body]
    pub fn from_timestamp_secs(ts: u64) -> UtcDateTime
        requires
            ts <= MAX_UTC_SECONDS,
    {
        UtcDateTime { inner: chrono::DateTime::<chrono::Utc>::from_timestamp(ts as i64, 0).unwrap() }
    }

    /// Relies on chrono's `DateTime::to_rfc3339`.
    #[verifier::external_body]
    pub fn to_rfc3339(&self) -> String {
        self.inner.to_rfc3339()
    }

    /// Relies on chrono's `DateTime::timestamp`.
    #[verifier::external_body]
    pub fn timestamp(&self) -> i64 {
        self.inner.timestamp()
    }
}

} // verus!
