//! Points in time as plain values, the bin's retention period, and the
//! current time from `chrono`.

use vstd::prelude::*;

verus! {

/// A point in UTC time: whole seconds since the Unix epoch and the
/// nanoseconds within that second, as `chrono::DateTime<Utc>` holds them.
#[derive(Clone, Copy, Debug, PartialEq, Eq, Structural)]
pub struct Timestamp {
    pub secs: i64,
    pub nanos: u32,
}

/// Bin entries expire this many days after an agent is moved to the bin.
pub const RETENTION_DAYS: i64 = 30;

/// The retention period in seconds.
pub const RETENTION_SECS: i64 = 2_592_000;

/// The last second that `chrono::DateTime<Utc>` can hold (`DateTime::MAX_UTC`,
/// the end of the year 262142).
pub const MAX_UTC_SECS: i64 = 8_210_266_876_799;

/// Whether `a` is strictly later than `b` (seconds first, then nanoseconds).
pub open spec fn later(a: Timestamp, b: Timestamp) -> bool {
    a.secs > b.secs || (a.secs == b.secs && a.nanos > b.nanos)
}

/// The moment that lies the retention period after `t`.
pub open spec fn retention_end(t: Timestamp) -> Timestamp {
    Timestamp { secs: (t.secs + RETENTION_SECS) as i64, nanos: t.nanos }
}

/// The retention period is thirty days: the moment it ends lies exactly
/// thirty days of seconds after its start, at the same nanosecond, and so
/// strictly later.
pub proof fn law_retention_is_thirty_days(t: Timestamp)
    requires
        t.secs <= MAX_UTC_SECS - RETENTION_SECS,
    ensures
        retention_end(t).secs == t.secs + 30 * 24 * 60 * 60,
        retention_end(t).nanos == t.nanos,
        later(retention_end(t), t),
{
}

impl Timestamp {
    /// Whether this moment is strictly later than `other`.
    pub fn is_after(&self, other: &Timestamp) -> (r: bool)
        ensures
            r == later(*self, *other),
    {
        self.secs > other.secs || (self.secs == other.secs && self.nanos > other.nanos)
    }

    /// The moment that lies the retention period (30 days) after this one.
    pub fn plus_retention(&self) -> (r: Timestamp)
        requires
            self.secs <= MAX_UTC_SECS - RETENTION_SECS,
        ensures
            r == retention_end(*self),
    {
        proof {
            assert(RETENTION_SECS == RETENTION_DAYS * 86400);
        }
        Timestamp { secs: self.secs + RETENTION_SECS, nanos: self.nanos }
    }
}

/// `std::time::SystemTime`, a reading of the system clock, carried through
/// as it is.
#[verifier::external_type_specification]
#[verifier::external_body]
pub struct ExSystemTime(std::time::SystemTime);

/// Calls `SystemTime::now`. Nothing is stated of the reading: it is the
/// clock's.
#[verifier::external_body]
fn system_now() -> (t: std::time::SystemTime) {
    std::time::SystemTime::now()
}

/// Calls `SystemTime::duration_since` with `UNIX_EPOCH` and takes the
/// duration as whole seconds and nanoseconds (`as_secs`, `subsec_nanos`);
/// `None` when the reading is before 1970. The nanoseconds are below one
/// second, as `Duration` documents.
#[verifier::external_body]
fn since_epoch(t: &std::time::SystemTime) -> (d: Option<(u64, u32)>)
    ensures
        d matches Some(d) ==> d.1 < 1_000_000_000,
{
    let since = t.duration_since(std::time::UNIX_EPOCH).ok()?;
    Some((since.as_secs(), since.subsec_nanos()))
}

/// Calls `chrono::DateTime::from_timestamp` and takes the result back as
/// seconds and nanoseconds (`timestamp`, `timestamp_subsec_nanos`). chrono
/// gives `None` for seconds out of its range or an invalid nanosecond; a time
/// within its range, without leap second, is always made, and it reads back
/// as the same seconds and nanoseconds.
#[verifier::external_body]
fn utc_from_timestamp(secs: i64, nanos: u32) -> (t: Option<Timestamp>)
    ensures
        t matches Some(t) ==> t.secs == secs && t.nanos == nanos && secs <= MAX_UTC_SECS,
        0 <= secs <= MAX_UTC_SECS && nanos < 1_000_000_000 ==> t is Some,
{
    let time = chrono::DateTime::from_timestamp(secs, nanos)?;
    Some(Timestamp { secs: time.timestamp(), nanos: time.timestamp_subsec_nanos() })
}

/// The current UTC time, as `chrono::Utc::now()` builds it (the system clock
/// since the epoch, through `DateTime::from_timestamp`), but `None` where
/// that panics: when the clock is before 1970 or beyond chrono's range.
pub(crate) fn utc_now() -> (t: Option<Timestamp>)
    ensures
        t matches Some(t) ==> 0 <= t.secs <= MAX_UTC_SECS && t.nanos < 1_000_000_000,
{
    let now = system_now();
    match since_epoch(&now) {
        Some((secs, nanos)) => {
            if secs > 0x7fff_ffff_ffff_ffff {
                None
            } else {
                utc_from_timestamp(secs as i64, nanos)
            }
        },
        None => None,
    }
}

} // verus!
