//! Whole-second UTC timestamps, backed by the `time` crate.

use vstd::prelude::*;

verus! {

/// The smallest Unix timestamp that `time::OffsetDateTime` represents
/// (-9999-01-01 00:00:00 UTC).
pub const MIN_UNIX_TIMESTAMP: i64 = -377_705_116_800i64;

/// The largest Unix timestamp that `time::OffsetDateTime` represents
/// (9999-12-31 23:59:59 UTC).
pub const MAX_UNIX_TIMESTAMP: i64 = 253_402_300_799i64;

/// Whether `secs` seconds after the Unix epoch is a date that `time` can hold.
pub open spec fn representable(secs: int) -> bool {
    MIN_UNIX_TIMESTAMP <= secs <= MAX_UNIX_TIMESTAMP
}

/// The text that `time` prints (its `Display`) for the UTC date-time
/// `secs` seconds after the Unix epoch.
pub uninterp spec fn utc_date_time_text(secs: int) -> Seq<char>;

/// Calls `time::OffsetDateTime::from_unix_timestamp`; it succeeds exactly on
/// the timestamps between `MIN_UNIX_TIMESTAMP` and `MAX_UNIX_TIMESTAMP`
/// (the years -9999 to 9999 of the crate without its `large-dates` feature).
#[verifier::external_body]
fn unix_timestamp_is_representable(secs: i64) -> (r: bool)
    ensures
        r == representable(secs as int),
{
    time::OffsetDateTime::from_unix_timestamp(secs).is_ok()
}

/// Subtracts two `time::OffsetDateTime` values built with
/// `from_unix_timestamp` and takes `whole_seconds` of the difference. Both
/// date-times are whole seconds in UTC, so the difference is exactly
/// `later - earlier` seconds.
#[verifier::external_body]
fn offset_date_time_whole_seconds_between(later: i64, earlier: i64) -> (r: i64)
    requires
        representable(later as int),
        representable(earlier as int),
    ensures
        r == later - earlier,
{
    let later = time::OffsetDateTime::from_unix_timestamp(later).unwrap();
    let earlier = time::OffsetDateTime::from_unix_timestamp(earlier).unwrap();
    (later - earlier).whole_seconds()
}

/// Formats the `time::OffsetDateTime` built with `from_unix_timestamp(secs)`
/// through its `Display` impl. What that text is, is left to the name
/// `utc_date_time_text`.
#[verifier::external_body]
fn offset_date_time_to_string(secs: i64) -> (r: String)
    requires
        representable(secs as int),
    ensures
        r@ == utc_date_time_text(secs as int),
{
    time::OffsetDateTime::from_unix_timestamp(secs).unwrap().to_string()
}

/// Why the current time could not be turned into a timestamp.
#[derive(Debug, Clone, Copy, PartialEq, Eq, Structural)]
pub enum TimeError {
    /// The system clock reads a time before the Unix epoch.
    BeforeUnixEpoch,
    /// The seconds since the epoch do not fit in an `i64`.
    SecondsOverflow,
    /// The timestamp is outside the dates that `time` represents.
    OutOfRange,
}

/// A point in time, in whole seconds since the Unix epoch (UTC), that
/// `time::OffsetDateTime` can represent.
#[derive(Debug, Clone, Copy)]
pub struct Timestamp {
    secs: i64,
}

impl Timestamp {
    #[verifier::type_invariant]
    spec fn inv(self) -> bool {
        representable(self.secs as int)
    }

    /// Seconds since the Unix epoch.
    pub closed spec fn secs(self) -> int {
        self.secs as int
    }

    /// The timestamp `secs` seconds after the epoch, as
    /// `time::OffsetDateTime::from_unix_timestamp` accepts it, or
    /// `OutOfRange`.
    pub fn from_unix_timestamp(secs: i64) -> (r: Result<Timestamp, TimeError>)
        ensures
            representable(secs as int) ==> (r matches Ok(t) && t.secs() == secs),
            !representable(secs as int) ==> r == Err::<Timestamp, TimeError>(TimeError::OutOfRange),
    {
        if unix_timestamp_is_representable(secs) {
            Ok(Timestamp { secs })
        } else {
            Err(TimeError::OutOfRange)
        }
    }

    /// The timestamp `secs` seconds after the epoch, moved to the nearest
    /// date that `time` represents where it lies outside them.
    pub fn saturating_from_unix_timestamp(secs: i64) -> (r: Timestamp)
        ensures
            r.secs() == (if secs < MIN_UNIX_TIMESTAMP {
                MIN_UNIX_TIMESTAMP as int
            } else if secs > MAX_UNIX_TIMESTAMP {
                MAX_UNIX_TIMESTAMP as int
            } else {
                secs as int
            }),
    {
        let clamped = if secs < MIN_UNIX_TIMESTAMP {
            MIN_UNIX_TIMESTAMP
        } else if secs > MAX_UNIX_TIMESTAMP {
            MAX_UNIX_TIMESTAMP
        } else {
            secs
        };
        Timestamp { secs: clamped }
    }

    /// Seconds since the Unix epoch.
    pub fn unix_timestamp(&self) -> (r: i64)
        ensures
            r == self.secs(),
            representable(r as int),
    {
        proof { use_type_invariant(self); }
        self.secs
    }

    /// Whole seconds from `earlier` to `self`, as `time` computes
    /// `(self - earlier).whole_seconds()`.
    pub fn whole_seconds_since(&self, earlier: &Timestamp) -> (r: i64)
        ensures
            r == self.secs() - earlier.secs(),
    {
        proof {
            use_type_invariant(self);
            use_type_invariant(earlier);
        }
        offset_date_time_whole_seconds_between(self.secs, earlier.secs)
    }

    /// The date-time as `time` displays it.
    pub fn to_text(&self) -> (r: String)
        ensures
            r@ == utc_date_time_text(self.secs()),
    {
        proof { use_type_invariant(self); }
        offset_date_time_to_string(self.secs)
    }
}

/// Turns the clock's reading, the whole seconds since the Unix epoch (`None`
/// where the clock is before the epoch), into a timestamp, as the current
/// time is read before metrics are stamped or discarded.
pub fn get_epoch_now_as_offset_dt(since_epoch: Option<u64>) -> (r: Result<Timestamp, TimeError>)
    ensures
        (match since_epoch {
            None => r == Err::<Timestamp, TimeError>(TimeError::BeforeUnixEpoch),
            Some(s) => if s > i64::MAX {
                r == Err::<Timestamp, TimeError>(TimeError::SecondsOverflow)
            } else if !representable(s as int) {
                r == Err::<Timestamp, TimeError>(TimeError::OutOfRange)
            } else {
                r matches Ok(t) && t.secs() == s
            },
        }),
{
    match since_epoch {
        None => Err(TimeError::BeforeUnixEpoch),
        Some(s) => {
            if s > 9_223_372_036_854_775_807u64 {
                Err(TimeError::SecondsOverflow)
            } else {
                Timestamp::from_unix_timestamp(s as i64)
            }
        }
    }
}

} // verus!
