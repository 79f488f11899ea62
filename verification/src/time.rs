//! Points in time, in UTC.
//!
//! A [`Timestamp`] holds a point in time as two integers, the whole seconds
//! since 1970-01-01 00:00:00 UTC and the nanoseconds into that second, which
//! is how `chrono` takes a `DateTime<Utc>` apart and puts it together again.
//! The clock and the calendar stay with `chrono`.

use vstd::prelude::*;

verus! {

/// Whether `chrono::DateTime::from_timestamp(secs, nanos)` gives a date and
/// time, that is, whether the pair lies in the range that `chrono` can hold.
pub uninterp spec fn timestamp_valid(secs: i64, nanos: u32) -> bool;

/// The text that `chrono` displays for the UTC date and time made of `secs`
/// and `nanos`, such as `2015-05-15 00:00:00 UTC`.
pub uninterp spec fn timestamp_text(secs: i64, nanos: u32) -> Seq<char>;

/// Reads the clock with `chrono::Utc::now` and takes the result apart with
/// `DateTime::timestamp` and `DateTime::timestamp_subsec_nanos`.
///
/// Trusted: the pair is one that `DateTime::from_timestamp` accepts, which
/// `chrono` documents as a guaranteed round trip. Nothing is claimed of the
/// time itself. `Utc::now` panics where the system clock stands before 1970.
#[verifier::external_body]
fn clock_now() -> (parts: (i64, u32))
    ensures
        timestamp_valid(parts.0, parts.1),
{
    let now = chrono::Utc::now();
    (now.timestamp(), now.timestamp_subsec_nanos())
}

/// Asks `chrono::DateTime::from_timestamp` whether it accepts the pair.
///
/// Trusted: the answer is what [`timestamp_valid`] names.
#[verifier::external_body]
fn clock_accepts(secs: i64, nanos: u32) -> (accepted: bool)
    ensures
        accepted == timestamp_valid(secs, nanos),
{
    chrono::DateTime::from_timestamp(secs, nanos).is_some()
}

/// Builds the `DateTime<Utc>` with `chrono::DateTime::from_timestamp` and
/// formats it with its `Display` impl.
///
/// Trusted: the text is what [`timestamp_text`] names. The pair must be one
/// that `from_timestamp` accepts; for any other the body would panic.
#[verifier::external_body]
fn clock_display(secs: i64, nanos: u32) -> (text: String)
    requires
        timestamp_valid(secs, nanos),
    ensures
        text@ == timestamp_text(secs, nanos),
{
    chrono::DateTime::from_timestamp(secs, nanos).unwrap().to_string()
}

/// A point in time in UTC that `chrono` can represent.
#[derive(Debug, Clone, Copy, PartialEq, Eq, Structural)]
pub struct Timestamp {
    secs: i64,
    nanos: u32,
}

impl Timestamp {
    #[verifier::type_invariant]
    spec fn representable(self) -> bool {
        timestamp_valid(self.secs, self.nanos)
    }

    /// The whole seconds since 1970-01-01 00:00:00 UTC, leap seconds not
    /// counted.
    pub closed spec fn seconds(self) -> i64 {
        self.secs
    }

    /// The nanoseconds since the last whole second. A value of one billion
    /// or more stands for a leap second.
    pub closed spec fn subsec_nanos(self) -> u32 {
        self.nanos
    }

    /// The timestamp made of `secs` and `nanos`, or `None` where `chrono`
    /// cannot hold that point in time.
    pub fn new(secs: i64, nanos: u32) -> (made: Option<Timestamp>)
        ensures
            made is Some <==> timestamp_valid(secs, nanos),
            made matches Some(t) ==> t.seconds() == secs && t.subsec_nanos() == nanos,
    {
        if clock_accepts(secs, nanos) {
            Some(Timestamp { secs, nanos })
        } else {
            None
        }
    }

    /// The current time.
    pub fn now() -> (t: Timestamp)
        ensures
            timestamp_valid(t.seconds(), t.subsec_nanos()),
    {
        let parts = clock_now();
        Timestamp { secs: parts.0, nanos: parts.1 }
    }

    /// The whole seconds since 1970-01-01 00:00:00 UTC.
    pub fn timestamp(&self) -> (secs: i64)
        ensures
            secs == self.seconds(),
    {
        self.secs
    }

    /// The nanoseconds since the last whole second.
    pub fn timestamp_subsec_nanos(&self) -> (nanos: u32)
        ensures
            nanos == self.subsec_nanos(),
    {
        self.nanos
    }

    /// The date and time as text, such as `2015-05-15 00:00:00 UTC`.
    pub fn to_string(&self) -> (text: String)
        ensures
            text@ == timestamp_text(self.seconds(), self.subsec_nanos()),
    {
        proof {
            use_type_invariant(self);
        }
        clock_display(self.secs, self.nanos)
    }

    /// A timestamp is fixed by its two parts.
    pub proof fn lemma_parts_fix_timestamp(a: Timestamp, b: Timestamp)
        requires
            a.seconds() == b.seconds(),
            a.subsec_nanos() == b.subsec_nanos(),
        ensures
            a == b,
    {
    }
}

} // verus!
