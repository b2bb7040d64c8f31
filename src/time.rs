use vstd::prelude::*;

verus! {

/// Seconds since the Unix epoch of 0000-01-01T00:00:00Z.
pub const MIN_SECS: i64 = -62167219200;

/// Seconds since the Unix epoch of 9999-12-31T23:59:59Z.
pub const MAX_SECS: i64 = 253402300799;

/// An instant in UTC: whole seconds since the Unix epoch and the nanoseconds after them.
#[derive(Debug, Clone, Copy, PartialEq, Eq, Structural)]
pub struct Timestamp {
    pub secs: i64,
    pub nanos: u32,
}

impl Timestamp {
    /// An instant that RFC 3339 can write: a four-digit year, and no leap second.
    pub open spec fn wf(&self) -> bool {
        MIN_SECS <= self.secs <= MAX_SECS && self.nanos < 1_000_000_000
    }

    /// The instant `secs` seconds and `nanos` nanoseconds after the epoch, if RFC 3339 can write it.
    pub fn new(secs: i64, nanos: u32) -> (r: Option<Timestamp>)
        ensures
            r matches Some(t) ==> t.wf() && t.secs == secs && t.nanos == nanos,
            r is None <==> !(MIN_SECS <= secs <= MAX_SECS && nanos < 1_000_000_000),
    {
        if MIN_SECS <= secs && secs <= MAX_SECS && nanos < 1_000_000_000 {
            Some(Timestamp { secs, nanos })
        } else {
            None
        }
    }
}

/// The RFC 3339 text that chrono writes for an instant in UTC.
pub uninterp spec fn rfc3339_of(secs: int, nanos: int) -> Seq<char>;

/// Relies on chrono's `DateTime::<Utc>::from_timestamp`, which is `Some` for every
/// instant of years 0000 to 9999 with nanoseconds under one second, and on
/// `DateTime::to_rfc3339`, whose text depends on the instant alone.
#[verifier::external_body]
pub(crate) fn rfc3339(t: &Timestamp) -> (r: String)
    requires
        t.wf(),
    ensures
        r@ == rfc3339_of(t.secs as int, t.nanos as int),
{
    chrono::DateTime::<chrono::Utc>::from_timestamp(t.secs, t.nanos).unwrap().to_rfc3339()
}

} // verus!
