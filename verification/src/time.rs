//! Instants in UTC.

use vstd::prelude::*;

verus! {

/// The earliest second since the Unix epoch that an instant can hold.
pub const MIN_SECS: i64 = -8334601228800;

/// The latest second since the Unix epoch that an instant can hold.
pub const MAX_SECS: i64 = 8210266876799;

/// An instant: whole seconds since the Unix epoch, and the nanoseconds since
/// the last of them.
#[derive(Debug, Clone, Copy, PartialEq, Eq, Structural)]
pub struct Timestamp {
    secs: i64,
    nanos: u32,
}

/// What `chrono` prints for the instant in RFC 3339 with whole seconds and `Z`.
pub uninterp spec fn rfc3339_text(secs: int, nanos: int) -> Seq<char>;

/// What `chrono` prints for the instant with the pattern `%Y%m%dT%H%M%SZ`.
pub uninterp spec fn compact_text(secs: int, nanos: int) -> Seq<char>;

/// `chrono::DateTime::to_rfc3339_opts` with `SecondsFormat::Secs` and `Z`, on
/// the `DateTime<Utc>` that `from_timestamp` makes. The text is a function of
/// the instant alone; the calendar behind it is not stated.
#[verifier::external_body]
fn format_rfc3339(secs: i64, nanos: u32) -> (r: String)
    requires
        MIN_SECS <= secs <= MAX_SECS,
        nanos < 1_000_000_000,
    ensures
        r@ == rfc3339_text(secs as int, nanos as int),
{
    chrono::DateTime::<chrono::Utc>::from_timestamp(secs, nanos)
        .unwrap()
        .to_rfc3339_opts(chrono::SecondsFormat::Secs, true)
}

/// `chrono::DateTime::format` with `%Y%m%dT%H%M%SZ`, on the `DateTime<Utc>`
/// that `from_timestamp` makes. The text is a function of the instant alone;
/// the calendar behind it is not stated.
#[verifier::external_body]
fn format_compact(secs: i64, nanos: u32) -> (r: String)
    requires
        MIN_SECS <= secs <= MAX_SECS,
        nanos < 1_000_000_000,
    ensures
        r@ == compact_text(secs as int, nanos as int),
{
    chrono::DateTime::<chrono::Utc>::from_timestamp(secs, nanos)
        .unwrap()
        .format("%Y%m%dT%H%M%SZ")
        .to_string()
}

/// `chrono::Utc::now`, as whole seconds since the Unix epoch and nanoseconds
/// since the last of them. It reads the system clock, so nothing more is stated
/// than that the instant is not before the epoch and is one that `chrono` can
/// hold; a clock that stands before the epoch makes the call panic.
#[verifier::external_body]
fn read_clock() -> (r: (i64, u32))
    ensures
        0 <= r.0 <= MAX_SECS,
        r.1 < 1_000_000_000,
{
    let now = chrono::Utc::now();
    (now.timestamp(), now.timestamp_subsec_nanos())
}

impl Timestamp {
    #[verifier::type_invariant]
    spec fn valid(self) -> bool {
        MIN_SECS <= self.secs <= MAX_SECS && self.nanos < 1_000_000_000
    }

    /// Whole seconds since the Unix epoch.
    pub closed spec fn seconds(self) -> int {
        self.secs as int
    }

    /// Nanoseconds since the last whole second.
    pub closed spec fn nanoseconds(self) -> int {
        self.nanos as int
    }

    /// `self` is earlier than `other`.
    pub open spec fn earlier(self, other: Timestamp) -> bool {
        self.seconds() < other.seconds() || self.seconds() == other.seconds() && self.nanoseconds()
            < other.nanoseconds()
    }

    /// The instant in RFC 3339, to the second.
    pub open spec fn rfc3339(self) -> Seq<char> {
        rfc3339_text(self.seconds(), self.nanoseconds())
    }

    /// The instant as a compact stamp.
    pub open spec fn compact(self) -> Seq<char> {
        compact_text(self.seconds(), self.nanoseconds())
    }

    /// The instant `secs` seconds and `nanos` nanoseconds after the Unix epoch,
    /// where there is one.
    pub fn new(secs: i64, nanos: u32) -> (r: Option<Self>)
        ensures
            match r {
                Some(t) => t.seconds() == secs && t.nanoseconds() == nanos,
                None => secs < MIN_SECS || secs > MAX_SECS || nanos >= 1_000_000_000,
            },
    {
        if MIN_SECS <= secs && secs <= MAX_SECS && nanos < 1_000_000_000 {
            Some(Timestamp { secs, nanos })
        } else {
            None
        }
    }

    /// The instant that the system clock shows. Which one that is rests on the
    /// clock: what is stated holds of every reading.
    pub fn now() -> (r: Self)
        ensures
            0 <= r.seconds() <= MAX_SECS,
            0 <= r.nanoseconds() < 1_000_000_000,
    {
        let (secs, nanos) = read_clock();
        Timestamp { secs, nanos }
    }

    /// Whole seconds since the Unix epoch.
    pub fn secs(&self) -> (r: i64)
        ensures
            r == self.seconds(),
    {
        self.secs
    }

    /// Nanoseconds since the last whole second.
    pub fn subsec_nanos(&self) -> (r: u32)
        ensures
            r == self.nanoseconds(),
    {
        self.nanos
    }

    /// Whether `self` is earlier than `other`.
    pub fn is_before(&self, other: &Timestamp) -> (r: bool)
        ensures
            r == self.earlier(*other),
    {
        self.secs < other.secs || (self.secs == other.secs && self.nanos < other.nanos)
    }

    /// The instant in RFC 3339, to the second.
    pub fn to_rfc3339(&self) -> (r: String)
        ensures
            r@ == self.rfc3339(),
    {
        proof {
            use_type_invariant(self);
        }
        format_rfc3339(self.secs, self.nanos)
    }

    /// The instant as a compact stamp.
    pub fn to_compact(&self) -> (r: String)
        ensures
            r@ == self.compact(),
    {
        proof {
            use_type_invariant(self);
        }
        format_compact(self.secs, self.nanos)
    }

    /// The whole seconds from `start` to `self`, rounded toward zero, and zero
    /// where `self` is earlier.
    pub fn seconds_since(&self, start: &Timestamp) -> (r: u64)
        ensures
            r == whole_seconds_between(*start, *self),
    {
        proof {
            use_type_invariant(self);
            use_type_invariant(start);
        }
        if self.is_before(start) {
            0
        } else if self.nanos < start.nanos {
            (self.secs - start.secs - 1) as u64
        } else {
            (self.secs - start.secs) as u64
        }
    }
}

/// The whole seconds from `start` to `end`, rounded toward zero, and zero where
/// `end` is earlier.
pub open spec fn whole_seconds_between(start: Timestamp, end: Timestamp) -> int {
    if end.earlier(start) {
        0
    } else {
        end.seconds() - start.seconds() - if end.nanoseconds() < start.nanoseconds() {
            1int
        } else {
            0int
        }
    }
}

/// The whole seconds between two instants are those that have passed in full: as
/// many lie between them, and one more does not. Backwards none do.
pub proof fn whole_seconds_have_passed(start: Timestamp, end: Timestamp)
    ensures
        ({
            let nanos = (end.seconds() - start.seconds()) * 1_000_000_000 + end.nanoseconds()
                - start.nanoseconds();
            let n = whole_seconds_between(start, end);
            &&& nanos >= 0 && 0 <= start.nanoseconds() < 1_000_000_000 && 0 <= end.nanoseconds()
                < 1_000_000_000 ==> n * 1_000_000_000 <= nanos < (n + 1) * 1_000_000_000
            &&& nanos < 0 && 0 <= start.nanoseconds() < 1_000_000_000 && 0 <= end.nanoseconds()
                < 1_000_000_000 ==> n == 0 && end.earlier(start)
        }),
{
}

} // verus!
