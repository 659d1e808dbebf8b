//! Instants, spans of time, and the seconds that a span leads to.
use vstd::prelude::*;

verus! {

/// The first second that a calendar time can fall in: the start of the year -262143.
pub const MIN_TIMESTAMP: i64 = -8334601228800;

/// The last second that a calendar time can fall in: the end of the year 262142.
pub const MAX_TIMESTAMP: i64 = 8210266876799;

/// Nanoseconds in a second.
pub const NANOS: u32 = 1_000_000_000;

/// An instant, as whole seconds since the Unix epoch and the nanoseconds that follow.
///
/// A leap second is the second before it with `NANOS` or more nanoseconds.
pub struct Moment {
    pub secs: int,
    pub nanos: nat,
}

impl Moment {
    /// The instants that the calendar holds; only the last second of a minute can be followed
    /// by a leap second.
    pub open spec fn valid(self) -> bool {
        &&& MIN_TIMESTAMP <= self.secs <= MAX_TIMESTAMP
        &&& self.nanos < 2 * NANOS
        &&& self.is_leap() ==> self.secs % 60 == 59
    }

    pub open spec fn is_leap(self) -> bool {
        self.nanos >= NANOS
    }
}

/// A length of time, in whole seconds and the nanoseconds that follow.
pub struct Length {
    pub secs: nat,
    pub nanos: nat,
}

impl Length {
    pub open spec fn valid(self) -> bool {
        &&& self.secs <= u64::MAX
        &&& self.nanos < NANOS
    }
}

/// The second that lies `d` after `t`. A leap second counts as the second before it.
pub open spec fn seconds_after(t: Moment, d: Length) -> int {
    let nanos: int = if t.is_leap() {
        t.nanos - NANOS
    } else {
        t.nanos as int
    };
    t.secs + d.secs + (nanos + d.nanos) / (NANOS as int)
}

/// The second that lies `d` before `t`. A leap second counts as the second after it, but less
/// than a whole second does not lead out of it.
pub open spec fn seconds_before(t: Moment, d: Length) -> int {
    if !t.is_leap() {
        t.secs - d.secs + (t.nanos - d.nanos) / (NANOS as int)
    } else if d.secs == 0 {
        t.secs
    } else {
        t.secs + 1 - d.secs + (t.nanos - NANOS - d.nanos) / (NANOS as int)
    }
}

/// `secs`, where the calendar holds it.
pub open spec fn on_calendar(secs: int) -> Option<i64> {
    if MIN_TIMESTAMP <= secs <= MAX_TIMESTAMP {
        Some(secs as i64)
    } else {
        None
    }
}

/// An instant in UTC.
#[derive(Clone, Copy, Debug)]
pub struct UtcTime {
    secs: i64,
    nanos: u32,
}

impl View for UtcTime {
    type V = Moment;

    closed spec fn view(&self) -> Moment {
        Moment { secs: self.secs as int, nanos: self.nanos as nat }
    }
}

impl UtcTime {
    #[verifier::type_invariant]
    spec fn inv(self) -> bool {
        self@.valid()
    }

    /// The instant `secs` seconds and `nanos` nanoseconds after the Unix epoch, where the
    /// calendar holds it.
    pub fn new(secs: i64, nanos: u32) -> (res: Option<UtcTime>)
        ensures
            res is Some <==> (Moment { secs: secs as int, nanos: nanos as nat }).valid(),
            res matches Some(t) ==> t@ == (Moment { secs: secs as int, nanos: nanos as nat }),
    {
        if secs < MIN_TIMESTAMP || secs > MAX_TIMESTAMP || nanos >= 2 * NANOS {
            return None;
        }
        if nanos >= NANOS {
            let r: i64 = secs % 60;
            if r != 59 && r != -1 {
                return None;
            }
        }
        Some(UtcTime { secs, nanos })
    }

    /// Whole seconds since the Unix epoch.
    pub fn timestamp(&self) -> (res: i64)
        ensures
            res == self@.secs,
    {
        self.secs
    }
}

/// A length of time.
#[derive(Clone, Copy, Debug)]
pub struct Span {
    pub(crate) secs: u64,
    pub(crate) nanos: u32,
}

impl View for Span {
    type V = Length;

    closed spec fn view(&self) -> Length {
        Length { secs: self.secs as nat, nanos: self.nanos as nat }
    }
}

impl Span {
    #[verifier::type_invariant]
    spec fn inv(self) -> bool {
        self@.valid()
    }

    /// The span of `secs` seconds and `nanos` nanoseconds, if these are less than a second.
    pub fn new(secs: u64, nanos: u32) -> (res: Option<Span>)
        ensures
            res is Some <==> nanos < NANOS,
            res matches Some(d) ==> d@ == (Length { secs: secs as nat, nanos: nanos as nat }),
    {
        if nanos < NANOS {
            Some(Span { secs, nanos })
        } else {
            None
        }
    }
}

/// `<DateTime<Utc> as Add<Duration>>::add` of chrono, as `DateTime::checked_add_signed`, read
/// off with `DateTime::timestamp`.
///
/// Claimed: the sum falls in the second `seconds_after` gives, and there is none exactly
/// where the calendar does not hold that second.
#[verifier::external_body]
pub(crate) fn add_span(t: UtcTime, d: Span) -> (res: Option<i64>)
    ensures
        res == on_calendar(seconds_after(t@, d@)),
{
    let start = chrono::DateTime::from_timestamp(t.secs, t.nanos)?;
    let delta = chrono::TimeDelta::from_std(std::time::Duration::new(d.secs, d.nanos)).ok()?;
    Some(start.checked_add_signed(delta)?.timestamp())
}

/// `<DateTime<Utc> as Sub<Duration>>::sub` of chrono, as `DateTime::checked_sub_signed`, read
/// off with `DateTime::timestamp`.
///
/// Claimed: the difference falls in the second `seconds_before` gives, and there is none
/// exactly where the calendar does not hold that second.
#[verifier::external_body]
pub(crate) fn sub_span(t: UtcTime, d: Span) -> (res: Option<i64>)
    ensures
        res == on_calendar(seconds_before(t@, d@)),
{
    let end = chrono::DateTime::from_timestamp(t.secs, t.nanos)?;
    let delta = chrono::TimeDelta::from_std(std::time::Duration::new(d.secs, d.nanos)).ok()?;
    Some(end.checked_sub_signed(delta)?.timestamp())
}

/// A time can be made of a second of the years -262143 to 262142 and of less than a second of
/// nanoseconds, or less than two at the end of a minute, where a leap second may follow; and it
/// then falls in that second.
pub proof fn times_are_those_of_the_calendar(
    secs: i64,
    nanos: u32,
    res: Option<UtcTime>,
    second: i64,
)
    requires
        call_ensures(UtcTime::new, (secs, nanos), res),
        res matches Some(t) ==> call_ensures(UtcTime::timestamp, (&t,), second),
    ensures
        res is Some <==> {
            &&& -8_334_601_228_800 <= secs <= 8_210_266_876_799
            &&& nanos < 1_000_000_000 || nanos < 2_000_000_000 && secs as int % 60 == 59
        },
        res is Some ==> second == secs,
        res matches Some(t) ==> t@.secs == secs && t@.nanos == nanos,
{
}

/// A span can be made of any number of seconds and of less than a second of nanoseconds.
pub proof fn spans_have_less_than_a_second_beside(secs: u64, nanos: u32, res: Option<Span>)
    requires
        call_ensures(Span::new, (secs, nanos), res),
    ensures
        res is Some <==> nanos < 1_000_000_000,
        res matches Some(d) ==> d@.secs == secs && d@.nanos == nanos,
{
}

} // verus!
