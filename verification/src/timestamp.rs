//! Points in time as the library holds them: the seconds and nanoseconds since the Unix
//! epoch of an instant that `chrono` can represent, and the spans between them.
use chrono::{Datelike, TimeZone};
use vstd::prelude::*;

verus! {

/// The first and last day chrono can represent, counted from the Unix epoch: 1 January
/// of year -262143 and 31 December of year 262142.
pub open spec fn first_chrono_day() -> int {
    -96465292
}

pub open spec fn last_chrono_day() -> int {
    95026236
}

/// Whether `chrono::DateTime::<Utc>::from_timestamp(secs, nanos)` gives an instant: its
/// day lies within chrono's calendar, and its nanoseconds are under one second, or under
/// two in the last second of a minute (a leap second).
pub open spec fn chrono_instant_valid(secs: i64, nanos: u32) -> bool {
    &&& first_chrono_day() <= secs / 86400 <= last_chrono_day()
    &&& nanos < 2_000_000_000
    &&& (nanos < 1_000_000_000 || secs % 60 == 59)
}

/// Calls `chrono::DateTime::from_timestamp` and reports whether it gives an instant: the
/// day (seconds divided by 86400, rounded down, plus the epoch's day) must give a date
/// from `NaiveDate::from_num_days_from_ce_opt`, within years -262143 to 262142, and the
/// seconds of the day and the nanoseconds a time from
/// `NaiveTime::from_num_seconds_from_midnight_opt`.
#[verifier::external_body]
fn chrono_from_timestamp_is_some(secs: i64, nanos: u32) -> (r: bool)
    ensures
        r == chrono_instant_valid(secs, nanos),
{
    chrono::DateTime::from_timestamp(secs, nanos).is_some()
}

/// A point in time in UTC that `chrono` can represent: whole seconds since the Unix epoch
/// and the nanoseconds past that second (a leap second shows as nanoseconds from
/// 1_000_000_000 on).
#[derive(Debug, Clone, Copy, PartialEq, Eq, Structural)]
pub struct UtcTimestamp {
    pub(crate) secs: i64,
    pub(crate) nanos: u32,
}

impl UtcTimestamp {
    #[verifier::type_invariant]
    spec fn representable(self) -> bool {
        chrono_instant_valid(self.secs, self.nanos)
    }

    pub closed spec fn spec_secs(self) -> i64 {
        self.secs
    }

    pub closed spec fn spec_nanos(self) -> u32 {
        self.nanos
    }

    /// The instant `secs` seconds and `nanos` nanoseconds after the Unix epoch, when
    /// `chrono` can represent it.
    pub fn new(secs: i64, nanos: u32) -> (r: Option<Self>)
        ensures
            r is Some <==> chrono_instant_valid(secs, nanos),
            r matches Some(t) ==> t.spec_secs() == secs && t.spec_nanos() == nanos,
    {
        if chrono_from_timestamp_is_some(secs, nanos) {
            Some(UtcTimestamp { secs, nanos })
        } else {
            None
        }
    }

    /// Whole seconds since the Unix epoch.
    pub fn secs(&self) -> (r: i64)
        ensures
            r == self.spec_secs(),
    {
        self.secs
    }

    /// The seconds and nanoseconds of the instant, which `chrono` can represent.
    pub fn representable_parts(&self) -> (r: (i64, u32))
        ensures
            r == (self.spec_secs(), self.spec_nanos()),
            chrono_instant_valid(r.0, r.1),
    {
        proof {
            use_type_invariant(self);
        }
        (self.secs, self.nanos)
    }

    /// Nanoseconds past the whole second.
    pub fn subsec_nanos(&self) -> (r: u32)
        ensures
            r == self.spec_nanos(),
    {
        self.nanos
    }
}

/// Whether `a` is strictly earlier than `b`.
pub open spec fn ts_lt(a: UtcTimestamp, b: UtcTimestamp) -> bool {
    a.spec_secs() < b.spec_secs() || (a.spec_secs() == b.spec_secs() && a.spec_nanos()
        < b.spec_nanos())
}

/// Whether `a` is strictly earlier than `b`.
pub fn is_before(a: UtcTimestamp, b: UtcTimestamp) -> (r: bool)
    ensures
        r == ts_lt(a, b),
{
    a.secs < b.secs || (a.secs == b.secs && a.nanos < b.nanos)
}

/// The span from one instant to another as `chrono` measures it with
/// `signed_duration_since`: its whole seconds (`num_seconds`) and the nanoseconds of the
/// remaining fraction (`subsec_nanos`), both with the sign of the span.
pub uninterp spec fn chrono_elapsed(
    from_secs: i64,
    from_nanos: u32,
    to_secs: i64,
    to_nanos: u32,
) -> (i64, i32);

/// The span between two instants that fall in no leap second: the difference in
/// nanoseconds, split into whole seconds and the remaining nanoseconds, both rounded
/// toward zero.
pub open spec fn plain_span(from_secs: i64, from_nanos: u32, to_secs: i64, to_nanos: u32) -> (int, int) {
    let d = (to_secs - from_secs) * 1_000_000_000 + (to_nanos - from_nanos);
    if d >= 0 {
        (d / 1_000_000_000, d % 1_000_000_000)
    } else {
        (-((-d) / 1_000_000_000), -((-d) % 1_000_000_000))
    }
}

/// Calls `signed_duration_since` on the two instants and reads back `num_seconds` and
/// `subsec_nanos`. Besides naming the result, the contract states what chrono's
/// `TimeDelta` keeps: the fraction is under one second and has the sign of the seconds;
/// and, between instants that fall in no leap second (nanoseconds under one second), the
/// plain difference. Across a leap second chrono counts it, which is not stated here.
#[verifier::external_body]
fn chrono_signed_duration(from: &UtcTimestamp, to: &UtcTimestamp) -> (r: (i64, i32))
    requires
        chrono_instant_valid(from.secs, from.nanos),
        chrono_instant_valid(to.secs, to.nanos),
    ensures
        r == chrono_elapsed(from.secs, from.nanos, to.secs, to.nanos),
        -1_000_000_000 < r.1 < 1_000_000_000,
        r.0 > 0 ==> r.1 >= 0,
        r.0 < 0 ==> r.1 <= 0,
        from.nanos < 1_000_000_000 && to.nanos < 1_000_000_000 ==> r.0 == plain_span(
            from.secs,
            from.nanos,
            to.secs,
            to.nanos,
        ).0 && r.1 == plain_span(from.secs, from.nanos, to.secs, to.nanos).1,
{
    let a = chrono::DateTime::from_timestamp(from.secs, from.nanos).unwrap();
    let b = chrono::DateTime::from_timestamp(to.secs, to.nanos).unwrap();
    let delta = b.signed_duration_since(a);
    (delta.num_seconds(), delta.subsec_nanos())
}

/// The span from `from` to `to`, in chrono's whole seconds and signed fraction.
pub open spec fn elapsed(from: UtcTimestamp, to: UtcTimestamp) -> (i64, i32) {
    chrono_elapsed(from.spec_secs(), from.spec_nanos(), to.spec_secs(), to.spec_nanos())
}

/// The span from `from` to `to`: whole seconds, and the fraction in nanoseconds.
pub fn elapsed_between(from: &UtcTimestamp, to: &UtcTimestamp) -> (r: (i64, i32))
    ensures
        r == elapsed(*from, *to),
        -1_000_000_000 < r.1 < 1_000_000_000,
        r.0 > 0 ==> r.1 >= 0,
        r.0 < 0 ==> r.1 <= 0,
        from.spec_nanos() < 1_000_000_000 && to.spec_nanos() < 1_000_000_000 ==> r.0 == plain_span(
            from.spec_secs(),
            from.spec_nanos(),
            to.spec_secs(),
            to.spec_nanos(),
        ).0 && r.1 == plain_span(from.spec_secs(), from.spec_nanos(), to.spec_secs(), to.spec_nanos()).1,
{
    proof {
        use_type_invariant(from);
        use_type_invariant(to);
    }
    chrono_signed_duration(from, to)
}

/// Whether a span is shorter than `limit` whole seconds.
pub open spec fn span_below(span: (i64, i32), limit: int) -> bool {
    span.0 < limit || (span.0 == limit && span.1 < 0)
}

/// Whether a span is longer than `limit` whole seconds.
pub open spec fn span_above(span: (i64, i32), limit: int) -> bool {
    span.0 > limit || (span.0 == limit && span.1 > 0)
}

/// The whole minutes of a span, rounded toward zero as `num_minutes` does.
pub open spec fn span_minutes(span: (i64, i32)) -> int {
    if span.0 >= 0 {
        span.0 / 60
    } else {
        -((-span.0) / 60)
    }
}

/// The whole minutes from `from` to `to`, rounded toward zero.
pub fn minutes_between(from: &UtcTimestamp, to: &UtcTimestamp) -> (r: i64)
    ensures
        r == span_minutes(elapsed(*from, *to)),
{
    let (secs, _) = elapsed_between(from, to);
    if secs >= 0 {
        secs / 60
    } else {
        let m: i128 = (-(secs as i128)) / 60;
        (-m) as i64
    }
}

/// The instant that `chrono::DateTime::parse_from_rfc3339` reads from a text, converted to
/// UTC seconds and sub-second nanoseconds; none when the text is not RFC 3339.
pub uninterp spec fn rfc3339_instant(text: Seq<char>) -> Option<(i64, u32)>;

/// Calls `chrono::DateTime::parse_from_rfc3339` and converts the result to UTC. The
/// contract claims that the outcome is a function of the text, and, as chrono documents
/// that `from_timestamp` gives back any instant from its `timestamp` and
/// `timestamp_subsec_nanos`, that the instant read is one `chrono` can represent.
#[verifier::external_body]
fn chrono_parse_rfc3339(value: &str) -> (r: Option<(i64, u32)>)
    ensures
        r == rfc3339_instant(value@),
        r matches Some((s, n)) ==> chrono_instant_valid(s, n),
{
    match chrono::DateTime::parse_from_rfc3339(value) {
        Ok(parsed) => {
            let utc = parsed.with_timezone(&chrono::Utc);
            Some((utc.timestamp(), utc.timestamp_subsec_nanos()))
        },
        Err(_) => None,
    }
}

/// The instant an RFC 3339 text denotes, when it is one.
pub open spec fn parsed_instant(text: Seq<char>) -> Option<(i64, u32)> {
    rfc3339_instant(text)
}

pub open spec fn instant_parts(t: Option<UtcTimestamp>) -> Option<(i64, u32)> {
    match t {
        Some(t) => Some((t.spec_secs(), t.spec_nanos())),
        None => None,
    }
}

/// Reads an RFC 3339 timestamp; none when the text is not one.
pub fn parse_rfc3339(value: &str) -> (r: Option<UtcTimestamp>)
    ensures
        instant_parts(r) == parsed_instant(value@),
{
    match chrono_parse_rfc3339(value) {
        Some((secs, nanos)) => Some(UtcTimestamp { secs, nanos }),
        None => None,
    }
}

#[verifier::external_type_specification]
#[verifier::external_body]
pub struct ExSystemTime(std::time::SystemTime);

/// Calls `std::time::SystemTime::now`. Nothing is claimed of the time it reads.
#[verifier::external_body]
fn clock_now() -> std::time::SystemTime {
    std::time::SystemTime::now()
}

/// Calls `SystemTime::duration_since` with `UNIX_EPOCH`: the span since the Unix epoch,
/// none when the time is before it. Nothing is claimed of the span.
#[verifier::external_body]
fn since_unix_epoch(t: &std::time::SystemTime) -> Option<core::time::Duration> {
    t.duration_since(std::time::UNIX_EPOCH).ok()
}

/// `Duration::as_secs`: the whole seconds of a span. Nothing is claimed of the number.
pub assume_specification[ core::time::Duration::as_secs ](d: &core::time::Duration) -> u64;

/// `Duration::subsec_nanos`: the nanoseconds of a span past its whole seconds, which the
/// documentation gives as under one second.
pub assume_specification[ core::time::Duration::subsec_nanos ](d: &core::time::Duration) -> (r: u32)
    ensures
        r < 1_000_000_000,
;

/// The current instant by the system clock; none when the clock reads before 1970 or
/// beyond what chrono can represent.
pub(crate) fn utc_now() -> (r: Option<UtcTimestamp>)
    ensures
        r matches Some(t) ==> t.spec_secs() >= 0 && t.spec_nanos() < 1_000_000_000,
{
    let now = clock_now();
    match since_unix_epoch(&now) {
        Some(d) => {
            let secs = d.as_secs();
            let nanos = d.subsec_nanos();
            if secs <= i64::MAX as u64 {
                UtcTimestamp::new(secs as i64, nanos)
            } else {
                None
            }
        },
        None => None,
    }
}

/// The calendar year in UTC of an instant, as `chrono`'s `Datelike::year` reads it.
pub uninterp spec fn chrono_year(secs: i64, nanos: u32) -> i32;

/// The calendar month (1 to 12) in UTC of an instant, as `chrono`'s `Datelike::month`
/// reads it.
pub uninterp spec fn chrono_month(secs: i64, nanos: u32) -> u32;

/// Calls `Datelike::year` on the instant. Besides naming the result, the contract states
/// chrono's upper bound on years (`MAX_YEAR`, 262142, in its source).
#[verifier::external_body]
fn chrono_year_of(t: &UtcTimestamp) -> (r: i32)
    requires
        chrono_instant_valid(t.secs, t.nanos),
    ensures
        r == chrono_year(t.secs, t.nanos),
        r < 262143,
{
    chrono::DateTime::from_timestamp(t.secs, t.nanos).unwrap().year()
}

/// Calls `Datelike::month` on the instant. Besides naming the result, the contract states
/// the documented range, 1 to 12.
#[verifier::external_body]
fn chrono_month_of(t: &UtcTimestamp) -> (r: u32)
    requires
        chrono_instant_valid(t.secs, t.nanos),
    ensures
        r == chrono_month(t.secs, t.nanos),
        1 <= r <= 12,
{
    chrono::DateTime::from_timestamp(t.secs, t.nanos).unwrap().month()
}

/// The calendar year and month of an instant in UTC.
pub fn year_and_month(t: &UtcTimestamp) -> (r: (i32, u32))
    ensures
        r == (chrono_year(t.spec_secs(), t.spec_nanos()), chrono_month(t.spec_secs(), t.spec_nanos())),
        r.0 < 262143,
        1 <= r.1 <= 12,
{
    proof {
        use_type_invariant(t);
    }
    (chrono_year_of(t), chrono_month_of(t))
}

/// Midnight UTC on the first day of a month, as the seconds and nanoseconds of the
/// instant that `chrono::NaiveDate::from_ymd_opt(year, month, 1)` gives at `00:00:00`;
/// none when chrono has no such date.
pub uninterp spec fn chrono_month_start(year: i32, month: u32) -> Option<(i64, u32)>;

/// Calls `NaiveDate::from_ymd_opt(year, month, 1)`, sets the time to midnight with
/// `and_hms_opt(0, 0, 0)` and reads the instant in UTC. Besides naming the result, the
/// contract states that midnight has no fraction of a second and that the instant is one
/// chrono can represent, as it came from a chrono date.
#[verifier::external_body]
fn chrono_first_of_month(year: i32, month: u32) -> (r: Option<(i64, u32)>)
    ensures
        r == chrono_month_start(year, month),
        r matches Some((s, n)) ==> n == 0 && chrono_instant_valid(s, n),
{
    match chrono::NaiveDate::from_ymd_opt(year, month, 1) {
        Some(date) => match date.and_hms_opt(0, 0, 0) {
            Some(midnight) => {
                let utc = chrono::Utc.from_utc_datetime(&midnight);
                Some((utc.timestamp(), utc.timestamp_subsec_nanos()))
            },
            None => None,
        },
        None => None,
    }
}

/// Midnight UTC on the first day of a month, when chrono can represent it.
pub fn month_start(year: i32, month: u32) -> (r: Option<UtcTimestamp>)
    ensures
        instant_parts(r) == chrono_month_start(year, month),
{
    match chrono_first_of_month(year, month) {
        Some((secs, nanos)) => Some(UtcTimestamp { secs, nanos }),
        None => None,
    }
}

} // verus!
