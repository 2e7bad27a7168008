//! Dates, as seconds since 1970 and nanoseconds within the second.
use vstd::prelude::*;

verus! {

/// A moment: seconds since 1970 began, and nanoseconds after that second. In a
/// leap second the nanoseconds go past a full second.
#[derive(Debug, Clone, Copy, PartialEq, Eq, Structural)]
pub struct Moment {
    pub secs: i64,
    pub nanos: u32,
}

/// Whether one moment is after another.
pub open spec fn later(a: Moment, b: Moment) -> bool {
    a.secs > b.secs || (a.secs == b.secs && a.nanos > b.nanos)
}

/// Whether one moment is after another.
pub fn is_later(a: Moment, b: Moment) -> (r: bool)
    ensures
        r == later(a, b),
{
    a.secs > b.secs || (a.secs == b.secs && a.nanos > b.nanos)
}

/// The moment that a date names, where it is one.
pub uninterp spec fn date_moment(text: Seq<char>) -> Option<(i64, u32)>;

/// The moment that a date names.
pub open spec fn moment_of(text: Seq<char>) -> Option<Moment> {
    match date_moment(text) {
        Some(p) => Some(Moment { secs: p.0, nanos: p.1 }),
        None => None,
    }
}

/// `chrono::DateTime::parse_from_rfc3339`: the moment that a date names, none
/// where the text is no date. Which texts are dates is not stated beyond that it
/// depends on the text alone.
#[verifier::external_body]
fn read_date(text: &str) -> (r: Option<(i64, u32)>)
    ensures
        r == date_moment(text@),
{
    let date = chrono::DateTime::parse_from_rfc3339(text).ok()?;
    Some((date.timestamp(), date.timestamp_subsec_nanos()))
}

/// The moment that a date names, where it is one.
pub fn parse_date(text: &str) -> (r: Option<Moment>)
    ensures
        r == moment_of(text@),
{
    match read_date(text) {
        Some(p) => Some(Moment { secs: p.0, nanos: p.1 }),
        None => None,
    }
}

/// The date of a moment in UTC, where it has one.
pub uninterp spec fn moment_date(secs: i64, nanos: u32) -> Option<Seq<char>>;

/// `chrono::DateTime::from_timestamp` and `chrono::DateTime::to_rfc3339`: the date
/// of a moment in UTC, none where the seconds are out of range or the nanoseconds
/// are none of such a second. How the date is written is not stated beyond that it
/// depends on the moment alone.
#[verifier::external_body]
fn write_date(secs: i64, nanos: u32) -> (r: Option<String>)
    ensures
        crate::text::opt_view(r) == moment_date(secs, nanos),
{
    chrono::DateTime::from_timestamp(secs, nanos).map(|date| date.to_rfc3339())
}

/// The date of a moment in UTC, where it has one.
pub fn date_text(m: Moment) -> (r: Option<String>)
    ensures
        crate::text::opt_view(r) == moment_date(m.secs, m.nanos),
{
    write_date(m.secs, m.nanos)
}

/// The milliseconds since 1970 began.
pub open spec fn millis(m: Moment) -> int {
    m.secs * 1000 + m.nanos as int / 1_000_000
}

/// No date is this many seconds away from 1970.
pub const MAX_DATE_SECS: i64 = 8_400_000_000_000;

/// The moment is near enough to be a date.
pub open spec fn within_dates(m: Moment) -> bool {
    -MAX_DATE_SECS <= m.secs <= MAX_DATE_SECS
}

/// The milliseconds since 1970 began.
pub fn moment_millis(m: Moment) -> (r: i64)
    requires
        within_dates(m),
    ensures
        r == millis(m),
{
    m.secs * 1000 + (m.nanos / 1_000_000) as i64
}

/// One moment is after another by its seconds and, within one, by its nanoseconds; two
/// moments that differ are one after the other.
pub proof fn law_moments_are_ordered(a: Moment, b: Moment)
    ensures
        a.secs > b.secs ==> later(a, b),
        a.secs == b.secs ==> (later(a, b) <==> a.nanos > b.nanos),
        later(a, b) ==> !later(b, a),
        a != b ==> later(a, b) || later(b, a),
{
}

/// A text names a moment exactly where it is a date, and the milliseconds of a moment are
/// those of its seconds and the whole ones among its nanoseconds.
pub proof fn law_what_a_date_names(text: Seq<char>, m: Moment)
    ensures
        moment_of(text) is Some <==> date_moment(text) is Some,
        moment_of(text) is Some ==> (moment_of(text)->0).secs == (date_moment(text)->0).0 && (
        moment_of(text)->0).nanos == (date_moment(text)->0).1,
        1_000_000 * (millis(m) - 1000 * m.secs) <= m.nanos,
        m.nanos < 1_000_000 * (millis(m) - 1000 * m.secs + 1),
        within_dates(m) <==> -8_400_000_000_000 <= m.secs <= 8_400_000_000_000,
{
}

} // verus!
