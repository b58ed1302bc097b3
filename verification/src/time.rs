//! Instants, and the texts that columns and displays hold for them.

use vstd::prelude::*;
use crate::text::lex_lt;

verus! {

/// An instant in UTC: seconds since the Unix epoch, and the nanoseconds within
/// the second.
#[derive(Clone, Copy, Debug, PartialEq, Eq, Structural)]
pub struct Timestamp {
    pub secs: i64,
    pub nanos: u32,
}

/// The form in which columns hold an instant.
pub const COLUMN_FORMAT: &'static str = "%Y-%m-%dT%H:%M:%S%.3fZ";

/// The time of day, for lines of text.
pub const CLOCK_FORMAT: &'static str = "%H:%M:%S";

/// Date and time of day, for headings.
pub const FULL_FORMAT: &'static str = "%Y-%m-%d %H:%M:%S UTC";

/// The form that older columns hold.
pub const NAIVE_FORMAT: &'static str = "%Y-%m-%dT%H:%M:%S%.fZ";

/// Whether a pattern is one that this module knows to be well formed.
pub open spec fn known_format(pattern: Seq<char>) -> bool {
    pattern == COLUMN_FORMAT@ || pattern == CLOCK_FORMAT@ || pattern == FULL_FORMAT@
}

/// The instant that an RFC 3339 text names, as seconds and nanoseconds.
pub uninterp spec fn rfc3339_instant(text: Seq<char>) -> Option<(i64, u32)>;

/// Calls `chrono::DateTime::parse_from_rfc3339` and splits the instant into
/// seconds and nanoseconds; none where the text is no RFC 3339 date and time.
#[verifier::external_body]
fn read_rfc3339(text: &str) -> (r: Option<(i64, u32)>)
    ensures
        r == rfc3339_instant(text@),
{
    match chrono::DateTime::parse_from_rfc3339(text) {
        Ok(t) => Some((t.timestamp(), t.timestamp_subsec_nanos())),
        Err(_) => None,
    }
}

/// The instant that a text names when read by a pattern without a time zone,
/// taken as UTC.
pub uninterp spec fn naive_instant(text: Seq<char>, pattern: Seq<char>) -> Option<(i64, u32)>;

/// Calls `chrono::NaiveDateTime::parse_from_str` and takes the result as UTC;
/// none where the text does not fit the pattern.
#[verifier::external_body]
fn read_naive(text: &str, pattern: &str) -> (r: Option<(i64, u32)>)
    ensures
        r == naive_instant(text@, pattern@),
{
    match chrono::NaiveDateTime::parse_from_str(text, pattern) {
        Ok(t) => Some((t.and_utc().timestamp(), t.and_utc().timestamp_subsec_nanos())),
        Err(_) => None,
    }
}

/// Whether an instant lies in the years 0 to 9999, outside of a leap second.
pub open spec fn common(t: Timestamp) -> bool {
    -62167219200 <= t.secs <= 253402300799 && t.nanos < 1_000_000_000
}

/// The milliseconds from the Unix epoch to an instant, rounded down.
pub open spec fn millis(t: Timestamp) -> int {
    t.secs * 1000 + t.nanos as int / 1_000_000
}

/// An instant rounded down to the millisecond.
pub open spec fn to_millis(t: Timestamp) -> Timestamp {
    Timestamp { secs: t.secs, nanos: (t.nanos as int / 1_000_000 * 1_000_000) as u32 }
}

/// The text of an instant in a format; none where the numbers name no instant
/// of the calendar.
pub uninterp spec fn instant_text(secs: i64, nanos: u32, pattern: Seq<char>) -> Option<Seq<char>>;

/// Whether two texts are in the order of two numbers.
pub open spec fn ordered_as(a: Seq<char>, b: Seq<char>, m: int, n: int) -> bool {
    (lex_lt(a, b) <==> m < n) && (lex_lt(b, a) <==> n < m)
}

/// Whether an instant is one of the calendar, outside of a leap second and not
/// past the year 9999.
pub open spec fn orderly(t: Timestamp) -> bool {
    FIRST_SECOND <= t.secs <= 253402300799 && t.nanos < 1_000_000_000
}

/// Whether a text holds its place, that of a number of milliseconds, before or
/// behind the column text of an orderly instant.
pub open spec fn holds_place(text: Seq<char>, at: int, other: Timestamp) -> bool {
    orderly(other) ==> match instant_text(other.secs, other.nanos, COLUMN_FORMAT@) {
        Some(t) => ordered_as(text, t, at, millis(other)),
        None => false,
    }
}

/// Whether a text is right for a common instant in a column: it reads back as
/// the instant, rounded down to the millisecond, and it stands to the text of any
/// orderly instant as the instants do.
pub open spec fn column_keeps(text: Seq<char>, t: Timestamp) -> bool {
    let start = to_millis(t);
    &&& rfc3339_instant(text) == Some((start.secs, start.nanos))
    &&& forall|other: Timestamp| #[trigger] holds_place(text, millis(t), other)
}

/// Whether what is written for an instant is right for a column, where the
/// format is that of columns and the instant a common one.
pub open spec fn writes_columns(
    secs: i64,
    nanos: u32,
    pattern: Seq<char>,
    text: Option<Seq<char>>,
) -> bool {
    let t = Timestamp { secs, nanos };
    pattern == COLUMN_FORMAT@ && common(t) ==> (text matches Some(s) && column_keeps(s, t))
}

/// Calls `chrono::DateTime::from_timestamp` and formats the instant by
/// `DateTime::format`; none where the numbers name no instant of the calendar.
/// A malformed pattern would panic, so only known ones are admitted. In a column
/// a common instant has four digits for its year, two for each other part and
/// three for the milliseconds: its text reads back by `parse_from_rfc3339`, and
/// such texts are ordered as their instants. The text of an instant before the
/// year 0 begins with a minus sign, and so comes before all of them.
#[verifier::external_body]
fn write_instant(secs: i64, nanos: u32, pattern: &str) -> (r: Option<String>)
    requires
        known_format(pattern@),
    ensures
        r.deep_view() == instant_text(secs, nanos, pattern@),
        writes_columns(secs, nanos, pattern@, r.deep_view()),
{
    match chrono::DateTime::<chrono::Utc>::from_timestamp(secs, nanos) {
        Some(t) => Some(t.format(pattern).to_string()),
        None => None,
    }
}

/// Calls `chrono::Utc::now` and splits the instant into seconds and nanoseconds.
/// It is one of the calendar and never within a leap second; which one, and
/// whether it is later than an earlier one, is left open.
#[verifier::external_body]
fn read_clock() -> (r: (i64, u32))
    ensures
        FIRST_SECOND <= r.0 <= LAST_SECOND,
        r.1 < 1_000_000_000,
{
    let t = chrono::Utc::now();
    (t.timestamp(), t.timestamp_subsec_nanos())
}

/// What the clock shows: an instant of the calendar, outside of a leap second.
pub fn now() -> (r: Timestamp)
    ensures
        in_calendar(r),
{
    let (secs, nanos) = read_clock();
    Timestamp { secs, nanos }
}

/// The text of an instant in a known format; empty where the numbers name no
/// instant of the calendar.
pub open spec fn shown(t: Timestamp, pattern: Seq<char>) -> Seq<char> {
    match instant_text(t.secs, t.nanos, pattern) {
        Some(s) => s,
        None => Seq::empty(),
    }
}

/// Whether columns keep an instant, where it is a common one: its text reads
/// back as the instant, rounded down to the millisecond, and stands to the text
/// of any orderly instant as the instants do.
pub open spec fn kept(t: Timestamp) -> bool {
    common(t) ==> column_keeps(shown(t, COLUMN_FORMAT@), t)
}

/// The texts that columns hold for a common instant and for an orderly one are in
/// the order of time, to the millisecond.
pub proof fn columns_keep_the_order_of_time(t: Timestamp, u: Timestamp)
    requires
        kept(t),
        common(t),
        orderly(u),
    ensures
        lex_lt(shown(t, COLUMN_FORMAT@), shown(u, COLUMN_FORMAT@)) <==> millis(t) < millis(u),
        lex_lt(shown(u, COLUMN_FORMAT@), shown(t, COLUMN_FORMAT@)) <==> millis(u) < millis(t),
{
    assert(holds_place(shown(t, COLUMN_FORMAT@), millis(t), u));
}

/// The text that a column holds for a common instant names it, to the
/// millisecond.
pub proof fn columns_keep_instants(t: Timestamp)
    requires
        kept(t),
        common(t),
    ensures
        column_instant(shown(t, COLUMN_FORMAT@)) == Some(to_millis(t)),
{
}

/// Formats an instant.
pub fn show(t: Timestamp, pattern: &str) -> (r: String)
    requires
        known_format(pattern@),
    ensures
        r@ == shown(t, pattern@),
        pattern@ == COLUMN_FORMAT@ ==> kept(t),
{
    match write_instant(t.secs, t.nanos, pattern) {
        Some(s) => s,
        None => String::new(),
    }
}

/// The instant that a column text names, where it names one.
pub open spec fn column_instant(text: Seq<char>) -> Option<Timestamp> {
    match rfc3339_instant(text) {
        Some(t) => Some(Timestamp { secs: t.0, nanos: t.1 }),
        None => match naive_instant(text, NAIVE_FORMAT@) {
            Some(t) => Some(Timestamp { secs: t.0, nanos: t.1 }),
            None => None,
        },
    }
}

/// Whether `t` is a correct reading of a column text: the instant it names.
/// A text that names none may be read as any instant of the calendar.
pub open spec fn reads_as(text: Seq<char>, t: Timestamp) -> bool {
    match column_instant(text) {
        Some(named) => t == named,
        None => in_calendar(t),
    }
}

/// Reads a column text; one that names no instant is read as what the clock
/// shows.
pub fn parse_timestamp(text: &str) -> (r: Timestamp)
    ensures
        reads_as(text@, r),
{
    let clock = now();
    parse_timestamp_or(text, clock)
}

/// Reads a column text; one that names no instant is read as `fallback`.
pub fn parse_timestamp_or(text: &str, fallback: Timestamp) -> (r: Timestamp)
    ensures
        r == (match column_instant(text@) {
            Some(t) => t,
            None => fallback,
        }),
{
    first_reading(read_rfc3339(text), read_naive(text, NAIVE_FORMAT), fallback)
}

/// The first of two readings that there is, or `fallback`.
pub fn first_reading(
    first: Option<(i64, u32)>,
    second: Option<(i64, u32)>,
    fallback: Timestamp,
) -> (r: Timestamp)
    ensures
        r == (match (first, second) {
            (Some(t), _) => Timestamp { secs: t.0, nanos: t.1 },
            (None, Some(t)) => Timestamp { secs: t.0, nanos: t.1 },
            (None, None) => fallback,
        }),
{
    match (first, second) {
        (Some((secs, nanos)), _) => Timestamp { secs, nanos },
        (None, Some((secs, nanos))) => Timestamp { secs, nanos },
        (None, None) => fallback,
    }
}

/// Reads a column text as RFC 3339 alone.
pub fn parse_rfc3339(text: &str) -> (r: Option<Timestamp>)
    ensures
        r == (match rfc3339_instant(text@) {
            Some(t) => Some(Timestamp { secs: t.0, nanos: t.1 }),
            None => None,
        }),
{
    match read_rfc3339(text) {
        Some((secs, nanos)) => Some(Timestamp { secs, nanos }),
        None => None,
    }
}

/// The first second of the calendar.
pub const FIRST_SECOND: i64 = -8334601228800;

/// The last second of the calendar.
pub const LAST_SECOND: i64 = 8210266876799;

/// Whether an instant is in the calendar, outside of a leap second.
pub open spec fn in_calendar(t: Timestamp) -> bool {
    FIRST_SECOND <= t.secs <= LAST_SECOND && t.nanos < 1_000_000_000
}

/// Whether an instant, and the one a number of seconds later, are in the
/// calendar. The number is read as a signed one.
pub open spec fn has_later(t: Timestamp, secs: u64) -> bool {
    &&& in_calendar(t)
    &&& FIRST_SECOND <= t.secs + (secs as i64) <= LAST_SECOND
}

/// Whether an instant, and the one a number of seconds later, are in the
/// calendar.
pub fn later_exists(t: Timestamp, secs: u64) -> (r: bool)
    ensures
        r == has_later(t, secs),
{
    let d: i128 = (secs as i64) as i128;
    let sum: i128 = t.secs as i128 + d;
    t.nanos < 1_000_000_000 && FIRST_SECOND <= t.secs && t.secs <= LAST_SECOND
        && FIRST_SECOND as i128 <= sum && sum <= LAST_SECOND as i128
}

/// The instant a number of seconds later.
pub fn later(t: Timestamp, secs: u64) -> (r: Timestamp)
    requires
        has_later(t, secs),
    ensures
        r == (Timestamp { secs: (t.secs + (secs as i64)) as i64, nanos: t.nanos }),
{
    Timestamp { secs: t.secs + (secs as i64), nanos: t.nanos }
}

/// The column text of an optional instant.
pub open spec fn column_time(t: Option<Timestamp>) -> Option<Seq<char>> {
    match t {
        Some(t) => Some(shown(t, COLUMN_FORMAT@)),
        None => None,
    }
}

/// Formats an optional instant for a column.
pub fn column_text(t: Option<Timestamp>) -> (r: Option<String>)
    ensures
        r.deep_view() == column_time(t),
        t matches Some(u) ==> kept(u),
{
    match t {
        Some(t) => Some(show(t, COLUMN_FORMAT)),
        None => None,
    }
}

// --- What the calls do ---

/// An instant is shown in the format that is asked for; a column shows it in the format of
/// columns, and nothing for none.
pub proof fn instants_are_shown_in_their_format(
    t: Timestamp,
    pattern: &str,
    r: String,
    o: Option<Timestamp>,
    c: Option<String>,
)
    requires
        call_ensures(show, (t, pattern), r),
        call_ensures(column_text, (o,), c),
    ensures
        instant_text(t.secs, t.nanos, pattern@) matches Some(text) ==> r@ == text,
        instant_text(t.secs, t.nanos, pattern@) is None ==> r@.len() == 0,
        o is None <==> c is None,
        o matches Some(u) ==> (c matches Some(text) && (instant_text(
            u.secs,
            u.nanos,
            "%Y-%m-%dT%H:%M:%S%.3fZ"@,
        ) matches Some(want) ==> text@ == want)),
        CLOCK_FORMAT@ == "%H:%M:%S"@,
        FULL_FORMAT@ == "%Y-%m-%d %H:%M:%S UTC"@,
{
}

/// A column text is read as RFC 3339, and otherwise by the older form; what names no
/// instant is read as the fallback, or as what the clock shows.
pub proof fn column_texts_are_read_in_two_forms(
    text: &str,
    fallback: Timestamp,
    r: Timestamp,
    c: Timestamp,
    o: Option<Timestamp>,
)
    requires
        call_ensures(parse_timestamp_or, (text, fallback), r),
        call_ensures(parse_timestamp, (text,), c),
        call_ensures(parse_rfc3339, (text,), o),
    ensures
        rfc3339_instant(text@) matches Some(t) ==> r.secs == t.0 && r.nanos == t.1 && c == r && o
            == Some(r),
        rfc3339_instant(text@) is None ==> o is None,
        rfc3339_instant(text@) is None
            ==> (naive_instant(text@, "%Y-%m-%dT%H:%M:%S%.fZ"@) matches Some(
            t,
        ) ==> r.secs == t.0 && r.nanos == t.1 && c == r),
        rfc3339_instant(text@) is None && naive_instant(text@, "%Y-%m-%dT%H:%M:%S%.fZ"@) is None
            ==> r == fallback && in_calendar(c),
{
}

/// The first reading that there is counts, and the fallback where there is none.
pub proof fn the_first_reading_counts(
    first: Option<(i64, u32)>,
    second: Option<(i64, u32)>,
    fallback: Timestamp,
    r: Timestamp,
)
    requires
        call_ensures(first_reading, (first, second, fallback), r),
    ensures
        first matches Some(t) ==> r.secs == t.0 && r.nanos == t.1,
        first is None ==> (second matches Some(t) ==> r.secs == t.0 && r.nanos == t.1),
        first is None && second is None ==> r == fallback,
{
}

/// A later instant is as many seconds ahead as asked for, within the same nanosecond; there
/// is one where both instants are in the calendar.
pub proof fn a_later_instant_is_that_many_seconds_ahead(
    t: Timestamp,
    secs: u64,
    exists_later: bool,
    r: Timestamp,
)
    requires
        call_ensures(later_exists, (t, secs), exists_later),
        call_ensures(later, (t, secs), r),
        secs <= i64::MAX,
    ensures
        exists_later <==> -8334601228800 <= t.secs <= 8210266876799 && t.nanos < 1_000_000_000
            && t.secs
            + secs <= 8210266876799,
        exists_later ==> r.secs == t.secs + secs && r.nanos == t.nanos && in_calendar(r),
{
}

} // verus!
