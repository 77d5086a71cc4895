use vstd::prelude::*;
use vstd::string::StrSliceExecFns;
use crate::strutil::{digit_char, push_char, push_digit};
use chrono::Datelike;

verus! {

/// A civil calendar date, held as plain year / month / day values.
///
/// The tool reads and writes dates only in the ten-character `YYYY-MM-DD`
/// form, so well-formed dates keep the year within four digits.
#[derive(Debug, Clone, Copy, PartialEq, Eq, Structural)]
pub struct Date {
    pub year: i32,
    pub month: u8,
    pub day: u8,
}

pub open spec fn is_leap_year(y: int) -> bool {
    (y % 4 == 0 && y % 100 != 0) || y % 400 == 0
}

pub open spec fn days_in_month(y: int, m: int) -> int {
    if m == 2 {
        if is_leap_year(y) {
            29
        } else {
            28
        }
    } else if m == 4 || m == 6 || m == 9 || m == 11 {
        30
    } else {
        31
    }
}

impl Date {
    /// A real calendar date whose year fits the four-digit text form.
    pub open spec fn wf(self) -> bool {
        &&& 0 <= self.year <= 9999
        &&& 1 <= self.month <= 12
        &&& 1 <= self.day <= days_in_month(self.year as int, self.month as int)
    }

    pub fn is_valid(&self) -> (r: bool)
        ensures
            r == self.wf(),
    {
        0 <= self.year && self.year <= 9999 && 1 <= self.month && self.month <= 12 && 1 <= self.day
            && self.day <= days_in_month_exec(self.year, self.month)
    }
}

/// Executable twin of `days_in_month`, for months outside 1..=12 as well
/// (it then falls back to 31, as the spec does).
pub fn days_in_month_exec(y: i32, m: u8) -> (r: u8)
    requires
        0 <= y,
    ensures
        r as int == days_in_month(y as int, m as int),
{
    if m == 2 {
        if (y % 4 == 0 && y % 100 != 0) || y % 400 == 0 {
            29
        } else {
            28
        }
    } else if m == 4 || m == 6 || m == 9 || m == 11 {
        30
    } else {
        31
    }
}

/// Strict calendar order on dates: year, then month, then day.
pub open spec fn date_lt(a: Date, b: Date) -> bool {
    ||| a.year < b.year
    ||| (a.year == b.year && a.month < b.month)
    ||| (a.year == b.year && a.month == b.month && a.day < b.day)
}

/// Calendar order, equality allowed.
pub open spec fn date_le(a: Date, b: Date) -> bool {
    !date_lt(b, a)
}

/// Whether `first` falls strictly after `second`.
pub fn is_date_greater(first: &Date, second: &Date) -> (r: bool)
    ensures
        r == date_lt(*second, *first),
{
    if first.year != second.year {
        second.year < first.year
    } else if first.month != second.month {
        second.month < first.month
    } else {
        second.day < first.day
    }
}

pub open spec fn is_digit(c: char) -> bool {
    48 <= c as u32 <= 57
}

pub open spec fn digit_val(c: char) -> int {
    c as u32 - 48
}

/// The shape of a `YYYY-MM-DD` string: four digits, dash, two digits, dash,
/// two digits, nothing more.
pub open spec fn date_text_shaped(s: Seq<char>) -> bool {
    &&& s.len() == 10
    &&& is_digit(s[0]) && is_digit(s[1]) && is_digit(s[2]) && is_digit(s[3])
    &&& s[4] == '-'
    &&& is_digit(s[5]) && is_digit(s[6])
    &&& s[7] == '-'
    &&& is_digit(s[8]) && is_digit(s[9])
}

/// The date named by a well-shaped `YYYY-MM-DD` string.
pub open spec fn date_of_text(s: Seq<char>) -> Date {
    Date {
        year: (digit_val(s[0]) * 1000 + digit_val(s[1]) * 100 + digit_val(s[2]) * 10 + digit_val(
            s[3],
        )) as i32,
        month: (digit_val(s[5]) * 10 + digit_val(s[6])) as u8,
        day: (digit_val(s[8]) * 10 + digit_val(s[9])) as u8,
    }
}

/// What `parse_date` returns: the named date when the text is well shaped
/// and names a real calendar date, and nothing otherwise.
pub open spec fn parse_date_spec(s: Seq<char>) -> Option<Date> {
    if date_text_shaped(s) && date_of_text(s).wf() {
        Some(date_of_text(s))
    } else {
        None
    }
}

/// Reads a `YYYY-MM-DD` date, rejecting malformed text and impossible
/// calendar dates.
pub fn parse_date(s: &str) -> (r: Option<Date>)
    ensures
        r == parse_date_spec(s@),
{
    if s.unicode_len() != 10 {
        return None;
    }
    let d0 = read_digit(s, 0);
    let d1 = read_digit(s, 1);
    let d2 = read_digit(s, 2);
    let d3 = read_digit(s, 3);
    let m0 = read_digit(s, 5);
    let m1 = read_digit(s, 6);
    let a0 = read_digit(s, 8);
    let a1 = read_digit(s, 9);
    if s.get_char(4) != '-' || s.get_char(7) != '-' {
        return None;
    }
    match (d0, d1, d2, d3, m0, m1, a0, a1) {
        (
            Some(y0),
            Some(y1),
            Some(y2),
            Some(y3),
            Some(mo0),
            Some(mo1),
            Some(dy0),
            Some(dy1),
        ) => {
            let date = Date {
                year: y0 as i32 * 1000 + y1 as i32 * 100 + y2 as i32 * 10 + y3 as i32,
                month: mo0 * 10 + mo1,
                day: dy0 * 10 + dy1,
            };
            if date.is_valid() {
                Some(date)
            } else {
                None
            }
        },
        _ => None,
    }
}

/// The digit at character position `i`, if there is one there.
fn read_digit(s: &str, i: usize) -> (r: Option<u8>)
    requires
        i < s@.len(),
    ensures
        r is Some <==> is_digit(s@[i as int]),
        r is Some ==> r->0 == digit_val(s@[i as int]) && r->0 < 10,
{
    let c = s.get_char(i);
    let v = c as u32;
    if 48 <= v && v <= 57 {
        Some((v - 48) as u8)
    } else {
        None
    }
}

/// The ten-character `YYYY-MM-DD` text of a date.
pub open spec fn date_text(d: Date) -> Seq<char> {
    seq![
        digit_char(d.year as int / 1000 % 10),
        digit_char(d.year as int / 100 % 10),
        digit_char(d.year as int / 10 % 10),
        digit_char(d.year as int % 10),
        '-',
        digit_char(d.month as int / 10),
        digit_char(d.month as int % 10),
        '-',
        digit_char(d.day as int / 10),
        digit_char(d.day as int % 10),
    ]
}

/// Writes a date in the `YYYY-MM-DD` form.
pub fn format_date(d: &Date) -> (r: String)
    requires
        d.wf(),
    ensures
        r@ == date_text(*d),
{
    let mut out = String::new();
    push_digit(&mut out, (d.year / 1000 % 10) as u8);
    push_digit(&mut out, (d.year / 100 % 10) as u8);
    push_digit(&mut out, (d.year / 10 % 10) as u8);
    push_digit(&mut out, (d.year % 10) as u8);
    push_char(&mut out, '-');
    push_digit(&mut out, d.month / 10);
    push_digit(&mut out, d.month % 10);
    push_char(&mut out, '-');
    push_digit(&mut out, d.day / 10);
    push_digit(&mut out, d.day % 10);
    proof {
        assert(out@ =~= date_text(*d));
    }
    out
}

/// The civil date that the upstream provider's epoch-millisecond timestamps
/// name, as the date-time library computes it. The value depends on the
/// timestamp alone; it is absent when the timestamp lies outside the
/// library's representable range.
pub uninterp spec fn millis_date(ms: int) -> Option<Date>;

/// Relies on chrono's DateTime::from_timestamp_millis and date_naive: the
/// UTC civil date of an epoch-millisecond timestamp, None when the
/// timestamp is out of the representable range.
#[verifier::external_body]
pub(crate) fn date_of_timestamp_millis(ms: i64) -> (r: Option<Date>)
    ensures
        r == millis_date(ms as int),
{
    chrono::DateTime::<chrono::Utc>::from_timestamp_millis(ms).map(
        |dt| {
            let d = dt.date_naive();
            Date { year: d.year(), month: d.month() as u8, day: d.day() as u8 }
        },
    )
}

/// The `YYYY-MM-DD` text for an epoch-millisecond timestamp. Absent when
/// the timestamp is out of the date-time library's range, or when its civil
/// date falls outside the four-digit years this tool writes.
pub fn timestamp_to_date(timestamp: i64) -> (r: Option<String>)
    ensures
        r is Some <==> (millis_date(timestamp as int) is Some && millis_date(
            timestamp as int,
        )->0.wf()),
        r is Some ==> r->0@ == date_text(millis_date(timestamp as int)->0),
{
    match date_of_timestamp_millis(timestamp) {
        Some(d) => {
            if d.is_valid() {
                Some(format_date(&d))
            } else {
                None
            }
        },
        None => None,
    }
}

/// Relies on chrono's Local::now, date_naive, NaiveDate::from_ymd_opt and
/// signed_duration_since: the number of whole days from `date` to the local
/// calendar date of the clock. The result depends on the clock, so nothing
/// further is promised of it.
#[verifier::external_body]
pub(crate) fn days_since(date: &Date) -> i64
    requires
        date.wf(),
{
    let today: chrono::NaiveDate = chrono::Local::now().date_naive();
    let d = chrono::NaiveDate::from_ymd_opt(date.year, date.month as u32, date.day as u32)
        .unwrap();
    today.signed_duration_since(d).num_days()
}

} // verus!
