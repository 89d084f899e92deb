//! The date and time that a header shows, read from the local clock.

use vstd::prelude::*;

verus! {

/// chrono's `NaiveDateTime`, a date and time without a time zone. Nothing of
/// what it holds is visible here; it is only handed on.
#[verifier::external_type_specification]
#[verifier::external_body]
pub struct ExNaiveDateTime(chrono::NaiveDateTime);

/// The date, time and year of one moment, as the texts that a header shows.
#[derive(Debug)]
pub struct Stamp {
    pub date: String,
    pub time: String,
    pub year: String,
}

/// A stamp as a mathematical value.
pub struct StampView {
    pub date: Seq<char>,
    pub time: Seq<char>,
    pub year: Seq<char>,
}

impl View for Stamp {
    type V = StampView;

    open spec fn view(&self) -> StampView {
        StampView { date: self.date@, time: self.time@, year: self.year@ }
    }
}

/// Whether `c` is one of the digits `0` to `9`.
pub open spec fn is_digit(c: char) -> bool {
    '0' <= c <= '9'
}

/// Whether `s` holds digits only.
pub open spec fn is_digits(s: Seq<char>) -> bool {
    forall|i: int| 0 <= i < s.len() ==> is_digit(#[trigger] s[i])
}

/// A year as a text: four digits, or a sign and at least four digits.
pub open spec fn is_year_text(s: Seq<char>) -> bool {
    ||| s.len() == 4 && is_digits(s)
    ||| s.len() >= 5 && (s[0] == '+' || s[0] == '-') && is_digits(s.skip(1))
}

/// A date as a text: a year, a month of two digits and a day of two digits,
/// with `-` between them.
pub open spec fn is_date_text(s: Seq<char>) -> bool {
    let n = s.len() as int;
    &&& n >= 10
    &&& is_year_text(s.take(n - 6))
    &&& s[n - 6] == '-'
    &&& is_digit(s[n - 5])
    &&& is_digit(s[n - 4])
    &&& s[n - 3] == '-'
    &&& is_digit(s[n - 2])
    &&& is_digit(s[n - 1])
}

/// A time of day as a text: hour, minute and second of two digits each, with
/// `:` between them.
pub open spec fn is_time_text(s: Seq<char>) -> bool {
    &&& s.len() == 8
    &&& is_digit(s[0])
    &&& is_digit(s[1])
    &&& s[2] == ':'
    &&& is_digit(s[3])
    &&& is_digit(s[4])
    &&& s[5] == ':'
    &&& is_digit(s[6])
    &&& is_digit(s[7])
}

impl StampView {
    /// Whether the three texts have the form of a date, a time and a year.
    pub open spec fn is_calendar(self) -> bool {
        &&& is_date_text(self.date)
        &&& is_time_text(self.time)
        &&& is_year_text(self.year)
    }
}

/// chrono's `Local::now`, taken as the date and time that the local clock
/// shows: the result of `DateTime::naive_local` on it. Nothing is known of the
/// moment that comes back. chrono panics where the system clock stands before
/// 1970, or so far off that the local time cannot be held.
#[verifier::external_body]
fn local_now() -> (now: chrono::NaiveDateTime) {
    chrono::Local::now().naive_local()
}

/// chrono's `NaiveDateTime::format`, written out as a `String`, for the three
/// patterns that never fail. chrono writes `%Y` as four digits, or as a sign
/// and at least four digits for a year below 0 or above 9999; it writes `%m`,
/// `%d`, `%H`, `%M` and `%S` as two digits each, and every other character of
/// these patterns as it stands.
#[verifier::external_body]
fn format_moment(now: &chrono::NaiveDateTime, pattern: &str) -> (text: String)
    requires
        pattern@ == "%Y-%m-%d"@ || pattern@ == "%H:%M:%S"@ || pattern@ == "%Y"@,
    ensures
        pattern@ == "%Y-%m-%d"@ ==> is_date_text(text@),
        pattern@ == "%H:%M:%S"@ ==> is_time_text(text@),
        pattern@ == "%Y"@ ==> is_year_text(text@),
{
    now.format(pattern).to_string()
}

impl Stamp {
    /// The stamp of the present moment by the local clock. Date, time and year
    /// are those of one reading of the clock.
    pub fn now() -> (stamp: Stamp)
        ensures
            stamp@.is_calendar(),
    {
        let now = local_now();
        Stamp {
            date: format_moment(&now, "%Y-%m-%d"),
            time: format_moment(&now, "%H:%M:%S"),
            year: format_moment(&now, "%Y"),
        }
    }
}

} // verus!
