//! Calendar dates as the portal renders them: a day, a three-letter month
//! abbreviation and a four-digit year, as in `05-Jan-2024`.

use vstd::prelude::*;

verus! {

/// A calendar date with no time component.
#[derive(Clone, Copy, Debug, PartialEq, Eq, Structural)]
pub struct Date {
    pub year: u32,
    pub month: u32,
    pub day: u32,
}

pub open spec fn is_leap_year(year: u32) -> bool {
    (year % 4 == 0 && year % 100 != 0) || year % 400 == 0
}

pub open spec fn days_in_month(year: u32, month: u32) -> u32 {
    if month == 2 {
        if is_leap_year(year) {
            29
        } else {
            28
        }
    } else if month == 4 || month == 6 || month == 9 || month == 11 {
        30
    } else {
        31
    }
}

/// A valid calendar date within the four-digit years the page format covers.
pub open spec fn date_valid(d: Date) -> bool {
    &&& d.year <= 9999
    &&& 1 <= d.month <= 12
    &&& 1 <= d.day <= days_in_month(d.year, d.month)
}

/// `a` is on or before `b`: lexicographic on year, month, day.
pub open spec fn date_le(a: Date, b: Date) -> bool {
    if a.year != b.year {
        a.year < b.year
    } else if a.month != b.month {
        a.month < b.month
    } else {
        a.day <= b.day
    }
}

/// `date_le` is a total order, so sorting by it is well defined.
pub proof fn lemma_date_le_total(a: Date, b: Date)
    ensures
        date_le(a, b) || date_le(b, a),
        date_le(a, b) && date_le(b, a) ==> a == b,
{
}

pub proof fn lemma_date_le_transitive(a: Date, b: Date, c: Date)
    ensures
        date_le(a, b) && date_le(b, c) ==> date_le(a, c),
{
}

pub open spec fn is_digit(c: char) -> bool {
    '0' <= c && c <= '9'
}

pub open spec fn digit(c: char) -> int {
    c as int - '0' as int
}

/// `c` equals the lowercase ASCII letter `l`, ignoring ASCII case.
pub open spec fn ci_eq(c: char, l: char) -> bool {
    c == l || c as int + 32 == l as int
}

/// The month number named by a three-letter abbreviation, ignoring ASCII
/// case, or `None` if the letters name no month.
pub open spec fn month_abbrev_number(a: char, b: char, c: char) -> Option<u32> {
    if ci_eq(a, 'j') && ci_eq(b, 'a') && ci_eq(c, 'n') {
        Some(1u32)
    } else if ci_eq(a, 'f') && ci_eq(b, 'e') && ci_eq(c, 'b') {
        Some(2u32)
    } else if ci_eq(a, 'm') && ci_eq(b, 'a') && ci_eq(c, 'r') {
        Some(3u32)
    } else if ci_eq(a, 'a') && ci_eq(b, 'p') && ci_eq(c, 'r') {
        Some(4u32)
    } else if ci_eq(a, 'm') && ci_eq(b, 'a') && ci_eq(c, 'y') {
        Some(5u32)
    } else if ci_eq(a, 'j') && ci_eq(b, 'u') && ci_eq(c, 'n') {
        Some(6u32)
    } else if ci_eq(a, 'j') && ci_eq(b, 'u') && ci_eq(c, 'l') {
        Some(7u32)
    } else if ci_eq(a, 'a') && ci_eq(b, 'u') && ci_eq(c, 'g') {
        Some(8u32)
    } else if ci_eq(a, 's') && ci_eq(b, 'e') && ci_eq(c, 'p') {
        Some(9u32)
    } else if ci_eq(a, 'o') && ci_eq(b, 'c') && ci_eq(c, 't') {
        Some(10u32)
    } else if ci_eq(a, 'n') && ci_eq(b, 'o') && ci_eq(c, 'v') {
        Some(11u32)
    } else if ci_eq(a, 'd') && ci_eq(b, 'e') && ci_eq(c, 'c') {
        Some(12u32)
    } else {
        None
    }
}

/// The shape of the page's date text: a one- or two-digit day, a
/// three-letter month abbreviation and a four-digit year, joined by `-`.
/// Calendar validity is checked separately by `spec_parse_date`.
pub open spec fn spec_date_shape(s: Seq<char>) -> Option<Date> {
    if s.len() == 11 && is_digit(s[0]) && is_digit(s[1]) && s[2] == '-' && s[6] == '-'
        && is_digit(s[7]) && is_digit(s[8]) && is_digit(s[9]) && is_digit(s[10]) {
        match month_abbrev_number(s[3], s[4], s[5]) {
            Some(m) => Some(
                Date {
                    year: (1000 * digit(s[7]) + 100 * digit(s[8]) + 10 * digit(s[9]) + digit(
                        s[10],
                    )) as u32,
                    month: m,
                    day: (10 * digit(s[0]) + digit(s[1])) as u32,
                },
            ),
            None => None,
        }
    } else if s.len() == 10 && is_digit(s[0]) && s[1] == '-' && s[5] == '-' && is_digit(s[6])
        && is_digit(s[7]) && is_digit(s[8]) && is_digit(s[9]) {
        match month_abbrev_number(s[2], s[3], s[4]) {
            Some(m) => Some(
                Date {
                    year: (1000 * digit(s[6]) + 100 * digit(s[7]) + 10 * digit(s[8]) + digit(
                        s[9],
                    )) as u32,
                    month: m,
                    day: digit(s[0]) as u32,
                },
            ),
            None => None,
        }
    } else {
        None
    }
}

/// What `Date::parse` returns: the date written in the fixed textual
/// format, provided it is a valid calendar date.
pub open spec fn spec_parse_date(s: Seq<char>) -> Option<Date> {
    match spec_date_shape(s) {
        Some(d) => if date_valid(d) {
            Some(d)
        } else {
            None
        },
        None => None,
    }
}

fn is_digit_exec(c: char) -> (r: bool)
    ensures
        r == is_digit(c),
{
    let u: u32 = c as u32;
    48 <= u && u <= 57
}

fn digit_exec(c: char) -> (r: u32)
    requires
        is_digit(c),
    ensures
        r == digit(c),
{
    c as u32 - 48
}

fn ci_eq_exec(c: char, l: char) -> (r: bool)
    ensures
        r == ci_eq(c, l),
{
    c == l || (c as u32) + 32 == (l as u32)
}

fn month_from_chars(a: char, b: char, c: char) -> (r: Option<u32>)
    ensures
        r == month_abbrev_number(a, b, c),
{
    if ci_eq_exec(a, 'j') && ci_eq_exec(b, 'a') && ci_eq_exec(c, 'n') {
        Some(1u32)
    } else if ci_eq_exec(a, 'f') && ci_eq_exec(b, 'e') && ci_eq_exec(c, 'b') {
        Some(2u32)
    } else if ci_eq_exec(a, 'm') && ci_eq_exec(b, 'a') && ci_eq_exec(c, 'r') {
        Some(3u32)
    } else if ci_eq_exec(a, 'a') && ci_eq_exec(b, 'p') && ci_eq_exec(c, 'r') {
        Some(4u32)
    } else if ci_eq_exec(a, 'm') && ci_eq_exec(b, 'a') && ci_eq_exec(c, 'y') {
        Some(5u32)
    } else if ci_eq_exec(a, 'j') && ci_eq_exec(b, 'u') && ci_eq_exec(c, 'n') {
        Some(6u32)
    } else if ci_eq_exec(a, 'j') && ci_eq_exec(b, 'u') && ci_eq_exec(c, 'l') {
        Some(7u32)
    } else if ci_eq_exec(a, 'a') && ci_eq_exec(b, 'u') && ci_eq_exec(c, 'g') {
        Some(8u32)
    } else if ci_eq_exec(a, 's') && ci_eq_exec(b, 'e') && ci_eq_exec(c, 'p') {
        Some(9u32)
    } else if ci_eq_exec(a, 'o') && ci_eq_exec(b, 'c') && ci_eq_exec(c, 't') {
        Some(10u32)
    } else if ci_eq_exec(a, 'n') && ci_eq_exec(b, 'o') && ci_eq_exec(c, 'v') {
        Some(11u32)
    } else if ci_eq_exec(a, 'd') && ci_eq_exec(b, 'e') && ci_eq_exec(c, 'c') {
        Some(12u32)
    } else {
        None
    }
}

fn month_length(year: u32, month: u32) -> (r: u32)
    ensures
        r == days_in_month(year, month),
{
    if month == 2 {
        if (year % 4 == 0 && year % 100 != 0) || year % 400 == 0 {
            29
        } else {
            28
        }
    } else if month == 4 || month == 6 || month == 9 || month == 11 {
        30
    } else {
        31
    }
}

/// Relies on chrono: `Local::now().date_naive()` with the `Datelike`
/// year, month and day accessors. The result depends on the clock, so
/// nothing is assumed of it beyond the ranges chrono documents for month
/// (1 to 12) and day (1 to 31).
#[verifier::external_body]
fn now_ymd() -> (r: (i32, u32, u32))
    ensures
        1 <= r.1 <= 12,
        1 <= r.2 <= 31,
{
    let d = chrono::Local::now().date_naive();
    (chrono::Datelike::year(&d), chrono::Datelike::month(&d), chrono::Datelike::day(&d))
}

/// The local calendar date, clamped into this library's model: a year
/// outside the four-digit range saturates, as does a day count past the
/// month's length. Whatever the clock reported, the result is a valid
/// date, which is all that filtering a listing against today relies on.
pub fn today() -> (d: Date)
    ensures
        date_valid(d),
{
    let (y, m, day_raw) = now_ymd();
    let year: u32 = if y < 0 {
        0
    } else if y > 9999 {
        9999
    } else {
        y as u32
    };
    let ml = month_length(year, m);
    let day: u32 = if day_raw > ml {
        ml
    } else {
        day_raw
    };
    Date { year, month: m, day }
}

impl Date {
    /// Whether this is a valid calendar date.
    pub fn valid(&self) -> (r: bool)
        ensures
            r == date_valid(*self),
    {
        self.year <= 9999 && 1 <= self.month && self.month <= 12 && 1 <= self.day && self.day
            <= month_length(self.year, self.month)
    }

    /// `self` is on or before `other`.
    pub fn on_or_before(&self, other: &Date) -> (r: bool)
        ensures
            r == date_le(*self, *other),
    {
        if self.year != other.year {
            self.year < other.year
        } else if self.month != other.month {
            self.month < other.month
        } else {
            self.day <= other.day
        }
    }

    /// Parses the fixed textual date format of the page, e.g. `05-Jan-2024`
    /// or `5-Jan-2024`, rejecting anything that is not a valid calendar
    /// date.
    pub fn parse(s: &str) -> (r: Option<Date>)
        ensures
            r == spec_parse_date(s@),
    {
        let n: usize = s.unicode_len();
        let d: Option<Date> = if n == 11 {
            let c0 = s.get_char(0);
            let c1 = s.get_char(1);
            if is_digit_exec(c0) && is_digit_exec(c1) && s.get_char(2) == '-' && s.get_char(6)
                == '-' {
                let c7 = s.get_char(7);
                let c8 = s.get_char(8);
                let c9 = s.get_char(9);
                let c10 = s.get_char(10);
                if is_digit_exec(c7) && is_digit_exec(c8) && is_digit_exec(c9) && is_digit_exec(
                    c10,
                ) {
                    match month_from_chars(s.get_char(3), s.get_char(4), s.get_char(5)) {
                        Some(m) => Some(
                            Date {
                                year: 1000 * digit_exec(c7) + 100 * digit_exec(c8) + 10
                                    * digit_exec(c9) + digit_exec(c10),
                                month: m,
                                day: 10 * digit_exec(c0) + digit_exec(c1),
                            },
                        ),
                        None => None,
                    }
                } else {
                    None
                }
            } else {
                None
            }
        } else if n == 10 {
            let c0 = s.get_char(0);
            if is_digit_exec(c0) && s.get_char(1) == '-' && s.get_char(5) == '-' {
                let c6 = s.get_char(6);
                let c7 = s.get_char(7);
                let c8 = s.get_char(8);
                let c9 = s.get_char(9);
                if is_digit_exec(c6) && is_digit_exec(c7) && is_digit_exec(c8) && is_digit_exec(
                    c9,
                ) {
                    match month_from_chars(s.get_char(2), s.get_char(3), s.get_char(4)) {
                        Some(m) => Some(
                            Date {
                                year: 1000 * digit_exec(c6) + 100 * digit_exec(c7) + 10
                                    * digit_exec(c8) + digit_exec(c9),
                                month: m,
                                day: digit_exec(c0),
                            },
                        ),
                        None => None,
                    }
                } else {
                    None
                }
            } else {
                None
            }
        } else {
            None
        };
        match d {
            Some(dd) => if dd.valid() {
                Some(dd)
            } else {
                None
            },
            None => None,
        }
    }
}

} // verus!
