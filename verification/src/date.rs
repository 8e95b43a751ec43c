//! Calendar dates: construction, parsing from `D-M-Y` strings, random
//! generation within a year range, and `DD-MM-YYYY` rendering.

use vstd::prelude::*;
use crate::digits::{
    dec_digits, dec_string, dec_val, is_digit_char, lemma_dec_digits_val,
    lemma_two_digit_pair_digits, parse_segment, push_two_digits, seg_numeric, two_digit_pair,
};
use crate::rng::rand_range;

verus! {

/// Least generated year of a randomly drawn date's default range.
pub const YEAR_MIN: i32 = 1900;

/// Exclusive upper bound of a randomly drawn date's default year range.
pub const YEAR_MAX: i32 = 2100;

/// Why a date string failed to parse: too few `-`-separated segments, or a
/// segment that is not a plain decimal number.
#[derive(Debug, Clone, Copy, PartialEq, Eq, Structural)]
pub enum DateError {
    SegmentCountMismatch,
    NonNumericSegment,
}

/// A calendar date. Construction performs no validation; the identifier
/// builder states the bounds it needs as preconditions.
#[derive(Debug, Clone, Copy, PartialEq, Eq, Structural)]
pub struct Date {
    pub day: i32,
    pub month: i32,
    pub year: i32,
}

/// The position of the first `'-'` in `s` at or after `i`, or `s.len()` if
/// there is none.
pub open spec fn first_dash_from(s: Seq<char>, i: int) -> int
    decreases s.len() - i,
{
    if i < 0 || i >= s.len() {
        s.len() as int
    } else if s[i] == '-' {
        i
    } else {
        first_dash_from(s, i + 1)
    }
}

/// What parsing a date string yields: the first three `-`-separated segments
/// read as day, month and year. A non-numeric (empty, non-digit, or
/// `i32`-overflowing) segment is reported as soon as it is read; a missing
/// second or third segment is reported after the segments before it parsed.
pub open spec fn date_parse(s: Seq<char>) -> Result<Date, DateError> {
    let n = s.len() as int;
    let d1 = first_dash_from(s, 0);
    let seg1 = s.subrange(0, d1);
    if !seg_numeric(seg1) {
        Err(DateError::NonNumericSegment)
    } else if d1 >= n {
        Err(DateError::SegmentCountMismatch)
    } else {
        let d2 = first_dash_from(s, d1 + 1);
        let seg2 = s.subrange(d1 + 1, d2);
        if !seg_numeric(seg2) {
            Err(DateError::NonNumericSegment)
        } else if d2 >= n {
            Err(DateError::SegmentCountMismatch)
        } else {
            let d3 = first_dash_from(s, d2 + 1);
            let seg3 = s.subrange(d2 + 1, d3);
            if !seg_numeric(seg3) {
                Err(DateError::NonNumericSegment)
            } else {
                Ok(
                    Date {
                        day: dec_val(seg1) as i32,
                        month: dec_val(seg2) as i32,
                        year: dec_val(seg3) as i32,
                    },
                )
            }
        }
    }
}

/// The exclusive upper bound on the day drawn for a given month and year:
/// February gets 29 in a (simplified, divisible-by-four) leap year and 28
/// otherwise; before August even months get 30 and odd 31; from August on
/// even months get 31 and odd 30.
pub open spec fn day_upper(month: int, year: int) -> int {
    if month == 2 {
        if year % 4 == 0 {
            29
        } else {
            28
        }
    } else if month < 8 {
        if month % 2 == 0 {
            30
        } else {
            31
        }
    } else {
        if month % 2 == 0 {
            31
        } else {
            30
        }
    }
}

/// The `DD-MM-YYYY` rendering of a date: day and month zero-padded to two
/// digits, year without padding.
pub open spec fn date_display(d: Date) -> Seq<char> {
    two_digit_pair(d.day as int) + seq!['-'] + two_digit_pair(d.month as int) + seq!['-']
        + dec_digits(d.year as int)
}

/// Where the characters from `i` up to `j` are not dashes and `j` is a dash
/// or the end, the first dash at or after `i` is at `j`.
proof fn lemma_first_dash_at(s: Seq<char>, i: int, j: int)
    requires
        0 <= i <= j <= s.len(),
        forall|k: int| i <= k < j ==> s[k] != '-',
        j == s.len() || s[j] == '-',
    ensures
        first_dash_from(s, i) == j,
    decreases j - i,
{
    if i < j {
        lemma_first_dash_at(s, i + 1, j);
    }
}

/// Rendering a date as `DD-MM-YYYY` and parsing the rendering back yields
/// the date again, for every date the renderer accepts.
pub proof fn lemma_display_parse_roundtrip(d: Date)
    requires
        0 <= d.day <= 99,
        0 <= d.month <= 99,
        d.year >= 0,
    ensures
        date_parse(date_display(d)) == Ok::<Date, DateError>(d),
{
    let s = date_display(d);
    let dayp = two_digit_pair(d.day as int);
    let monthp = two_digit_pair(d.month as int);
    let yearp = dec_digits(d.year as int);
    lemma_two_digit_pair_digits(d.day as int);
    lemma_two_digit_pair_digits(d.month as int);
    lemma_dec_digits_val(d.year as int);
    assert(s.len() == 6 + yearp.len());
    assert forall|k: int| 0 <= k < s.len() && k != 2 && k != 5 implies s[k] != '-' by {
        if k < 2 {
            assert(s[k] == dayp[k] && is_digit_char(dayp[k]));
        } else if k < 5 {
            assert(s[k] == monthp[k - 3] && is_digit_char(monthp[k - 3]));
        } else {
            assert(s[k] == yearp[k - 6] && is_digit_char(yearp[k - 6]));
        }
    }
    assert(s[2] == '-' && s[5] == '-');
    lemma_first_dash_at(s, 0, 2);
    lemma_first_dash_at(s, 3, 5);
    lemma_first_dash_at(s, 6, s.len() as int);
    assert(s.subrange(0, 2) =~= dayp);
    assert(s.subrange(3, 5) =~= monthp);
    assert(s.subrange(6, s.len() as int) =~= yearp);
}

/// The first `'-'` of `s` at or after `start`, or the length if none.
fn find_dash_from(s: &str, start: usize, n: usize) -> (r: usize)
    requires
        n == s@.len(),
        start <= n,
    ensures
        r == first_dash_from(s@, start as int),
        start <= r <= n,
{
    let mut i: usize = start;
    while i < n && s.get_char(i) != '-'
        invariant
            start <= i <= n,
            n == s@.len(),
            first_dash_from(s@, start as int) == first_dash_from(s@, i as int),
        decreases n - i,
    {
        i = i + 1;
    }
    i
}

impl Date {
    /// A date with the given fields, exactly as given: no validation.
    pub fn new(day: i32, month: i32, year: i32) -> (r: Self)
        ensures
            r == (Date { day, month, year }),
    {
        Date { day, month, year }
    }

    /// Parse a `D-M-Y` date string: the first three `-`-separated segments,
    /// each a plain decimal number, read as day, month and year; anything
    /// after the third segment is ignored.
    pub fn parse(s: &str) -> (r: Result<Date, DateError>)
        ensures
            r == date_parse(s@),
    {
        let n = s.unicode_len();
        let d1 = find_dash_from(s, 0, n);
        let day = match parse_segment(s, 0, d1) {
            Some(v) => v,
            None => {
                return Err(DateError::NonNumericSegment);
            },
        };
        if d1 == n {
            return Err(DateError::SegmentCountMismatch);
        }
        let d2 = find_dash_from(s, d1 + 1, n);
        let month = match parse_segment(s, d1 + 1, d2) {
            Some(v) => v,
            None => {
                return Err(DateError::NonNumericSegment);
            },
        };
        if d2 == n {
            return Err(DateError::SegmentCountMismatch);
        }
        let d3 = find_dash_from(s, d2 + 1, n);
        let year = match parse_segment(s, d2 + 1, d3) {
            Some(v) => v,
            None => {
                return Err(DateError::NonNumericSegment);
            },
        };
        Ok(Date { day, month, year })
    }

    /// A structurally plausible random date: month in `[1, 12)` (December is
    /// never drawn), year in `[year_min, year_max)`, and day in
    /// `[1, day_upper(month, year))` — in particular, February never gets a
    /// day beyond 28 in a (divisible-by-four) leap year, nor beyond 27
    /// otherwise.
    pub fn random(year_min: i32, year_max: i32) -> (r: Self)
        requires
            year_min < year_max,
        ensures
            1 <= r.month < 12,
            year_min <= r.year < year_max,
            1 <= r.day < day_upper(r.month as int, r.year as int),
    {
        let month = rand_range(1, 12);
        let year = rand_range(year_min, year_max);
        let day = if month == 2 {
            if year % 4 == 0 {
                rand_range(1, 29)
            } else {
                rand_range(1, 28)
            }
        } else if month < 8 {
            if month % 2 == 0 {
                rand_range(1, 30)
            } else {
                rand_range(1, 31)
            }
        } else {
            if month % 2 == 0 {
                rand_range(1, 31)
            } else {
                rand_range(1, 30)
            }
        };
        Date { day, month, year }
    }

    /// The `DD-MM-YYYY` rendering: day and month zero-padded to two digits,
    /// year without padding.
    pub fn display_string(&self) -> (r: String)
        requires
            0 <= self.day <= 99,
            0 <= self.month <= 99,
            self.year >= 0,
        ensures
            r@ == date_display(*self),
    {
        proof {
            reveal_strlit("-");
        }
        let mut out = String::new();
        push_two_digits(&mut out, self.day);
        out.append("-");
        push_two_digits(&mut out, self.month);
        out.append("-");
        let year_str = dec_string(self.year as u32);
        out.append(year_str.as_str());
        proof {
            assert(out@ =~= date_display(*self));
        }
        out
    }
}

} // verus!
