//! The identifier builder: an 11-digit string assembled from a birth date's
//! digit pairs, four random fill digits, and the weighted checksum digit.

use vstd::prelude::*;
use crate::checksum::{checksum_val, get_control_number, lemma_checksum_in_range};
use crate::date::{date_parse, day_upper, Date, DateError};
use crate::digits::{
    all_digits, digit_char, digit_str, is_digit_char, lemma_digit_char_val,
    lemma_two_digit_pair_digits, push_two_digits, two_digit_pair,
};
use crate::rng::rng_digits;

verus! {

/// Why an identifier could not be built from a date string.
#[derive(Debug, Clone, Copy, PartialEq, Eq, Structural)]
pub enum PeselError {
    /// The date string did not parse.
    InvalidDateFormat(DateError),
    /// The parsed date cannot be encoded as digit pairs: the year is not
    /// four digits long, or day or month is out of the two-digit range.
    DateOutOfRange,
}

/// An 11-digit identifier together with the birth date it encodes.
#[derive(Debug)]
pub struct PeselNumber {
    pub value: String,
    pub birth_date: Date,
}

/// The dates the builder can encode: a four-digit year, a day that renders
/// as at most two digits, and a month that still renders as two digits after
/// the `+20` century shift applied from 2000 on.
pub open spec fn date_encodable(d: Date) -> bool {
    &&& 1000 <= d.year <= 9999
    &&& 0 <= d.day <= 99
    &&& 0 <= d.month
    &&& (d.year >= 2000 ==> d.month <= 79)
    &&& (d.year < 2000 ==> d.month <= 99)
}

/// The month pair: the month shifted by `+20` from year 2000 on (the
/// century encoding), zero-padded to two digits.
pub open spec fn month_pair(month: int, year: int) -> Seq<char> {
    if year >= 2000 {
        two_digit_pair(month + 20)
    } else {
        two_digit_pair(month)
    }
}

/// The six leading digits of an identifier: the year's last two digits, the
/// century-shifted month pair, and the day pair.
pub open spec fn pesel_prefix(d: Date) -> Seq<char> {
    two_digit_pair((d.year as int) % 100) + month_pair(d.month as int, d.year as int)
        + two_digit_pair(d.day as int)
}

/// The ten digits an identifier's checksum is computed over: the date prefix
/// followed by the four fill digits.
pub open spec fn pesel_body(d: Date, fill: Seq<char>) -> Seq<char> {
    pesel_prefix(d) + fill
}

/// The full identifier for a date and a choice of fill digits: the ten-digit
/// body followed by its checksum digit.
pub open spec fn pesel_with_fill(d: Date, fill: Seq<char>) -> Seq<char> {
    pesel_body(d, fill) + seq![digit_char(checksum_val(pesel_body(d, fill)))]
}

/// A well-formed identifier: exactly eleven digit characters, whose first
/// six encode its birth date and whose last digit is the checksum of the
/// ten before it.
pub open spec fn pesel_wf(p: PeselNumber) -> bool {
    &&& p.value@.len() == 11
    &&& all_digits(p.value@)
    &&& p.value@.subrange(0, 6) == pesel_prefix(p.birth_date)
    &&& p.value@[10] == digit_char(checksum_val(p.value@.take(10)))
    &&& date_encodable(p.birth_date)
}

/// Whether the digit-pair encoding holds for a date: the executable test
/// for `date_encodable`.
pub fn is_encodable(d: &Date) -> (r: bool)
    ensures
        r == date_encodable(*d),
{
    1000 <= d.year && d.year <= 9999 && 0 <= d.day && d.day <= 99 && 0 <= d.month && (
    if d.year >= 2000 {
        d.month <= 79
    } else {
        d.month <= 99
    })
}

/// An identifier built with a given fill is well formed.
pub proof fn lemma_pesel_with_fill_wf(d: Date, fill: Seq<char>)
    requires
        date_encodable(d),
        fill.len() == 4,
        all_digits(fill),
    ensures
        pesel_with_fill(d, fill).len() == 11,
        all_digits(pesel_with_fill(d, fill)),
        pesel_with_fill(d, fill).subrange(0, 6) == pesel_prefix(d),
        pesel_with_fill(d, fill)[10] == digit_char(
            checksum_val(pesel_with_fill(d, fill).take(10)),
        ),
{
    let body = pesel_body(d, fill);
    let full = pesel_with_fill(d, fill);
    lemma_two_digit_pair_digits((d.year as int) % 100);
    if d.year >= 2000 {
        lemma_two_digit_pair_digits(d.month as int + 20);
    } else {
        lemma_two_digit_pair_digits(d.month as int);
    }
    lemma_two_digit_pair_digits(d.day as int);
    lemma_checksum_in_range(body);
    lemma_digit_char_val(checksum_val(body));
    assert(full.take(10) =~= body);
    assert(full.subrange(0, 6) =~= pesel_prefix(d));
    assert forall|i: int| 0 <= i < full.len() implies is_digit_char(full[i]) by {
        if i < 2 {
            assert(full[i] == two_digit_pair((d.year as int) % 100)[i]);
        } else if i < 4 {
            assert(full[i] == month_pair(d.month as int, d.year as int)[i - 2]);
        } else if i < 6 {
            assert(full[i] == two_digit_pair(d.day as int)[i - 4]);
        } else if i < 10 {
            assert(full[i] == fill[i - 6]);
        } else {
            assert(full[i] == digit_char(checksum_val(body)));
        }
    }
}

impl PeselNumber {
    /// An identifier for a random date: month in `[1, 12)`, year in
    /// `[year_min, year_max)`, day within the month's (simplified) bounds,
    /// with random fill digits and a valid checksum.
    pub fn rand(year_min: i32, year_max: i32) -> (r: Self)
        requires
            1000 <= year_min < year_max <= 10000,
        ensures
            pesel_wf(r),
            1 <= r.birth_date.month < 12,
            year_min <= r.birth_date.year < year_max,
            1 <= r.birth_date.day < day_upper(r.birth_date.month as int, r.birth_date.year as int),
    {
        let birthdate = Date::random(year_min, year_max);
        PeselNumber { value: Self::construct_pesel(birthdate), birth_date: birthdate }
    }

    /// An identifier for the date parsed from `date_str`; the fill digits
    /// (and so the identifier) still differ from call to call. Fails on a
    /// string that does not parse, and on a parsed date the digit-pair
    /// encoding cannot hold.
    pub fn from_date(date_str: &str) -> (r: Result<Self, PeselError>)
        ensures
            ({
                match date_parse(date_str@) {
                    Err(e) => r == Err::<PeselNumber, PeselError>(PeselError::InvalidDateFormat(e)),
                    Ok(d) => {
                        if date_encodable(d) {
                            &&& r is Ok
                            &&& pesel_wf(r->Ok_0)
                            &&& r->Ok_0.birth_date == d
                        } else {
                            r == Err::<PeselNumber, PeselError>(PeselError::DateOutOfRange)
                        }
                    },
                }
            }),
    {
        let birthdate = match Date::parse(date_str) {
            Ok(d) => d,
            Err(e) => {
                return Err(PeselError::InvalidDateFormat(e));
            },
        };
        if !is_encodable(&birthdate) {
            return Err(PeselError::DateOutOfRange);
        }
        Ok(PeselNumber { value: Self::construct_pesel(birthdate), birth_date: birthdate })
    }

    /// The identifier string for a date, with freshly drawn fill digits:
    /// eleven digits whose first six encode the date and whose last is the
    /// checksum of the ten before it.
    pub fn construct_pesel(birthdate: Date) -> (r: String)
        requires
            date_encodable(birthdate),
        ensures
            r@.len() == 11,
            all_digits(r@),
            r@.subrange(0, 6) == pesel_prefix(birthdate),
            r@[10] == digit_char(checksum_val(r@.take(10))),
    {
        let fill = rng_digits(4);
        let r = Self::construct_with_fill(&birthdate, fill.as_str());
        proof {
            lemma_pesel_with_fill_wf(birthdate, fill@);
        }
        r
    }

    /// The identifier string for a date and given fill digits: the date's
    /// digit pairs, the fill, and the checksum digit of those ten.
    pub fn construct_with_fill(birthdate: &Date, fill: &str) -> (r: String)
        requires
            date_encodable(*birthdate),
            fill@.len() == 4,
            all_digits(fill@),
        ensures
            r@ == pesel_with_fill(*birthdate, fill@),
    {
        let mut body = String::new();
        push_two_digits(&mut body, birthdate.year % 100);
        if birthdate.year >= 2000 {
            push_two_digits(&mut body, birthdate.month + 20);
        } else {
            push_two_digits(&mut body, birthdate.month);
        }
        push_two_digits(&mut body, birthdate.day);
        body.append(fill);
        proof {
            assert(body@ =~= pesel_body(*birthdate, fill@));
            lemma_pesel_with_fill_wf(*birthdate, fill@);
            assert(all_digits(pesel_with_fill(*birthdate, fill@)));
            assert forall|i: int| 0 <= i < body@.len() implies is_digit_char(body@[i]) by {
                assert(body@[i] == pesel_with_fill(*birthdate, fill@)[i]);
            }
        }
        let control = get_control_number(body.clone());
        let mut out = body;
        out.append(digit_str(control as u8));
        proof {
            assert(out@ =~= pesel_with_fill(*birthdate, fill@));
        }
        out
    }

    /// The identifier rendered as text: its raw digit string.
    pub fn display_string(&self) -> (r: String)
        ensures
            r@ == self.value@,
    {
        self.value.clone()
    }
}

} // verus!
