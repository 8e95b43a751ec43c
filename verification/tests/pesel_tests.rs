use pesel::checksum::get_control_number;
use pesel::cli::{decide_command, usage_line, Command};
use pesel::date::{Date, DateError, YEAR_MAX, YEAR_MIN};
use pesel::identifier::{PeselError, PeselNumber};
use pesel::rng::rng_digits;

fn is_all_digits(s: &str) -> bool {
    !s.is_empty() && s.chars().all(|c| c.is_ascii_digit())
}

fn checksum_of_prefix(value: &str) -> u32 {
    get_control_number(value[0..10].to_string())
}

#[test]
fn checksum_deterministic() {
    let inputs = ["8701200000", "0526150000", "9999999999", "0000000000", "1234567890"];
    for input in inputs {
        let first = get_control_number(input.to_string());
        let second = get_control_number(input.to_string());
        assert_eq!(first, second);
        assert!(first <= 9);
    }
}

#[test]
fn checksum_example_exact() {
    assert_eq!(get_control_number("8701200000".to_string()), 0);
}

#[test]
fn checksum_zero_case() {
    // all zeros: weighted sum 0, divisible by ten, checksum 0
    assert_eq!(get_control_number("0000000000".to_string()), 0);
}

#[test]
fn identifier_length_and_digits() {
    for _ in 0..50 {
        let p = PeselNumber::rand(YEAR_MIN, YEAR_MAX);
        assert_eq!(p.value.len(), 11);
        assert!(is_all_digits(&p.value));
    }
    let p = PeselNumber::from_date("15-06-2005").unwrap();
    assert_eq!(p.value.len(), 11);
    assert!(is_all_digits(&p.value));
}

#[test]
fn identifier_checksum_consistent() {
    for _ in 0..50 {
        let p = PeselNumber::rand(YEAR_MIN, YEAR_MAX);
        let expected = checksum_of_prefix(&p.value);
        let last = p.value.chars().nth(10).unwrap().to_digit(10).unwrap();
        assert_eq!(last, expected);
    }
    let p = PeselNumber::from_date("05-03-1999").unwrap();
    let expected = checksum_of_prefix(&p.value);
    let last = p.value.chars().nth(10).unwrap().to_digit(10).unwrap();
    assert_eq!(last, expected);
}

#[test]
fn date_display_exact() {
    let d = Date { day: 5, month: 3, year: 1999 };
    assert_eq!(d.display_string(), "05-03-1999");
}

#[test]
fn date_parse_exact() {
    assert_eq!(Date::parse("05-03-1999"), Ok(Date { day: 5, month: 3, year: 1999 }));
}

#[test]
fn date_round_trip() {
    let d = Date { day: 5, month: 3, year: 1999 };
    assert_eq!(Date::parse(&d.display_string()), Ok(d));
    let d = Date { day: 29, month: 2, year: 2004 };
    assert_eq!(Date::parse(&d.display_string()), Ok(d));
}

#[test]
fn date_parse_ignores_extra_segments() {
    assert_eq!(Date::parse("1-2-2000-junk"), Ok(Date { day: 1, month: 2, year: 2000 }));
}

#[test]
fn date_parse_errors() {
    assert_eq!(Date::parse("5"), Err(DateError::SegmentCountMismatch));
    assert_eq!(Date::parse("5-3"), Err(DateError::SegmentCountMismatch));
    assert_eq!(Date::parse(""), Err(DateError::NonNumericSegment));
    assert_eq!(Date::parse("a-b-c"), Err(DateError::NonNumericSegment));
    assert_eq!(Date::parse("5-x-1999"), Err(DateError::NonNumericSegment));
    assert_eq!(Date::parse("5--1999"), Err(DateError::NonNumericSegment));
    assert_eq!(Date::parse("5-3-"), Err(DateError::NonNumericSegment));
    assert_eq!(Date::parse("99999999999-1-2000"), Err(DateError::NonNumericSegment));
}

#[test]
fn date_new_keeps_fields() {
    let d = Date::new(31, 12, 2023);
    assert_eq!(d.day, 31);
    assert_eq!(d.month, 12);
    assert_eq!(d.year, 2023);
}

#[test]
fn century_encoding_example() {
    let p = PeselNumber::from_date("15-06-2005").unwrap();
    assert_eq!(&p.value[0..4], "0526");
    assert_eq!(&p.value[4..6], "15");
    assert_eq!(p.birth_date, Date { day: 15, month: 6, year: 2005 });
}

#[test]
fn pre_2000_month_unshifted() {
    let p = PeselNumber::from_date("05-03-1999").unwrap();
    assert_eq!(&p.value[0..6], "990305");
}

#[test]
fn construct_with_fill_exact() {
    let d = Date { day: 15, month: 6, year: 2005 };
    let value = PeselNumber::construct_with_fill(&d, "0000");
    assert_eq!(value, "05261500001");
}

#[test]
fn from_date_error_variants() {
    assert_eq!(
        PeselNumber::from_date("15-06").unwrap_err(),
        PeselError::InvalidDateFormat(DateError::SegmentCountMismatch)
    );
    assert_eq!(
        PeselNumber::from_date("xx-06-2005").unwrap_err(),
        PeselError::InvalidDateFormat(DateError::NonNumericSegment)
    );
    assert_eq!(PeselNumber::from_date("15-06-0500").unwrap_err(), PeselError::DateOutOfRange);
    assert_eq!(PeselNumber::from_date("15-06-10000").unwrap_err(), PeselError::DateOutOfRange);
    assert_eq!(PeselNumber::from_date("01-99-2005").unwrap_err(), PeselError::DateOutOfRange);
    assert_eq!(PeselNumber::from_date("100-1-1999").unwrap_err(), PeselError::DateOutOfRange);
}

#[test]
fn from_date_same_date_varies_fill() {
    let p = PeselNumber::from_date("15-06-2005").unwrap();
    let q = PeselNumber::from_date("15-06-2005").unwrap();
    assert_eq!(&p.value[0..6], &q.value[0..6]);
    // the four fill digits are random; twenty tries virtually always differ
    let mut saw_difference = false;
    for _ in 0..20 {
        let r = PeselNumber::from_date("15-06-2005").unwrap();
        if r.value != p.value {
            saw_difference = true;
        }
    }
    assert!(saw_difference);
}

#[test]
fn random_date_bounds() {
    for _ in 0..200 {
        let d = Date::random(YEAR_MIN, YEAR_MAX);
        assert!((1..12).contains(&d.month));
        assert!((YEAR_MIN..YEAR_MAX).contains(&d.year));
        assert!(d.day >= 1);
        assert!(d.day <= 30);
    }
}

#[test]
fn leap_day_boundary() {
    // a divisible-by-four year: February stays below 29
    for _ in 0..300 {
        let d = Date::random(2004, 2005);
        if d.month == 2 {
            assert!(d.day < 29);
        }
    }
    // a non-leap year: February stays below 28
    for _ in 0..300 {
        let d = Date::random(1999, 2000);
        if d.month == 2 {
            assert!(d.day < 28);
        }
    }
}

#[test]
fn rand_respects_year_range() {
    for _ in 0..50 {
        let p = PeselNumber::rand(1990, 1991);
        assert_eq!(p.birth_date.year, 1990);
        assert_eq!(&p.value[0..2], "90");
    }
}

#[test]
fn rng_digits_shape() {
    let s = rng_digits(4);
    assert_eq!(s.len(), 4);
    assert!(is_all_digits(&s));
    assert_eq!(rng_digits(0).len(), 0);
}

#[test]
fn display_strings() {
    let p = PeselNumber::from_date("15-06-2005").unwrap();
    assert_eq!(p.display_string(), p.value);
    let d = Date { day: 1, month: 10, year: 1987 };
    assert_eq!(d.display_string(), "01-10-1987");
}

#[test]
fn usage_line_stable() {
    assert_eq!(usage_line(), "usage: pesel [-r | random <count>] [-h | --help]");
}

#[test]
fn help_mode_regardless_of_trailing() {
    assert!(matches!(decide_command(Some("-h"), None), Command::Help));
    assert!(matches!(decide_command(Some("-h"), Some("trailing")), Command::Help));
    assert!(matches!(decide_command(Some("--help"), Some("-r")), Command::Help));
}

#[test]
fn random_mode_counts() {
    match decide_command(Some("-r"), None) {
        Command::Generate { count } => assert_eq!(count, 1),
        _ => panic!("expected generate"),
    }
    match decide_command(Some("--random"), Some("5")) {
        Command::Generate { count } => assert_eq!(count, 5),
        _ => panic!("expected generate"),
    }
}

#[test]
fn unrecognized_arguments() {
    assert!(matches!(decide_command(None, None), Command::Usage));
    assert!(matches!(decide_command(Some(""), None), Command::Usage));
    assert!(matches!(decide_command(Some("-r"), Some("")), Command::Usage));
    match decide_command(Some("-r"), Some("abc")) {
        Command::Unrecognized { token } => assert_eq!(token, "abc"),
        _ => panic!("expected unrecognized"),
    }
    match decide_command(Some("--bogus"), None) {
        Command::Unrecognized { token } => assert_eq!(token, "-bogus"),
        _ => panic!("expected unrecognized"),
    }
    // one leading dash is stripped and the remainder trimmed
    match decide_command(Some("-x "), None) {
        Command::Unrecognized { token } => assert_eq!(token, "x"),
        _ => panic!("expected unrecognized"),
    }
    // a bare dash is kept as it is
    match decide_command(Some("-"), None) {
        Command::Unrecognized { token } => assert_eq!(token, "-"),
        _ => panic!("expected unrecognized"),
    }
}
