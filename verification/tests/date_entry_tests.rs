use endeavor::date::Date;
use endeavor::entry::Entry;
use endeavor::error::EntryParseError;

#[test]
fn parses_two_digit_day() {
    let d = Date::parse("05-Jan-2024").unwrap();
    assert_eq!(d.year, 2024);
    assert_eq!(d.month, 1);
    assert_eq!(d.day, 5);
}

#[test]
fn parses_one_digit_day() {
    let d = Date::parse("5-Jan-2024").unwrap();
    assert_eq!((d.year, d.month, d.day), (2024, 1, 5));
}

#[test]
fn parses_every_month_abbreviation() {
    let months = [
        ("Jan", 1),
        ("Feb", 2),
        ("Mar", 3),
        ("Apr", 4),
        ("May", 5),
        ("Jun", 6),
        ("Jul", 7),
        ("Aug", 8),
        ("Sep", 9),
        ("Oct", 10),
        ("Nov", 11),
        ("Dec", 12),
    ];
    for (name, number) in months {
        let text = format!("10-{}-2023", name);
        let d = Date::parse(&text).unwrap();
        assert_eq!(d.month, number, "month {}", name);
    }
}

#[test]
fn month_abbreviation_ignores_ascii_case() {
    assert_eq!(Date::parse("05-JAN-2024"), Date::parse("05-Jan-2024"));
    assert_eq!(Date::parse("05-jan-2024"), Date::parse("05-Jan-2024"));
}

#[test]
fn rejects_invalid_calendar_dates() {
    assert!(Date::parse("31-Feb-2024").is_none());
    assert!(Date::parse("00-Jan-2024").is_none());
    assert!(Date::parse("32-Jan-2024").is_none());
    assert!(Date::parse("31-Apr-2024").is_none());
}

#[test]
fn leap_year_rules() {
    assert!(Date::parse("29-Feb-2024").is_some());
    assert!(Date::parse("29-Feb-2023").is_none());
    assert!(Date::parse("29-Feb-1900").is_none());
    assert!(Date::parse("29-Feb-2000").is_some());
}

#[test]
fn rejects_malformed_text() {
    assert!(Date::parse("").is_none());
    assert!(Date::parse("05-Jxn-2024").is_none());
    assert!(Date::parse("05_Jan_2024").is_none());
    assert!(Date::parse("05-Jan-24").is_none());
    assert!(Date::parse("05-Jan-20245").is_none());
    assert!(Date::parse("aa-Jan-2024").is_none());
}

#[test]
fn date_ordering_is_lexicographic() {
    let a = Date { year: 2023, month: 12, day: 31 };
    let b = Date { year: 2024, month: 1, day: 1 };
    let c = Date { year: 2024, month: 1, day: 1 };
    assert!(a.on_or_before(&b));
    assert!(!b.on_or_before(&a));
    assert!(b.on_or_before(&c));
    assert!(c.on_or_before(&b));
}

#[test]
fn today_is_a_valid_date() {
    let d = endeavor::date::today();
    assert!(d.valid());
    assert!((1..=12).contains(&d.month));
    assert!(d.day >= 1);
}

#[test]
fn entry_round_trip_from_fixed_input() {
    let e = Entry::new(
        "A123 - 05-Jan-2024",
        vec!["Acme Corp".to_string(), "PRJ-9".to_string()],
    )
    .unwrap();
    assert_eq!(e.id, "A123");
    assert_eq!(e.date, Date { year: 2024, month: 1, day: 5 });
    assert_eq!(e.customer, "Acme Corp");
    assert_eq!(e.project_number, "PRJ-9");
}

#[test]
fn entry_requires_separator() {
    let r = Entry::new("A123 05-Jan-2024", vec!["a".to_string(), "b".to_string()]);
    assert_eq!(r.unwrap_err(), EntryParseError::MissingSeparator);
}

#[test]
fn entry_requires_parseable_date() {
    let r = Entry::new("A123 - 05-Jxn-2024", vec!["a".to_string(), "b".to_string()]);
    assert_eq!(r.unwrap_err(), EntryParseError::InvalidDate);
}

#[test]
fn entry_requires_exactly_two_fragments() {
    let r = Entry::new("A123 - 05-Jan-2024", vec!["a".to_string()]);
    assert_eq!(r.unwrap_err(), EntryParseError::WrongProjectInfoCount { found: 1 });
    let r = Entry::new(
        "A123 - 05-Jan-2024",
        vec!["a".to_string(), "b".to_string(), "c".to_string()],
    );
    assert_eq!(r.unwrap_err(), EntryParseError::WrongProjectInfoCount { found: 3 });
}

#[test]
fn entry_requires_url_safe_nonempty_id() {
    let r = Entry::new(" - 05-Jan-2024", vec!["a".to_string(), "b".to_string()]);
    assert_eq!(r.unwrap_err(), EntryParseError::InvalidId);
    let r = Entry::new("A 1 - 05-Jan-2024", vec!["a".to_string(), "b".to_string()]);
    assert_eq!(r.unwrap_err(), EntryParseError::InvalidId);
    let r = Entry::new("A_1.2~x-3 - 05-Jan-2024", vec!["a".to_string(), "b".to_string()]);
    assert_eq!(r.unwrap().id, "A_1.2~x-3");
}

#[test]
fn entry_takes_first_separator() {
    let e = Entry::new("A123 - 05-Jan-2024", vec!["x".to_string(), "y".to_string()]).unwrap();
    assert_eq!(e.id, "A123");
    // a second separator belongs to the date part, which then fails to parse
    let r = Entry::new("A123 - B - 05-Jan-2024", vec!["x".to_string(), "y".to_string()]);
    assert_eq!(r.unwrap_err(), EntryParseError::InvalidDate);
}
