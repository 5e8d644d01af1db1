use imagewall::dates::{parse_year_month, DateRange, ItemAction, YearMonth};
use imagewall::numbers::{i64_to_string, parse_u32, u64_to_string};

#[test]
fn parse_u32_plain_values() {
    assert_eq!(parse_u32("0"), Some(0));
    assert_eq!(parse_u32("12"), Some(12));
    assert_eq!(parse_u32("2024"), Some(2024));
    assert_eq!(parse_u32("05"), Some(5));
    assert_eq!(parse_u32("4294967295"), Some(u32::MAX));
}

#[test]
fn parse_u32_rejects() {
    assert_eq!(parse_u32(""), None);
    assert_eq!(parse_u32("12a"), None);
    assert_eq!(parse_u32("-3"), None);
    assert_eq!(parse_u32("+3"), None);
    assert_eq!(parse_u32("4294967296"), None);
    assert_eq!(parse_u32("99999999999999999999"), None);
    assert_eq!(parse_u32("1 2"), None);
}

#[test]
fn renders_decimals() {
    assert_eq!(u64_to_string(0).as_str(), "0");
    assert_eq!(u64_to_string(7).as_str(), "7");
    assert_eq!(u64_to_string(2024).as_str(), "2024");
    assert_eq!(u64_to_string(u64::MAX).as_str(), "18446744073709551615");
    assert_eq!(i64_to_string(-5).as_str(), "-5");
    assert_eq!(i64_to_string(123456).as_str(), "123456");
    assert_eq!(i64_to_string(i64::MIN).as_str(), "-9223372036854775808");
}

#[test]
fn parses_year_month_bounds() {
    assert_eq!(parse_year_month("2024/05"), Some(YearMonth { year: 2024, month: 5 }));
    assert_eq!(parse_year_month("1999/12"), Some(YearMonth { year: 1999, month: 12 }));
    assert_eq!(parse_year_month("2024"), None);
    assert_eq!(parse_year_month("2024/"), None);
    assert_eq!(parse_year_month("/05"), None);
    assert_eq!(parse_year_month("a/b"), None);
    assert_eq!(parse_year_month("2024/05/06"), None);
    assert_eq!(parse_year_month(""), None);
}

#[test]
fn classify_applies_window() {
    let range = DateRange {
        start: Some(YearMonth { year: 2024, month: 4 }),
        end: Some(YearMonth { year: 2024, month: 5 }),
    };
    assert_eq!(range.classify(YearMonth { year: 2024, month: 3 }), ItemAction::Stop);
    assert_eq!(range.classify(YearMonth { year: 2023, month: 12 }), ItemAction::Stop);
    assert_eq!(range.classify(YearMonth { year: 2024, month: 6 }), ItemAction::Skip);
    assert_eq!(range.classify(YearMonth { year: 2025, month: 1 }), ItemAction::Skip);
    assert_eq!(range.classify(YearMonth { year: 2024, month: 4 }), ItemAction::Enqueue);
    assert_eq!(range.classify(YearMonth { year: 2024, month: 5 }), ItemAction::Enqueue);
}

#[test]
fn classify_open_sides() {
    let open = DateRange { start: None, end: None };
    assert_eq!(open.classify(YearMonth { year: 1, month: 1 }), ItemAction::Enqueue);
    let only_start = DateRange { start: Some(YearMonth { year: 2024, month: 1 }), end: None };
    assert_eq!(only_start.classify(YearMonth { year: 2030, month: 1 }), ItemAction::Enqueue);
    assert_eq!(only_start.classify(YearMonth { year: 2023, month: 12 }), ItemAction::Stop);
    let only_end = DateRange { start: None, end: Some(YearMonth { year: 2024, month: 1 }) };
    assert_eq!(only_end.classify(YearMonth { year: 2024, month: 2 }), ItemAction::Skip);
    assert_eq!(only_end.classify(YearMonth { year: 1, month: 1 }), ItemAction::Enqueue);
}
