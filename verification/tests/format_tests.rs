use tokstat::gauge::{bar_cells, format_number, percent_used_tenths, remaining_quota};
use tokstat::gauge::gauge_count;
use tokstat::quota::TokenUsage;
use tokstat::text::{str_eq, trim_chars, u64_to_string};

#[test]
fn format_number_plain_below_a_thousand() {
    assert_eq!(format_number(0), "0");
    assert_eq!(format_number(7), "7");
    assert_eq!(format_number(999), "999");
}

#[test]
fn format_number_thousands_with_one_decimal() {
    assert_eq!(format_number(1000), "1.0K");
    assert_eq!(format_number(1500), "1.5K");
    assert_eq!(format_number(1549), "1.5K");
    assert_eq!(format_number(1550), "1.6K");
    assert_eq!(format_number(999949), "999.9K");
}

#[test]
fn format_number_millions_with_one_decimal() {
    assert_eq!(format_number(1_000_000), "1.0M");
    assert_eq!(format_number(1_250_000), "1.3M");
    assert_eq!(format_number(12_340_000), "12.3M");
}

#[test]
fn over_limit_usage_reports_zero_remaining_and_full_percent() {
    // Two accounts exist with max_requests == 100 and a fetch reports
    // 120 requests made: the remaining count saturates at zero and
    // the used share reads 120.0%.
    assert_eq!(remaining_quota(120, 100), 0);
    assert_eq!(percent_used_tenths(120, 100), 1200);
}

#[test]
fn percent_and_remaining_below_the_limit() {
    assert_eq!(remaining_quota(30, 100), 70);
    assert_eq!(percent_used_tenths(30, 100), 300);
    assert_eq!(percent_used_tenths(1, 3), 333);
}

#[test]
fn bar_cells_fill_proportionally_and_clamp() {
    assert_eq!(bar_cells(0, 100, 20), 0);
    assert_eq!(bar_cells(50, 100, 20), 10);
    assert_eq!(bar_cells(100, 100, 20), 20);
    assert_eq!(bar_cells(120, 100, 20), 20);
}

#[test]
fn decimal_rendering_of_counters() {
    assert_eq!(u64_to_string(0), "0");
    assert_eq!(u64_to_string(100), "100");
    assert_eq!(u64_to_string(18_446_744_073_709_551_615), "18446744073709551615");
}

#[test]
fn trimming_strips_blank_edges_only() {
    let chars: Vec<char> = "  a b \t".chars().collect();
    let trimmed: String = trim_chars(&chars).iter().collect();
    assert_eq!(trimmed, "a b");
    let blank: Vec<char> = "   ".chars().collect();
    assert_eq!(trim_chars(&blank).len(), 0);
}

#[test]
fn string_equality_by_characters() {
    assert!(str_eq("copilot", "copilot"));
    assert!(!str_eq("copilot", "openrouter"));
    assert!(!str_eq("a", "ab"));
}

#[test]
fn gauge_count_matches_reported_dimensions() {
    let none = TokenUsage { tokens_used: None, requests_made: None, cost_micros: None };
    assert_eq!(gauge_count(&none), 0);
    let one = TokenUsage { tokens_used: None, requests_made: Some(5), cost_micros: None };
    assert_eq!(gauge_count(&one), 1);
    let all = TokenUsage { tokens_used: Some(1), requests_made: Some(2), cost_micros: Some(3) };
    assert_eq!(gauge_count(&all), 3);
}
