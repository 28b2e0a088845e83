use echo_daily::dates::{is_valid_month, parse_date, validate_entry_date, validate_month, Date};
use echo_daily::error::AppError;
use echo_daily::stats::{calculate_current_streak, calculate_longest_streak};
use echo_daily::store::Store;

#[test]
fn parse_date_accepts_real_days_only() {
    assert_eq!(
        parse_date("2026-01-03"),
        Some(Date { year: 2026, month: 1, day: 3 })
    );
    assert_eq!(
        parse_date("2024-02-29"),
        Some(Date { year: 2024, month: 2, day: 29 })
    );
    assert_eq!(parse_date("2023-02-29"), None);
    assert_eq!(parse_date("2026-02-30"), None);
    assert_eq!(parse_date("2026-13-01"), None);
    assert_eq!(parse_date("2026-00-10"), None);
    assert_eq!(parse_date("2026-01-00"), None);
    assert_eq!(parse_date("2026-1-03"), None);
    assert_eq!(parse_date("garbage"), None);
    assert_eq!(parse_date(""), None);
}

#[test]
fn month_strings_are_checked() {
    assert!(is_valid_month("2026-01"));
    assert!(is_valid_month("2026-12"));
    assert!(!is_valid_month("2026-13"));
    assert!(!is_valid_month("2026-00"));
    assert!(!is_valid_month("2026-1"));
    assert!(!is_valid_month("2026-01-01"));
}

#[test]
fn streaks_on_consecutive_days() {
    let dates = vec![
        "2026-01-01".to_string(),
        "2026-01-02".to_string(),
        "2026-01-03".to_string(),
    ];
    let today = Date { year: 2026, month: 1, day: 3 };
    assert_eq!(calculate_current_streak(&dates, today), 3);
    assert_eq!(calculate_longest_streak(&dates), 3);
}

#[test]
fn streaks_with_a_gap() {
    let dates = vec!["2026-01-01".to_string(), "2026-01-03".to_string()];
    let today = Date { year: 2026, month: 1, day: 3 };
    assert_eq!(calculate_current_streak(&dates, today), 1);
    assert_eq!(calculate_longest_streak(&dates), 1);
}

#[test]
fn streaks_cross_month_and_year_bounds() {
    let dates = vec![
        "2025-12-30".to_string(),
        "2025-12-31".to_string(),
        "2026-01-01".to_string(),
    ];
    let today = Date { year: 2026, month: 1, day: 1 };
    assert_eq!(calculate_current_streak(&dates, today), 3);
    assert_eq!(calculate_longest_streak(&dates), 3);
}

#[test]
fn streaks_skip_future_and_unparseable_dates() {
    let dates = vec![
        "2026-01-01".to_string(),
        "2026-01-02".to_string(),
        "broken".to_string(),
        "2026-01-09".to_string(),
    ];
    // the future-dated 01-09 and the unparseable string are passed over
    let today = Date { year: 2026, month: 1, day: 2 };
    assert_eq!(calculate_current_streak(&dates, today), 2);
    assert_eq!(calculate_longest_streak(&dates), 2);
}

#[test]
fn streaks_of_nothing_are_zero() {
    let dates: Vec<String> = Vec::new();
    let today = Date { year: 2026, month: 1, day: 3 };
    assert_eq!(calculate_current_streak(&dates, today), 0);
    assert_eq!(calculate_longest_streak(&dates), 0);
}

#[test]
fn writing_stats_counts_and_streaks() {
    let mut store = Store::open();
    store.upsert_entry("2026-01-01", "a").expect("a");
    store.upsert_entry("2026-01-02", "b").expect("b");
    store.upsert_entry("2026-01-03", "c").expect("c");

    let st = store.writing_stats_at(Date { year: 2026, month: 1, day: 3 });
    assert_eq!(st.total_entries, 3);
    assert_eq!(st.current_streak, 3);
    assert_eq!(st.longest_streak, 3);

    // a day without an entry breaks the current streak but not the record
    let st = store.writing_stats_at(Date { year: 2026, month: 1, day: 5 });
    assert_eq!(st.current_streak, 0);
    assert_eq!(st.longest_streak, 3);

    let st = store.get_writing_stats().expect("stats at the clock's today");
    assert_eq!(st.total_entries, 3);
}

#[test]
fn writing_stats_on_an_empty_store() {
    let store = Store::open();
    let st = store.writing_stats_at(Date { year: 2026, month: 1, day: 3 });
    assert_eq!(st.total_entries, 0);
    assert_eq!(st.current_streak, 0);
    assert_eq!(st.longest_streak, 0);
}

#[test]
fn validation_wrappers_mirror_the_parsers() {
    assert!(validate_entry_date("2026-01-03").is_ok());
    assert!(matches!(
        validate_entry_date("2026-1-3"),
        Err(AppError::InvalidEntryDate(_))
    ));
    assert!(validate_month("2026-01").is_ok());
    assert!(matches!(
        validate_month("2026-13"),
        Err(AppError::InvalidEntryDate(_))
    ));
}
