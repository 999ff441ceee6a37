use rust_nps::trend::{trend_from_rows, trend_window, TrendMonth, TrendRow};

fn labels(now_ms: i64) -> Vec<String> {
    trend_window(now_ms).unwrap().months.iter().map(|m| m.label.clone()).collect()
}

fn row(year: i32, month: i32, segment: &str, total: u64, promoters: u64, detractors: u64) -> TrendRow {
    TrendRow { year, month, segment: segment.to_string(), total, promoters, detractors }
}

fn month(year: i32, month: i32, label: &str) -> TrendMonth {
    TrendMonth { year, month, label: label.to_string() }
}

#[test]
fn window_covers_six_months_ending_now() {
    // 2024-03-15T12:00:00Z
    let w = trend_window(1_710_504_000_000).unwrap();
    assert_eq!(w.months.len(), 6);
    let ym: Vec<(i32, i32)> = w.months.iter().map(|m| (m.year, m.month)).collect();
    assert_eq!(ym, vec![(2023, 10), (2023, 11), (2023, 12), (2024, 1), (2024, 2), (2024, 3)]);
    assert_eq!(
        labels(1_710_504_000_000),
        vec!["Oct 2023", "Nov 2023", "Dec 2023", "Jan 2024", "Feb 2024", "Mar 2024"]
    );
    // 2023-10-01T00:00:00Z
    assert_eq!(w.start_ms, 1_696_118_400_000);
}

#[test]
fn window_across_a_new_year() {
    // 2025-01-20T08:30:00Z
    let w = trend_window(1_737_361_800_000).unwrap();
    let ym: Vec<(i32, i32)> = w.months.iter().map(|m| (m.year, m.month)).collect();
    assert_eq!(ym, vec![(2024, 8), (2024, 9), (2024, 10), (2024, 11), (2024, 12), (2025, 1)]);
    assert_eq!(w.months[0].label, "Aug 2024");
    assert_eq!(w.months[5].label, "Jan 2025");
    // 2024-08-01T00:00:00Z
    assert_eq!(w.start_ms, 1_722_470_400_000);
}

#[test]
fn window_from_the_last_day_of_a_long_month() {
    // 2024-08-31T23:59:59Z: shorter months clamp the day but keep the month
    let w = trend_window(1_725_148_799_000).unwrap();
    let ym: Vec<(i32, i32)> = w.months.iter().map(|m| (m.year, m.month)).collect();
    assert_eq!(ym, vec![(2024, 3), (2024, 4), (2024, 5), (2024, 6), (2024, 7), (2024, 8)]);
    // 2024-03-01T00:00:00Z
    assert_eq!(w.start_ms, 1_709_251_200_000);
}

#[test]
fn window_out_of_the_clock_range() {
    assert!(trend_window(i64::MAX).is_none());
    assert!(trend_window(i64::MIN).is_none());
}

#[test]
fn trend_sums_segments_per_month() {
    let months = vec![month(2024, 2, "Feb 2024"), month(2024, 3, "Mar 2024")];
    let rows = vec![
        row(2024, 3, "User", 10, 6, 2),
        row(2024, 3, "Studio", 4, 1, 2),
        row(2023, 3, "User", 99, 99, 0),
    ];
    let items = trend_from_rows(&months, &rows).unwrap();
    assert_eq!(items.len(), 2);
    assert_eq!(items[0].label, "Feb 2024");
    assert_eq!(items[0].total, 0);
    assert_eq!(items[0].overall, 0);
    assert!(items[0].by_segment.is_empty());
    assert_eq!(items[1].label, "Mar 2024");
    assert_eq!(items[1].total, 14);
    assert_eq!(items[1].overall, 21);
    assert_eq!(
        items[1].by_segment,
        vec![("User".to_string(), 40), ("Studio".to_string(), -25)]
    );
}

#[test]
fn trend_later_row_replaces_earlier_one() {
    let months = vec![month(2024, 3, "Mar 2024")];
    let rows = vec![
        row(2024, 3, "User", 10, 10, 0),
        row(2024, 3, "Studio", 2, 0, 2),
        row(2024, 3, "User", 4, 1, 1),
    ];
    let items = trend_from_rows(&months, &rows).unwrap();
    assert_eq!(items[0].total, 6);
    assert_eq!(items[0].overall, -33);
    assert_eq!(
        items[0].by_segment,
        vec![("Studio".to_string(), -100), ("User".to_string(), 0)]
    );
}

#[test]
fn trend_without_rows_is_all_zero() {
    let w = trend_window(1_710_504_000_000).unwrap();
    let items = trend_from_rows(&w.months, &Vec::new()).unwrap();
    assert_eq!(items.len(), 6);
    for item in &items {
        assert_eq!(item.overall, 0);
        assert_eq!(item.total, 0);
        assert!(item.by_segment.is_empty());
    }
}

#[test]
fn trend_refuses_sums_that_overflow() {
    let months = vec![month(2024, 3, "Mar 2024")];
    let rows = vec![row(2024, 3, "User", u64::MAX, 0, 0), row(2024, 3, "Studio", 1, 0, 0)];
    assert!(trend_from_rows(&months, &rows).is_none());
    let other = vec![month(2024, 4, "Apr 2024")];
    assert!(trend_from_rows(&other, &rows).is_some());
}

#[test]
fn trend_ignores_rows_older_than_the_window() {
    let w = trend_window(1_710_504_000_000).unwrap();
    let rows = vec![row(2024, 3, "User", 10, 6, 2), row(2023, 12, "Studio", 4, 1, 2)];
    let mut more = vec![row(2024, 3, "User", 10, 6, 2), row(2023, 12, "Studio", 4, 1, 2)];
    more.push(row(2023, 9, "User", 50, 0, 50));
    let a = trend_from_rows(&w.months, &rows).unwrap();
    let b = trend_from_rows(&w.months, &more).unwrap();
    assert_eq!(a, b);
    assert_eq!(b[2].total, 4);
    assert_eq!(b[5].overall, 40);
}
