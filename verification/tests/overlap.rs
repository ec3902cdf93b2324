use rest_reminder::interval::{calculate_overlap, interval_overlap, WorkInterval};
use rest_reminder::timestamp::LocalTimestamp;

fn at(instant: i64) -> LocalTimestamp {
    LocalTimestamp::new(instant, 0)
}

fn span(start: i64, end: i64) -> WorkInterval {
    WorkInterval::new(at(start), at(end))
}

#[test]
fn overlap_is_the_clamped_length() {
    let w = span(100, 200);
    assert_eq!(interval_overlap(&w, 0, 1000), 100);
    assert_eq!(interval_overlap(&w, 150, 1000), 50);
    assert_eq!(interval_overlap(&w, 0, 120), 20);
    assert_eq!(interval_overlap(&w, 130, 170), 40);
    assert_eq!(interval_overlap(&w, 200, 300), 0);
    assert_eq!(interval_overlap(&w, 0, 100), 0);
    assert_eq!(interval_overlap(&w, 300, 400), 0);
}

#[test]
fn overlap_of_a_reversed_interval_is_zero() {
    let w = span(200, 100);
    assert_eq!(interval_overlap(&w, 0, 1000), 0);
    assert_eq!(w.duration_seconds(), None);
}

#[test]
fn zero_length_interval_counts_for_nothing() {
    let w = span(150, 150);
    assert_eq!(interval_overlap(&w, 0, 1000), 0);
    assert_eq!(w.duration_seconds(), Some(0));
}

#[test]
fn overlap_with_a_reversed_range_is_zero() {
    let entries = vec![span(100, 200), span(150, 400)];
    assert_eq!(calculate_overlap(&entries, at(500), at(0)), Some(0));
}

#[test]
fn total_of_no_entries_is_zero() {
    assert_eq!(calculate_overlap(&vec![], at(0), at(1000)), Some(0));
}

#[test]
fn total_over_a_degenerate_range_is_zero() {
    let entries = vec![span(100, 200), span(150, 400)];
    assert_eq!(calculate_overlap(&entries, at(160), at(160)), Some(0));
}

#[test]
fn total_counts_overlapping_entries_twice() {
    let entries = vec![span(100, 200), span(150, 400)];
    assert_eq!(calculate_overlap(&entries, at(0), at(1000)), Some(100 + 250));
    assert_eq!(calculate_overlap(&entries, at(120), at(160)), Some(40 + 10));
}

#[test]
fn total_does_not_depend_on_the_order() {
    let a = vec![span(0, 10), span(5, 25), span(40, 45), span(5, 25)];
    let b = vec![span(5, 25), span(40, 45), span(5, 25), span(0, 10)];
    let c = vec![span(40, 45), span(5, 25), span(0, 10), span(5, 25)];
    assert_eq!(calculate_overlap(&a, at(3), at(42)), Some(7 + 20 + 2 + 20));
    assert_eq!(calculate_overlap(&a, at(3), at(42)), calculate_overlap(&b, at(3), at(42)));
    assert_eq!(calculate_overlap(&a, at(3), at(42)), calculate_overlap(&c, at(3), at(42)));
}

#[test]
fn total_uses_the_instant_and_not_the_offset() {
    let entries = vec![WorkInterval::new(
        LocalTimestamp::new(100, 3600),
        LocalTimestamp::new(200, -7200),
    )];
    let total = calculate_overlap(
        &entries,
        LocalTimestamp::new(150, 0),
        LocalTimestamp::new(1000, 86_000),
    );
    assert_eq!(total, Some(50));
}

#[test]
fn total_that_no_i64_holds_is_none() {
    let whole = span(i64::MIN, i64::MAX);
    assert_eq!(interval_overlap(&whole, i64::MIN, i64::MAX), u64::MAX);
    assert_eq!(calculate_overlap(&vec![whole], at(i64::MIN), at(i64::MAX)), None);
    assert_eq!(calculate_overlap(&vec![whole], at(0), at(i64::MAX)), Some(i64::MAX));
    assert_eq!(calculate_overlap(&vec![whole, span(0, 1)], at(0), at(i64::MAX)), None);
}

#[test]
fn two_days_lose_the_second_before_midnight() {
    let midnight: i64 = 1_745_280_000;
    let crossing = span(midnight - 3600, midnight + 3600);
    let first = interval_overlap(&crossing, midnight - 86_400, midnight - 1);
    let second = interval_overlap(&crossing, midnight, midnight + 86_399);
    assert_eq!(first, 3599);
    assert_eq!(second, 3600);
    assert_eq!(first + second, crossing.duration_seconds().unwrap() - 1);
}

#[test]
fn two_days_cover_an_interval_that_does_not_cross() {
    let midnight: i64 = 1_745_280_000;
    for w in [
        span(midnight - 500, midnight - 1),
        span(midnight, midnight + 700),
        span(midnight - 86_400, midnight - 86_000),
    ] {
        let first = interval_overlap(&w, midnight - 86_400, midnight - 1);
        let second = interval_overlap(&w, midnight, midnight + 86_399);
        assert_eq!(first + second, w.duration_seconds().unwrap());
    }
}

#[test]
fn calendar_day_rounds_down() {
    assert_eq!(at(0).calendar_day(), 0);
    assert_eq!(at(86_399).calendar_day(), 0);
    assert_eq!(at(86_400).calendar_day(), 1);
    assert_eq!(at(-1).calendar_day(), -1);
    assert_eq!(at(-86_400).calendar_day(), -1);
    assert_eq!(at(-86_401).calendar_day(), -2);
    assert_eq!(LocalTimestamp::new(86_399, 1).calendar_day(), 1);
    assert_eq!(LocalTimestamp::new(0, -1).calendar_day(), -1);
    assert_eq!(at(1_745_102_904).calendar_day(), 20_197);
    assert_eq!(at(i64::MAX).calendar_day(), 106_751_991_167_300);
    assert_eq!(at(i64::MIN).calendar_day(), -106_751_991_167_301);
}
