use rest_reminder::localtime::{
    parse_datetime_local, parse_datetime_local_day, resolve_datetime, resolve_day, LocalResolution,
};
use rest_reminder::timestamp::LocalTimestamp;

#[test]
fn a_date_and_time_shows_what_was_written() {
    let t = parse_datetime_local("2025-04-19 22:48:24").unwrap();
    assert_eq!(t.instant + t.offset as i64, 1_745_102_904);
    let t = parse_datetime_local("1970-01-01 00:00:00").unwrap();
    assert_eq!(t.instant + t.offset as i64, 0);
}

#[test]
fn a_day_is_its_first_second() {
    let t = parse_datetime_local_day("2025-04-19").unwrap();
    assert_eq!(t.instant + t.offset as i64, 1_745_020_800);
    assert_eq!(t.calendar_day(), 20_197);
    assert_eq!(Ok(t), parse_datetime_local("2025-04-19 00:00:00"));
}

#[test]
fn text_that_is_no_date_and_time_is_refused_with_the_reason() {
    for text in ["", "today", "2025-04-19", "2025-04-19 25:00:00", "2025-13-01 00:00:00", "2025-04-19 22:48:24 and more"] {
        let e = parse_datetime_local(text).unwrap_err();
        assert!(e.starts_with("Failed to resolve: "), "{}", e);
        assert!(e.len() > "Failed to resolve: ".len());
    }
}

#[test]
fn text_that_is_no_date_is_refused_with_the_text_and_the_reason() {
    for text in ["", "today", "2025-04-31", "2025-04-19 22:48:24"] {
        let e = parse_datetime_local_day(text).unwrap_err();
        let head = format!("Cannot resolve '{}': ", text);
        assert!(e.starts_with(&head), "{}", e);
        assert!(e.len() > head.len());
    }
}

#[test]
fn the_only_candidate_is_taken() {
    let t = LocalTimestamp::new(1000, 3600);
    let r = LocalResolution::Unique(t);
    assert_eq!(r.earliest_candidate(), Some(t));
    assert_eq!(r.single(), Some(t));
    assert_eq!(resolve_datetime("x", &r), Ok(t));
    assert_eq!(resolve_day("x", &r), Ok(t));
}

#[test]
fn of_two_candidates_the_earlier_is_taken() {
    let early = LocalTimestamp::new(1000, 7200);
    let late = LocalTimestamp::new(4600, 3600);
    for r in [LocalResolution::Fold(early, late), LocalResolution::Fold(late, early)] {
        assert_eq!(r.earliest_candidate(), Some(early));
        assert_eq!(r.single(), None);
        assert_eq!(resolve_datetime("x", &r), Ok(early));
        assert_eq!(resolve_day("x", &r), Ok(early));
    }
}

#[test]
fn a_time_that_the_clock_skips_is_refused() {
    let r = LocalResolution::Gap;
    assert_eq!(r.earliest_candidate(), None);
    assert_eq!(r.single(), None);
    assert_eq!(
        resolve_datetime("2025-03-30 02:30:00", &r),
        Err("Time '2025-03-30 02:30:00' is invalid in this timezone".to_string())
    );
    assert_eq!(
        resolve_day("2025-03-30", &r),
        Err("Date is invalid in local timezone '2025-03-30'".to_string())
    );
}
