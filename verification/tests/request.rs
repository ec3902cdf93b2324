use rest_reminder::plugin::{hook_message, hook_name, PluginContext};
use rest_reminder::request::{range_of, read_day, read_range, refusal, RequestError};
use rest_reminder::session::HookPoint;
use rest_reminder::timestamp::LocalTimestamp;

#[test]
fn both_dates_of_a_request_are_read() {
    let (from, to) = read_range("2025-04-19", "2025-04-23").unwrap();
    assert_eq!(from.instant + from.offset as i64, 1_745_020_800);
    assert_eq!(to.instant + to.offset as i64, 1_745_020_800 + 4 * 86_400);
}

#[test]
fn the_start_is_looked_at_first() {
    assert_eq!(read_range("soon", "later"), Err(RequestError::InvalidStart));
    assert_eq!(read_range("soon", "2025-04-23"), Err(RequestError::InvalidStart));
    assert_eq!(read_range("2025-04-19", "later"), Err(RequestError::InvalidEnd));
    assert_eq!(read_range("2025-04-19 00:00:00", "2025-04-23"), Err(RequestError::InvalidStart));
}

#[test]
fn a_date_is_read_or_not() {
    assert!(read_day("2025-04-19").is_some());
    assert_eq!(read_day("2025-02-29"), None);
    assert_eq!(read_day(""), None);
}

#[test]
fn two_days_make_a_range() {
    let a = LocalTimestamp::new(1, 0);
    let b = LocalTimestamp::new(2, 0);
    assert_eq!(range_of(Some(a), Some(b)), Ok((a, b)));
    assert_eq!(range_of(None, Some(b)), Err(RequestError::InvalidStart));
    assert_eq!(range_of(Some(a), None), Err(RequestError::InvalidEnd));
    assert_eq!(range_of(None, None), Err(RequestError::InvalidStart));
}

#[test]
fn each_refusal_has_its_words() {
    assert_eq!(refusal(RequestError::InvalidStart), "Invalid start time");
    assert_eq!(refusal(RequestError::InvalidEnd), "Invalid end time");
}

#[test]
fn each_hook_has_its_name_and_message() {
    assert_eq!(hook_name(HookPoint::Init), "on_init");
    assert_eq!(hook_name(HookPoint::WorkStart), "on_work_start");
    assert_eq!(hook_name(HookPoint::BreakReminder), "on_break_reminder");
    assert_eq!(hook_message(HookPoint::Init), "Rest Reminder initialized");
    assert_eq!(hook_message(HookPoint::WorkStart), "Work session started");
    assert_eq!(hook_message(HookPoint::BreakReminder), "Time to take a break!");
}

#[test]
fn a_context_carries_the_time_at_which_it_was_made() {
    let now = LocalTimestamp::new(1_745_102_904 - 3600, 3600);
    let context = PluginContext::at("Work session started", now, 0);
    assert_eq!(context.message, "Work session started");
    assert_eq!(context.timestamp, "2025-04-19 22:48:24");
    assert_eq!(context.work_duration, 0);
    let context = PluginContext::for_hook(HookPoint::BreakReminder, now, 3600);
    assert_eq!(context.message, "Time to take a break!");
    assert_eq!(context.timestamp, "2025-04-19 22:48:24");
    assert_eq!(context.work_duration, 3600);
    let context = PluginContext::at("late", LocalTimestamp::new(i64::MAX, 0), 1);
    assert_eq!(context.timestamp, "");
}

#[test]
fn a_context_made_now_carries_a_time() {
    let context = PluginContext::new("Rest Reminder initialized", 0);
    assert_eq!(context.message, "Rest Reminder initialized");
    assert_eq!(context.work_duration, 0);
    assert_eq!(context.timestamp.len(), 19);
    let bytes = context.timestamp.as_bytes();
    assert_eq!(bytes[4], b'-');
    assert_eq!(bytes[10], b' ');
    assert_eq!(bytes[13], b':');
    assert!(context.timestamp.as_str() > "2025-01-01 00:00:00");
}
