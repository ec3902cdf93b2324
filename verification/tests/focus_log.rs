use rest_reminder::localtime::parse_datetime_local;
use rest_reminder::statistics::acc_work_time_precise;
use rest_reminder::timestamp::LocalTimestamp;

const FOCUS_LOG: &str = "\
[2025-04-19 22:48:24 ~ 2025-04-19 22:48:37] You worked for 0.22 minutes\n\
[2025-04-19 22:54:44 ~ 2025-04-19 22:54:56] You worked for 0.20 minutes\n\
[2025-04-19 22:54:56 ~ 2025-04-19 22:55:07] You worked for 0.18 minutes\n";

fn local_dt(s: &str) -> LocalTimestamp {
    parse_datetime_local(s).expect("Format should be %Y-%m-%d %H:%M:%S")
}

#[test]
fn test_test_zero_duration() {
    let dt = local_dt("2025-04-19 00:00:00");
    assert_eq!(acc_work_time_precise(FOCUS_LOG, dt, dt).unwrap(), 0);
}

#[test]
fn test_test_accumulate_within_range() {
    let start = local_dt("2025-04-19 22:00:00");
    let end = local_dt("2025-04-19 23:00:00");
    assert_eq!(acc_work_time_precise(FOCUS_LOG, start, end).unwrap(), 36);
}

#[test]
fn test_test_partial_overlap_start_inside() {
    let start = local_dt("2025-04-19 22:54:50");
    let end = local_dt("2025-04-19 22:55:00");
    assert_eq!(acc_work_time_precise(FOCUS_LOG, start, end).unwrap(), 10);
}

#[test]
fn test_test_no_entries_in_range() {
    let start = local_dt("2025-04-19 21:00:00");
    let end = local_dt("2025-04-19 22:00:00");
    assert_eq!(acc_work_time_precise(FOCUS_LOG, start, end).unwrap(), 0);
}
