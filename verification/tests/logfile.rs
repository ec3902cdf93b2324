use rest_reminder::interval::WorkInterval;
use rest_reminder::logfile::{
    format_log_line, log_record, parse_log_entries, parse_log_records, record_at, write_timestamp,
    CivilInterval, ZoneAnswer,
};
use rest_reminder::localtime::LocalResolution;
use rest_reminder::timestamp::LocalTimestamp;

// 2025-04-19 22:48:24 and 22:48:37 on a clock without offset.
const T0: i64 = 1_745_102_904;
const T1: i64 = 1_745_102_917;

fn record(start: i64, end: i64) -> CivilInterval {
    CivilInterval { start, end }
}

#[test]
fn a_record_is_read_from_between_the_brackets() {
    let log = "[2025-04-19 22:48:24 ~ 2025-04-19 22:48:37] You worked for 0.22 minutes\n";
    assert_eq!(parse_log_records(log), vec![record(T0, T1)]);
}

#[test]
fn what_follows_the_bracket_is_not_looked_at() {
    let log = "[2025-04-19 22:48:24 ~ 2025-04-19 22:48:37]\n\
               [2025-04-19 22:48:24 ~ 2025-04-19 22:48:37] whatever ] ~ [ stands here";
    assert_eq!(parse_log_records(log), vec![record(T0, T1), record(T0, T1)]);
}

#[test]
fn lines_that_are_no_records_are_left_out() {
    let log = "\n\
               # a comment\n\
               2025-04-19 22:48:24 ~ 2025-04-19 22:48:37\n\
               \x20[2025-04-19 22:48:24 ~ 2025-04-19 22:48:37] starts with a blank\n\
               [2025-04-19 22:48:24 ~ 2025-04-19 22:48:37 no closing bracket\n\
               [2025-04-19 22:48:24 - 2025-04-19 22:48:37] no separator\n\
               [2025-04-19 22:48:24~2025-04-19 22:48:37] no blanks around the separator\n\
               [2025-04-19 22:48:24 ~ ] no end\n\
               [ ~ 2025-04-19 22:48:37] no start\n\
               [] empty\n\
               [yesterday ~ today] no dates\n\
               [2025-02-30 22:48:24 ~ 2025-04-19 22:48:37] no such day\n\
               [2025-04-19 24:00:00 ~ 2025-04-19 22:48:37] no such hour\n\
               [2025-04-19 22:48:24 ~ 2025-04-19 22:48:37] a record\n\
               []\n";
    assert_eq!(parse_log_records(log), vec![record(T0, T1)]);
}

#[test]
fn records_keep_the_order_of_the_lines() {
    let log = "[2025-04-19 22:48:37 ~ 2025-04-19 22:48:24] b\n\
               x\n\
               [2025-04-19 22:48:24 ~ 2025-04-19 22:48:37] a\n\
               [1970-01-01 00:00:00 ~ 1970-01-02 00:00:01] c";
    assert_eq!(
        parse_log_records(log),
        vec![record(T1, T0), record(T0, T1), record(0, 86_401)]
    );
}

#[test]
fn a_second_separator_ends_the_second_time() {
    let log = "[2025-04-19 22:48:24 ~ 2025-04-19 22:48:37 ~ 2025-04-20 00:00:00] three times\n";
    assert_eq!(parse_log_records(log), vec![record(T0, T1)]);
}

#[test]
fn carriage_returns_do_not_matter() {
    let log = "[2025-04-19 22:48:24 ~ 2025-04-19 22:48:37] You worked for 0.22 minutes\r\n\
               [2025-04-19 22:48:24 ~ 2025-04-19 22:48:37] You worked for 0.22 minutes\r\n";
    assert_eq!(parse_log_records(log), vec![record(T0, T1), record(T0, T1)]);
}

#[test]
fn text_beyond_ascii_is_read_by_characters() {
    let log = "é ü 日本語\n\
               [2025-04-19 22:48:24 ~ 2025-04-19 22:48:37] ☕ 日本語\n\
               [日本語 ~ 2025-04-19 22:48:37]\n";
    assert_eq!(parse_log_records(log), vec![record(T0, T1)]);
}

#[test]
fn empty_log_has_no_records() {
    assert_eq!(parse_log_records(""), vec![]);
    assert_eq!(parse_log_records("\n\n\n"), vec![]);
    assert_eq!(parse_log_entries(""), vec![]);
}

#[test]
fn reading_again_gives_the_same_records() {
    let log = "[2025-04-19 22:48:24 ~ 2025-04-19 22:48:37] a\nnoise\n[2025-04-19 22:48:37 ~ x]\n";
    assert_eq!(parse_log_records(log), parse_log_records(log));
    assert_eq!(parse_log_entries(log), parse_log_entries(log));
}

#[test]
fn record_at_reads_one_line_of_the_text() {
    let text: Vec<char> = "xx[2025-04-19 22:48:24 ~ 2025-04-19 22:48:37]yy".chars().collect();
    assert_eq!(record_at(&text, 2, text.len()), Some(record(T0, T1)));
    assert_eq!(record_at(&text, 2, text.len() - 2), Some(record(T0, T1)));
    assert_eq!(record_at(&text, 2, text.len() - 3), None);
    assert_eq!(record_at(&text, 0, text.len()), None);
    assert_eq!(record_at(&text, 3, text.len()), None);
    assert_eq!(record_at(&text, 2, 2), None);
}

#[test]
fn entries_show_the_times_that_were_written() {
    let log = "[2025-04-19 22:48:24 ~ 2025-04-19 22:48:37] You worked for 0.22 minutes\n";
    let entries = parse_log_entries(log);
    assert_eq!(entries.len(), 1);
    let w = entries[0];
    assert_eq!(w.start.instant + w.start.offset as i64, T0);
    assert_eq!(w.end.instant + w.end.offset as i64, T1);
    assert_eq!(w.duration_seconds(), Some(13));
}

#[test]
fn a_time_that_occurs_twice_stands_for_its_earlier_occurrence() {
    let early = LocalTimestamp::new(1000, 7200);
    let late = LocalTimestamp::new(4600, 3600);
    let end = LocalTimestamp::new(9000, 3600);
    let answer = ZoneAnswer {
        start: LocalResolution::Fold(late, early),
        end: LocalResolution::Unique(end),
    };
    assert_eq!(answer.to_interval(), Some(WorkInterval::new(early, end)));
    let answer = ZoneAnswer {
        start: LocalResolution::Fold(early, late),
        end: LocalResolution::Fold(end, end),
    };
    assert_eq!(answer.to_interval(), Some(WorkInterval::new(early, end)));
}

#[test]
fn a_time_that_does_not_occur_drops_the_record() {
    let t = LocalTimestamp::new(1000, 0);
    let answer = ZoneAnswer { start: LocalResolution::Gap, end: LocalResolution::Unique(t) };
    assert_eq!(answer.to_interval(), None);
    let answer = ZoneAnswer { start: LocalResolution::Unique(t), end: LocalResolution::Gap };
    assert_eq!(answer.to_interval(), None);
}

#[test]
fn a_line_is_written_in_the_format_of_the_log() {
    assert_eq!(
        format_log_line("2025-04-19 22:48:24", "2025-04-19 22:48:37", 13),
        "[2025-04-19 22:48:24 ~ 2025-04-19 22:48:37] You worked for 0.22 minutes\n"
    );
    assert_eq!(format_log_line("a", "b", 3600), "[a ~ b] You worked for 60.00 minutes\n");
    assert_eq!(format_log_line("", "", 0), "[ ~ ] You worked for 0.00 minutes\n");
}

#[test]
fn minutes_are_rounded_to_the_nearest_hundredth() {
    let minutes = |seconds: i128| {
        let line = format_log_line("a", "b", seconds);
        line["[a ~ b] You worked for ".len()..line.len() - " minutes\n".len()].to_string()
    };
    for seconds in [0i64, 1, 2, 3, 4, 5, 11, 12, 13, 29, 30, 31, 59, 60, 61, 69, 599, 3599, 8063, 86_400] {
        assert_eq!(minutes(seconds as i128), format!("{:.2}", seconds as f64 / 60.0));
        assert_eq!(minutes(-(seconds as i128)), format!("{:.2}", -(seconds as f64) / 60.0).replace("-0.00", "0.00"));
    }
    assert_eq!(minutes(1), "0.02");
    assert_eq!(minutes(2), "0.03");
    assert_eq!(minutes(4), "0.07");
    assert_eq!(minutes(59), "0.98");
    assert_eq!(minutes(61), "1.02");
    assert_eq!(minutes(-90), "-1.50");
    assert_eq!(minutes(6_000_000), "100000.00");
    assert_eq!(minutes(i64::MAX as i128), "153722867280912930.12");
}

#[test]
fn a_timestamp_is_written_as_its_wall_clock_reading() {
    assert_eq!(write_timestamp(LocalTimestamp::new(T0, 0)).unwrap(), "2025-04-19 22:48:24");
    assert_eq!(write_timestamp(LocalTimestamp::new(T0 - 7200, 7200)).unwrap(), "2025-04-19 22:48:24");
    assert_eq!(write_timestamp(LocalTimestamp::new(T0, 3600)).unwrap(), "2025-04-19 23:48:24");
    assert_eq!(write_timestamp(LocalTimestamp::new(0, -1)).unwrap(), "1969-12-31 23:59:59");
    assert_eq!(write_timestamp(LocalTimestamp::new(i64::MAX, 1)), None);
    assert_eq!(write_timestamp(LocalTimestamp::new(i64::MAX, 0)), None);
    assert_eq!(write_timestamp(LocalTimestamp::new(i64::MIN, -1)), None);
}

#[test]
fn a_record_is_written_for_an_interval() {
    let w = WorkInterval::new(LocalTimestamp::new(T0 - 3600, 3600), LocalTimestamp::new(T1 - 3600, 3600));
    assert_eq!(
        log_record(&w).unwrap(),
        "[2025-04-19 22:48:24 ~ 2025-04-19 22:48:37] You worked for 0.22 minutes\n"
    );
    let unwritable = WorkInterval::new(LocalTimestamp::new(T0, 0), LocalTimestamp::new(i64::MAX, 0));
    assert_eq!(log_record(&unwritable), None);
}

#[test]
fn what_is_written_is_read_back() {
    let w = WorkInterval::new(LocalTimestamp::new(T0, 0), LocalTimestamp::new(T0 + 4000, 0));
    let mut log = String::new();
    log.push_str(&log_record(&w).unwrap());
    log.push_str(&log_record(&w).unwrap());
    assert_eq!(parse_log_records(&log), vec![record(T0, T0 + 4000), record(T0, T0 + 4000)]);
}
