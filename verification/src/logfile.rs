//! The work log: one line of text for each work interval.
//!
//! A record is written as
//! `[YYYY-MM-DD HH:MM:SS ~ YYYY-MM-DD HH:MM:SS] You worked for M.MM minutes`,
//! both times on the local clock. A reader takes the two times from
//! between the brackets and does not look at what follows them.

use crate::decimal::{minutes_text, push_minutes};
use crate::interval::WorkInterval;
use crate::localtime::{
    local_candidates, naive_seconds, naive_text, read_naive_datetime, write_naive_datetime,
    LocalResolution,
};
use crate::timestamp::LocalTimestamp;
use crate::text::{
    chars_of, find_in, first_occurrence, is_first_occurrence, lemma_first_occurrence,
    lemma_no_occurrence, occurs_at, string_of,
};
use vstd::prelude::*;
use vstd::string::StringExecFns;

verus! {

/// What stands between the two times of a record.
pub open spec fn separator() -> Seq<char> {
    seq![' ', '~', ' ']
}

/// The two wall-clock readings of one record, in seconds since
/// 1970-01-01 00:00:00 on the local clock.
#[derive(Clone, Copy, Debug, PartialEq, Eq, Structural)]
pub struct CivilInterval {
    pub start: i64,
    pub end: i64,
}

/// What a line holds between its opening bracket and the first closing
/// bracket, for a line that starts with `[` and holds a `]`.
pub open spec fn record_payload(line: Seq<char>) -> Option<Seq<char>> {
    if line.len() > 0 && line[0] == '[' {
        match first_occurrence(line, seq![']']) {
            Some(close) => Some(line.subrange(1, close)),
            None => None,
        }
    } else {
        None
    }
}

/// The two parts of a payload on either side of its first separator. The
/// second part ends before a second separator, if there is one.
pub open spec fn payload_texts(payload: Seq<char>) -> Option<(Seq<char>, Seq<char>)> {
    match first_occurrence(payload, separator()) {
        Some(at) => {
            let rest = payload.subrange(at + 3, payload.len() as int);
            match first_occurrence(rest, separator()) {
                Some(next) => Some((payload.subrange(0, at), rest.subrange(0, next))),
                None => Some((payload.subrange(0, at), rest)),
            }
        },
        None => None,
    }
}

/// The texts of the two times of a line, for a line that is framed as a
/// record.
pub open spec fn record_texts(line: Seq<char>) -> Option<(Seq<char>, Seq<char>)> {
    match record_payload(line) {
        Some(payload) => payload_texts(payload),
        None => None,
    }
}

/// The record that a line holds: both of its texts must read as a date
/// and time. Any other line holds none.
pub open spec fn line_record(line: Seq<char>) -> Option<CivilInterval> {
    match record_texts(line) {
        Some((first, second)) => match (naive_seconds(first), naive_seconds(second)) {
            (Ok(start), Ok(end)) => Some(CivilInterval { start, end }),
            _ => None,
        },
        None => None,
    }
}

/// The lines of a text. A line ends before a line feed or at the end of
/// the text; a text that ends in a line feed has no empty line after it.
pub open spec fn lines_of(text: Seq<char>) -> Seq<Seq<char>>
    decreases text.len(),
{
    if text.len() == 0 {
        Seq::empty()
    } else {
        match first_occurrence(text, seq!['\n']) {
            Some(at) if 0 <= at < text.len() => seq![text.take(at)] + lines_of(text.skip(at + 1)),
            _ => seq![text],
        }
    }
}

/// The records that the given lines hold, in the order of the lines.
pub open spec fn records_in(lines: Seq<Seq<char>>) -> Seq<CivilInterval>
    decreases lines.len(),
{
    if lines.len() == 0 {
        Seq::empty()
    } else {
        match line_record(lines.first()) {
            Some(record) => seq![record] + records_in(lines.drop_first()),
            None => records_in(lines.drop_first()),
        }
    }
}

/// The records of a log, in the order in which they stand in it.
pub open spec fn log_records(log: Seq<char>) -> Seq<CivilInterval> {
    records_in(lines_of(log))
}

/// The record in the line that `chars` holds from index `from` up to index
/// `to`.
pub fn record_at(chars: &Vec<char>, from: usize, to: usize) -> (record: Option<CivilInterval>)
    requires
        from <= to <= chars.len(),
    ensures
        record == line_record(chars@.subrange(from as int, to as int)),
{
    let ghost line = chars@.subrange(from as int, to as int);
    if from == to || chars[from] != '[' {
        return None;
    }
    let bracket: Vec<char> = vec![']'];
    assert(bracket@ =~= seq![']']);
    let close = match find_in(chars, from, to, &bracket) {
        Some(close) => close,
        None => { return None; },
    };
    assert(close >= 1) by {
        assert(line.subrange(close as int, close + 1)[0] == ']');
    }
    let ghost payload = line.subrange(1, close as int);
    assert(payload =~= chars@.subrange(from + 1, from + close));
    assert(record_payload(line) == Some(payload));
    let sep: Vec<char> = vec![' ', '~', ' '];
    assert(sep@ =~= separator());
    let at = match find_in(chars, from + 1, from + close, &sep) {
        Some(at) => at,
        None => { return None; },
    };
    let ghost rest = payload.subrange(at + 3, payload.len() as int);
    assert(rest =~= chars@.subrange(from + 1 + at + 3, from + close));
    let second_end = match find_in(chars, from + 1 + at + 3, from + close, &sep) {
        Some(next) => from + 1 + at + 3 + next,
        None => from + close,
    };
    let first = string_of(chars, from + 1, from + 1 + at);
    let second = string_of(chars, from + 1 + at + 3, second_end);
    proof {
        assert(first@ =~= payload.subrange(0, at as int));
        match first_occurrence(rest, separator()) {
            Some(next) => {
                assert(second@ =~= rest.subrange(0, next));
            },
            None => {
                assert(second@ =~= rest);
            },
        }
        assert(record_texts(line) == Some((first@, second@)));
    }
    match (read_naive_datetime(first.as_str()), read_naive_datetime(second.as_str())) {
        (Ok(start), Ok(end)) => Some(CivilInterval { start, end }),
        _ => None,
    }
}

/// Reads the records of a log and leaves out every line that is none.
///
/// Reading the same text again gives the same records.
pub fn parse_log_records(log: &str) -> (records: Vec<CivilInterval>)
    ensures
        records@ == log_records(log@),
{
    let chars = chars_of(log);
    let newline: Vec<char> = vec!['\n'];
    let mut records: Vec<CivilInterval> = Vec::new();
    let mut pos: usize = 0;
    assert(newline@ =~= seq!['\n']);
    assert(chars@.skip(0) =~= chars@);
    assert(records@ + log_records(chars@) =~= log_records(chars@));
    while pos < chars.len()
        invariant
            pos <= chars.len(),
            chars@ == log@,
            newline@ == seq!['\n'],
            log_records(log@) == records@ + log_records(chars@.skip(pos as int)),
        decreases chars.len() - pos,
    {
        let ghost rest = chars@.skip(pos as int);
        assert(rest =~= chars@.subrange(pos as int, chars.len() as int));
        let found = find_in(&chars, pos, chars.len(), &newline);
        let end: usize = match found {
            Some(at) => pos + at,
            None => chars.len(),
        };
        let record = record_at(&chars, pos, end);
        let next: usize = if end < chars.len() {
            end + 1
        } else {
            end
        };
        proof {
            let line = chars@.subrange(pos as int, end as int);
            let tail = chars@.skip(next as int);
            match found {
                Some(at) => {
                    assert(rest.take(at as int) =~= line);
                    assert(rest.skip(at + 1) =~= tail);
                    assert(lines_of(rest) == seq![line] + lines_of(tail));
                },
                None => {
                    assert(rest =~= line);
                    assert(tail.len() == 0);
                    assert(lines_of(rest) =~= seq![line] + lines_of(tail));
                },
            }
            let lines = seq![line] + lines_of(tail);
            assert(lines.first() == line);
            assert(lines.drop_first() =~= lines_of(tail));
            assert(log_records(rest) == match record {
                Some(r) => seq![r] + log_records(tail),
                None => log_records(tail),
            });
        }
        let ghost before = records@;
        match record {
            Some(r) => {
                records.push(r);
                assert(records@ + log_records(chars@.skip(next as int)) =~= before + log_records(
                    rest,
                ));
            },
            None => {},
        }
        pos = next;
    }
    assert(chars@.skip(pos as int).len() == 0);
    assert(records@ + log_records(chars@.skip(pos as int)) =~= records@);
    records
}

/// What the local zone answered for the two readings of one record.
#[derive(Clone, Copy, Debug, PartialEq, Eq, Structural)]
pub struct ZoneAnswer {
    pub start: LocalResolution,
    pub end: LocalResolution,
}

impl ZoneAnswer {
    /// Both answers are answers for the readings of `record`.
    pub open spec fn reads(self, record: CivilInterval) -> bool {
        self.start.reads(record.start as int) && self.end.reads(record.end as int)
    }

    /// The interval that a record stands for under these answers. A reading
    /// that occurs twice stands for its earlier occurrence; a record with a
    /// reading that does not occur stands for no interval.
    pub open spec fn interval(self) -> Option<WorkInterval> {
        match (self.start.earliest(), self.end.earliest()) {
            (Some(start), Some(end)) => Some(WorkInterval { start, end }),
            _ => None,
        }
    }

    /// The interval that a record stands for under these answers.
    pub fn to_interval(&self) -> (w: Option<WorkInterval>)
        ensures
            w == self.interval(),
    {
        match (self.start.earliest_candidate(), self.end.earliest_candidate()) {
            (Some(start), Some(end)) => Some(WorkInterval { start, end }),
            _ => None,
        }
    }
}

/// There is one answer for each record, and it is an answer for that
/// record's readings.
pub open spec fn answers_fit(records: Seq<CivilInterval>, answers: Seq<ZoneAnswer>) -> bool {
    answers.len() == records.len() && forall|i: int|
        0 <= i < records.len() ==> (#[trigger] answers[i]).reads(records[i])
}

/// The intervals that the answered records stand for, in the order of the
/// records, without the records that stand for none.
pub open spec fn localized(answers: Seq<ZoneAnswer>) -> Seq<WorkInterval>
    decreases answers.len(),
{
    if answers.len() == 0 {
        Seq::empty()
    } else {
        match answers.last().interval() {
            Some(w) => localized(answers.drop_last()).push(w),
            None => localized(answers.drop_last()),
        }
    }
}

/// Asks the local zone for both readings of every record and returns the
/// intervals that the records stand for.
///
/// The zone's answers are not known in advance. Whatever they are, the
/// result is `localized` of them.
pub fn localize(records: &Vec<CivilInterval>) -> (entries: Vec<WorkInterval>)
    ensures
        exists|answers: Seq<ZoneAnswer>|
            answers_fit(records@, answers) && entries@ == #[trigger] localized(answers),
{
    let mut entries: Vec<WorkInterval> = Vec::new();
    let ghost mut answers: Seq<ZoneAnswer> = Seq::empty();
    let mut i: usize = 0;
    while i < records.len()
        invariant
            i <= records.len(),
            answers_fit(records@.take(i as int), answers),
            entries@ == localized(answers),
        decreases records.len() - i,
    {
        let answer = ZoneAnswer {
            start: local_candidates(records[i].start),
            end: local_candidates(records[i].end),
        };
        proof {
            let longer = answers.push(answer);
            assert(longer.drop_last() =~= answers);
            assert forall|k: int| 0 <= k < i + 1 implies (#[trigger] longer[k]).reads(
                records@.take(i + 1)[k],
            ) by {
                if k < i {
                    assert(answers[k].reads(records@.take(i as int)[k]));
                }
            }
            answers = longer;
        }
        match answer.to_interval() {
            Some(w) => {
                entries.push(w);
            },
            None => {},
        }
        i = i + 1;
    }
    assert(records@.take(i as int) =~= records@);
    entries
}

/// Reads the work intervals of a log.
///
/// A line is a record if it starts with `[`, holds a `]`, and has two
/// dates and times between them, on either side of a ` ~ `. Every other
/// line is left out, and so is a record with a time that the local clock
/// skipped. A time that the local clock showed twice stands for its
/// earlier occurrence.
pub fn parse_log_entries(log: &str) -> (entries: Vec<WorkInterval>)
    ensures
        exists|answers: Seq<ZoneAnswer>|
            answers_fit(log_records(log@), answers) && entries@ == #[trigger] localized(answers),
{
    let records = parse_log_records(log);
    localize(&records)
}

/// The line of the log for an interval whose start and end are written as
/// `start_text` and `end_text` and which lasted `seconds`.
pub open spec fn log_line(start_text: Seq<char>, end_text: Seq<char>, seconds: int) -> Seq<char> {
    seq!['['] + start_text + separator() + end_text + "] You worked for "@ + minutes_text(seconds)
        + " minutes\n"@
}

/// The wall-clock reading of `t`, where an `i64` holds it.
pub open spec fn civil_of(t: LocalTimestamp) -> Option<i64> {
    if i64::MIN <= t.civil() <= i64::MAX {
        Some(t.civil() as i64)
    } else {
        None
    }
}

/// The text of the wall-clock reading of `t`, for a timestamp within the
/// years that can be written.
pub open spec fn timestamp_text(t: LocalTimestamp) -> Option<Seq<char>> {
    match civil_of(t) {
        Some(civil) => naive_text(civil),
        None => None,
    }
}

/// The line of the log for `interval`, if both of its ends can be written.
pub open spec fn interval_line(interval: WorkInterval) -> Option<Seq<char>> {
    match (timestamp_text(interval.start), timestamp_text(interval.end)) {
        (Some(start_text), Some(end_text)) => Some(
            log_line(start_text, end_text, interval.length()),
        ),
        _ => None,
    }
}

/// Writes one line of the log from the texts of its two times and the
/// seconds between them.
pub fn format_log_line(start_text: &str, end_text: &str, seconds: i128) -> (line: String)
    requires
        -0x1_0000_0000_0000_0000 <= seconds <= 0x1_0000_0000_0000_0000,
    ensures
        line@ == log_line(start_text@, end_text@, seconds as int),
{
    let mut line = String::from_str("[");
    proof {
        reveal_strlit("[");
        assert(line@ =~= seq!['[']);
    }
    line.append(start_text);
    line.append(" ~ ");
    proof {
        reveal_strlit(" ~ ");
        assert(" ~ "@ =~= separator());
    }
    line.append(end_text);
    line.append("] You worked for ");
    push_minutes(&mut line, seconds);
    line.append(" minutes\n");
    line
}

/// The text of the wall-clock reading of `t`.
pub fn write_timestamp(t: LocalTimestamp) -> (text: Option<String>)
    ensures
        match text {
            Some(s) => timestamp_text(t) == Some(s@),
            None => timestamp_text(t) is None,
        },
{
    let civil: i128 = t.instant as i128 + t.offset as i128;
    if civil < i64::MIN as i128 || civil > i64::MAX as i128 {
        None
    } else {
        write_naive_datetime(civil as i64)
    }
}

/// The line to append to the log for `interval`: both times on the local
/// clock, and the time between them in minutes.
///
/// There is no line for an interval with an end outside the years that can
/// be written.
pub fn log_record(interval: &WorkInterval) -> (line: Option<String>)
    ensures
        match line {
            Some(s) => interval_line(*interval) == Some(s@),
            None => interval_line(*interval) is None,
        },
{
    let start_text = match write_timestamp(interval.start) {
        Some(text) => text,
        None => { return None; },
    };
    let end_text = match write_timestamp(interval.end) {
        Some(text) => text,
        None => { return None; },
    };
    let seconds: i128 = interval.end.instant as i128 - interval.start.instant as i128;
    Some(format_log_line(start_text.as_str(), end_text.as_str(), seconds))
}

/// A text that holds none of the characters that frame a record or end a
/// line.
pub open spec fn is_plain(text: Seq<char>) -> bool {
    forall|i: int|
        0 <= i < text.len() ==> (#[trigger] text[i]) != ']' && text[i] != '~' && text[i] != '\n'
}

/// Two texts framed as a record: in brackets, with the separator between
/// them.
pub open spec fn framed(first: Seq<char>, second: Seq<char>) -> Seq<char> {
    seq!['['] + first + separator() + second + seq![']']
}

/// What is framed is found again: a line that starts with two plain texts
/// framed as a record gives these two texts back, whatever follows the
/// closing bracket.
pub proof fn lemma_framed_texts(first: Seq<char>, second: Seq<char>, tail: Seq<char>)
    requires
        is_plain(first),
        is_plain(second),
    ensures
        record_texts(framed(first, second) + tail) == Some((first, second)),
{
    let line = framed(first, second) + tail;
    let sep = separator();
    let close: int = 1int + first.len() + 3 + second.len();
    let bracket = seq![']'];
    assert(line[0] == '[');
    assert(line.subrange(close, close + 1) =~= bracket);
    assert forall|j: int| 0 <= j < close implies !occurs_at(line, bracket, j) by {
        if occurs_at(line, bracket, j) {
            assert(line.subrange(j, j + 1)[0] == ']');
            if 1 <= j < 1 + first.len() {
                assert(line[j] == first[j - 1]);
            } else if 1 + first.len() + 3 <= j {
                assert(line[j] == second[j - 4 - first.len()]);
            }
        }
    }
    lemma_first_occurrence(line, bracket, close);
    let payload = line.subrange(1, close);
    assert(payload =~= first + sep + second);
    assert(record_payload(line) == Some(payload));
    let at = first.len() as int;
    assert(payload.subrange(at, at + 3) =~= sep);
    assert forall|j: int| 0 <= j < at implies !occurs_at(payload, sep, j) by {
        if occurs_at(payload, sep, j) {
            assert(payload.subrange(j, j + 3)[1] == '~');
            if j + 1 < at {
                assert(payload[j + 1] == first[j + 1]);
            }
        }
    }
    lemma_first_occurrence(payload, sep, at);
    let rest = payload.subrange(at + 3, payload.len() as int);
    assert(rest =~= second);
    assert forall|j: int| !occurs_at(second, sep, j) by {
        if occurs_at(second, sep, j) {
            assert(second.subrange(j, j + 3)[1] == '~');
        }
    }
    lemma_no_occurrence(second, sep);
    assert(payload.subrange(0, at) =~= first);
}

/// A text that is empty or ends in a line feed: a log to which only whole
/// lines were written.
pub open spec fn ends_lines(log: Seq<char>) -> bool {
    log.len() == 0 || log.last() == '\n'
}

/// What is appended to a log of whole lines adds its own lines and leaves
/// the lines before it as they are.
pub proof fn lemma_lines_append(log: Seq<char>, more: Seq<char>)
    requires
        ends_lines(log),
    ensures
        lines_of(log + more) == lines_of(log) + lines_of(more),
    decreases log.len(),
{
    if log.len() == 0 {
        assert(log + more =~= more);
        assert(lines_of(log) + lines_of(more) =~= lines_of(more));
    } else {
        let feed = seq!['\n'];
        let whole = log + more;
        assert(log.subrange(log.len() - 1, log.len() as int) =~= feed);
        crate::text::lemma_first_occurrence_exists(log, feed, log.len() - 1);
        let at = first_occurrence(log, feed)->0;
        assert(is_first_occurrence(log, feed, at));
        assert(0 <= at < log.len());
        assert(whole.subrange(at, at + 1) =~= log.subrange(at, at + 1));
        assert forall|j: int| 0 <= j < at implies !occurs_at(whole, feed, j) by {
            assert(!occurs_at(log, feed, j));
            assert(whole.subrange(j, j + 1) =~= log.subrange(j, j + 1));
        }
        lemma_first_occurrence(whole, feed, at);
        assert(whole.take(at) =~= log.take(at));
        assert(whole.skip(at + 1) =~= log.skip(at + 1) + more);
        lemma_lines_append(log.skip(at + 1), more);
        assert(seq![log.take(at)] + (lines_of(log.skip(at + 1)) + lines_of(more)) =~= (seq![
            log.take(at),
        ] + lines_of(log.skip(at + 1))) + lines_of(more));
    }
}

/// The records of two sequences of lines, one after the other, are the
/// records of the first and then those of the second.
pub proof fn lemma_records_in_append(lines: Seq<Seq<char>>, more: Seq<Seq<char>>)
    ensures
        records_in(lines + more) == records_in(lines) + records_in(more),
    decreases lines.len(),
{
    if lines.len() == 0 {
        assert(lines + more =~= more);
        assert(records_in(lines) + records_in(more) =~= records_in(more));
    } else {
        let all = lines + more;
        assert(all.first() == lines.first());
        assert(all.drop_first() =~= lines.drop_first() + more);
        lemma_records_in_append(lines.drop_first(), more);
        let rest = records_in(lines.drop_first());
        match line_record(lines.first()) {
            Some(record) => {
                assert(seq![record] + (rest + records_in(more)) =~= (seq![record] + rest)
                    + records_in(more));
            },
            None => {},
        }
    }
}

/// The log only grows: what is appended to a log of whole lines adds its
/// own records behind those that the log held before.
pub proof fn lemma_log_append(log: Seq<char>, more: Seq<char>)
    requires
        ends_lines(log),
    ensures
        log_records(log + more) == log_records(log) + log_records(more),
{
    lemma_lines_append(log, more);
    lemma_records_in_append(lines_of(log), lines_of(more));
}

/// What the writer writes, the reader finds: the line for two plain texts
/// is one line, it ends the log in a whole line again, and it holds the
/// record of these two texts if both read as a date and time.
pub proof fn lemma_log_line_reads_back(start_text: Seq<char>, end_text: Seq<char>, seconds: int)
    requires
        is_plain(start_text),
        is_plain(end_text),
    ensures
        ends_lines(log_line(start_text, end_text, seconds)),
        lines_of(log_line(start_text, end_text, seconds)) == seq![
            log_line(start_text, end_text, seconds).drop_last(),
        ],
        record_texts(log_line(start_text, end_text, seconds).drop_last()) == Some(
            (start_text, end_text),
        ),
        log_records(log_line(start_text, end_text, seconds)) == match (
            naive_seconds(start_text),
            naive_seconds(end_text),
        ) {
            (Ok(start), Ok(end)) => seq![CivilInterval { start, end }],
            _ => Seq::<CivilInterval>::empty(),
        },
{
    reveal_strlit("] You worked for ");
    reveal_strlit(" minutes\n");
    let head = "] You worked for "@;
    let foot = " minutes\n"@;
    let minutes = minutes_text(seconds);
    let text = log_line(start_text, end_text, seconds);
    let line = text.drop_last();
    let feed = seq!['\n'];
    crate::decimal::lemma_minutes_chars(seconds);
    let tail = head.subrange(1, head.len() as int) + minutes + foot.drop_last();
    assert(head =~= seq![']'] + head.subrange(1, head.len() as int));
    assert(line =~= framed(start_text, end_text) + tail);
    lemma_framed_texts(start_text, end_text, tail);
    let n: int = text.len() - 1;
    assert(text.last() == '\n');
    assert(text.subrange(n, n + 1) =~= feed);
    assert forall|j: int| 0 <= j < n implies !occurs_at(text, feed, j) by {
        if occurs_at(text, feed, j) {
            assert(text.subrange(j, j + 1)[0] == '\n');
            lemma_line_has_no_feed(start_text, end_text, seconds, j);
        }
    }
    lemma_first_occurrence(text, feed, n);
    assert(text.take(n) =~= line);
    assert(text.skip(n + 1) =~= Seq::<char>::empty());
    assert(lines_of(text.skip(n + 1)) =~= Seq::<Seq<char>>::empty());
    assert(lines_of(text) =~= seq![line]);
    let lines = seq![line];
    assert(lines.first() == line);
    assert(lines.drop_first() =~= Seq::<Seq<char>>::empty());
    assert(records_in(lines.drop_first()) =~= Seq::<CivilInterval>::empty());
    match line_record(line) {
        Some(record) => {
            assert(seq![record] + Seq::<CivilInterval>::empty() =~= seq![record]);
        },
        None => {},
    }
}

/// No line feed stands in a line of the log before its end.
pub proof fn lemma_line_has_no_feed(
    start_text: Seq<char>,
    end_text: Seq<char>,
    seconds: int,
    j: int,
)
    requires
        is_plain(start_text),
        is_plain(end_text),
        0 <= j < log_line(start_text, end_text, seconds).len() - 1,
    ensures
        log_line(start_text, end_text, seconds)[j] != '\n',
{
    reveal_strlit("] You worked for ");
    reveal_strlit(" minutes\n");
    let head = "] You worked for "@;
    let foot = " minutes\n"@;
    let minutes = minutes_text(seconds);
    crate::decimal::lemma_minutes_chars(seconds);
    let a: int = 1int + start_text.len();
    let b: int = a + 3;
    let c: int = b + end_text.len();
    let d: int = c + head.len();
    let e: int = d + minutes.len();
    let text = log_line(start_text, end_text, seconds);
    if j < 1 {
    } else if j < a {
        assert(text[j] == start_text[j - 1]);
    } else if j < b {
        assert(text[j] == separator()[j - a]);
    } else if j < c {
        assert(text[j] == end_text[j - b]);
    } else if j < d {
        assert(text[j] == head[j - c]);
    } else if j < e {
        assert(text[j] == minutes[j - d]);
    } else {
        assert(text[j] == foot[j - e]);
    }
}

} // verus!
