//! The two grammars of a test binary's output: plain text lines as the
//! standard test harness prints them, and one JSON object per line.

use vstd::prelude::*;
use crate::error::Error;
use crate::json::{
    get_rendered, get_string, get_unsigned, json_document, json_parse, rendered_member,
    string_member, unsigned_member,
};
use crate::test::TestStatus;
use crate::text::{
    decimal_value, digits_end, find_from, first_match_from, is_digit, is_prefix_at,
    lemma_first_match_from, matches_at, opt_text, parse_digits, scan_digits, scan_token,
    starts_with, str_eq, string_of_range, to_chars, token_end, trim, trimmed, string_of,
};
use crate::types::{LineEvent, SourceLocation, SourceLocationView, TestOutputLine, opt_line_view};

verus! {

/// The status that the word at index `at` of `s` stands for: `ok`,
/// `FAILED` or `ignored`.
pub open spec fn status_word(s: Seq<char>, at: int) -> Option<TestStatus> {
    if is_prefix_at(s, "ok"@, at) {
        Some(TestStatus::Passed)
    } else if is_prefix_at(s, "FAILED"@, at) {
        Some(TestStatus::Failed)
    } else if is_prefix_at(s, "ignored"@, at) {
        Some(TestStatus::Skipped)
    } else {
        None
    }
}

/// What a line of the shape `test <name> ... <status>` says. The name ends
/// at the first space after `test `; what follows the status word is not
/// read.
pub open spec fn result_line(line: Seq<char>) -> Option<LineEvent> {
    let start = "test "@.len() as int;
    if !starts_with(line, "test "@) {
        None
    } else {
        match first_match_from(line, " "@, start) {
            None => None,
            Some(space) => if !is_prefix_at(line, " ... "@, space) {
                None
            } else {
                match status_word(line, space + " ... "@.len()) {
                    Some(status) => Some(
                        LineEvent::TestResult {
                            name: line.subrange(start, space),
                            status,
                            duration_ms: None,
                        },
                    ),
                    None => None,
                }
            },
        }
    }
}

/// What a line of the shape `test <name>` says. The name is what stands
/// between `test ` and the next white space, and is not empty.
pub open spec fn start_line(line: Seq<char>) -> Option<LineEvent> {
    let start = "test "@.len() as int;
    if !starts_with(line, "test "@) || token_end(line, start) == start {
        None
    } else {
        Some(LineEvent::TestStart { name: line.subrange(start, token_end(line, start)) })
    }
}

/// The count that a run of digits stands for: its value, or zero where the
/// value does not fit the machine's word.
pub open spec fn count_of(digits: Seq<char>) -> usize {
    if decimal_value(digits) <= usize::MAX {
        decimal_value(digits) as usize
    } else {
        0
    }
}

/// What a line of the shape `running <N> test` says.
pub open spec fn suite_line(line: Seq<char>) -> Option<LineEvent> {
    let start = "running "@.len() as int;
    let end = digits_end(line, start);
    if !starts_with(line, "running "@) || end == start || !is_prefix_at(line, " test"@, end) {
        None
    } else {
        Some(LineEvent::SuiteStart { count: count_of(line.subrange(start, end)) })
    }
}

/// What a line says in the text grammar: a result, else a start, else the
/// announcement of a suite; `None` where it is none of them.
pub open spec fn text_event(line: Seq<char>) -> Option<LineEvent> {
    if result_line(line) is Some {
        result_line(line)
    } else if start_line(line) is Some {
        start_line(line)
    } else {
        suite_line(line)
    }
}

/// What a panic group says: a header of the shape
/// `thread '<test>' panicked at <file>:<line>:<column>:`, a line break, and
/// the message, which is the rest without the white space at its ends. The
/// line and the column must fit 32 bits.
pub open spec fn panic_event(group: Seq<char>) -> Option<LineEvent> {
    let name_start = "thread '"@.len() as int;
    if !starts_with(group, "thread '"@) {
        None
    } else {
        match first_match_from(group, "'"@, name_start) {
            None => None,
            Some(quote) => if !is_prefix_at(group, "' panicked at "@, quote) {
                None
            } else {
                let file_start = quote + "' panicked at "@.len();
                match first_match_from(group, ":"@, file_start) {
                    None => None,
                    Some(colon) => panic_location(
                        group,
                        group.subrange(name_start, quote),
                        group.subrange(file_start, colon),
                        colon + ":"@.len(),
                    ),
                }
            },
        }
    }
}

/// The rest of a panic group from the line number on: `<line>:<column>:`,
/// a line break and the message.
pub open spec fn panic_location(
    group: Seq<char>,
    test: Seq<char>,
    file: Seq<char>,
    line_start: int,
) -> Option<LineEvent> {
    let line_end = digits_end(group, line_start);
    let column_start = line_end + ":"@.len();
    let column_end = digits_end(group, column_start);
    let line = decimal_value(group.subrange(line_start, line_end));
    let column = decimal_value(group.subrange(column_start, column_end));
    if line_end == line_start || !is_prefix_at(group, ":"@, line_end) || column_end == column_start
        || !is_prefix_at(group, ":\n"@, column_end) || line > u32::MAX || column > u32::MAX {
        None
    } else {
        Some(
            LineEvent::Panic {
                message: trim(group.skip(column_end + ":\n"@.len())),
                test,
                location: Some(
                    SourceLocationView { file, line: line as u32, column: column as u32 },
                ),
            },
        )
    }
}

/// The parser of the text grammar.
#[derive(Debug, Clone, Copy)]
pub struct StandardLineParser;

impl StandardLineParser {
    fn status_at(line: &Vec<char>, at: usize) -> (r: Option<TestStatus>)
        ensures
            r == status_word(line@, at as int),
    {
        let ok = to_chars("ok");
        let failed = to_chars("FAILED");
        let ignored = to_chars("ignored");
        if matches_at(line, &ok, at) {
            Some(TestStatus::Passed)
        } else if matches_at(line, &failed, at) {
            Some(TestStatus::Failed)
        } else if matches_at(line, &ignored, at) {
            Some(TestStatus::Skipped)
        } else {
            None
        }
    }

    /// Reads a line of the shape `test <name> ... ok|FAILED|ignored`.
    pub fn parse_test_result(input: &str) -> (r: Option<TestOutputLine>)
        ensures
            opt_line_view(r) == result_line(input@),
    {
        let line = to_chars(input);
        let head = to_chars("test ");
        let space = to_chars(" ");
        let dots = to_chars(" ... ");
        if !matches_at(&line, &head, 0) {
            return None;
        }
        let start: usize = head.len();
        match find_from(&line, &space, start) {
            None => None,
            Some(sp) => {
                proof {
                    lemma_first_match_from(line@, space@, start as int);
                }
                if !matches_at(&line, &dots, sp) {
                    return None;
                }
                assert(sp + dots.len() <= line.len());
                match Self::status_at(&line, sp + dots.len()) {
                    Some(status) => Some(
                        TestOutputLine::TestResult {
                            name: string_of_range(&line, start, sp),
                            status,
                            duration_ms: None,
                        },
                    ),
                    None => None,
                }
            },
        }
    }

    /// Reads a line of the shape `test <name>`.
    pub fn parse_test_start(input: &str) -> (r: Option<TestOutputLine>)
        ensures
            opt_line_view(r) == start_line(input@),
    {
        let line = to_chars(input);
        let head = to_chars("test ");
        if !matches_at(&line, &head, 0) {
            return None;
        }
        let start: usize = head.len();
        let end: usize = scan_token(&line, start);
        if end == start {
            None
        } else {
            Some(TestOutputLine::TestStart { name: string_of_range(&line, start, end) })
        }
    }

    /// Reads a line of the shape `running <N> test`.
    pub fn parse_suite_start(input: &str) -> (r: Option<TestOutputLine>)
        ensures
            opt_line_view(r) == suite_line(input@),
    {
        let line = to_chars(input);
        let head = to_chars("running ");
        let tail = to_chars(" test");
        if !matches_at(&line, &head, 0) {
            return None;
        }
        let start: usize = head.len();
        let end: usize = scan_digits(&line, start);
        if end == start || !matches_at(&line, &tail, end) {
            return None;
        }
        let count: usize = match parse_digits(&line, start, end) {
            Some(n) => if n <= usize::MAX as u64 {
                n as usize
            } else {
                0
            },
            None => 0,
        };
        Some(TestOutputLine::SuiteStart { count })
    }

    /// Reads one line of standard output in the text grammar: a result, else
    /// a start, else the announcement of a suite.
    pub fn parse_test_output(input: &str) -> (r: Option<TestOutputLine>)
        ensures
            opt_line_view(r) == text_event(input@),
    {
        match Self::parse_test_result(input) {
            Some(event) => Some(event),
            None => match Self::parse_test_start(input) {
                Some(event) => Some(event),
                None => Self::parse_suite_start(input),
            },
        }
    }

    /// Reads a panic group: the header line and the message that follows it.
    pub fn parse_panic(input: &str) -> (r: Option<TestOutputLine>)
        ensures
            opt_line_view(r) == panic_event(input@),
    {
        let group = to_chars(input);
        let head = to_chars("thread '");
        let quote = to_chars("'");
        let mid = to_chars("' panicked at ");
        let colon = to_chars(":");
        let tail = to_chars(":\n");
        if !matches_at(&group, &head, 0) {
            return None;
        }
        let name_start: usize = head.len();
        let q: usize = match find_from(&group, &quote, name_start) {
            None => {
                return None;
            },
            Some(q) => q,
        };
        proof {
            lemma_first_match_from(group@, quote@, name_start as int);
        }
        if !matches_at(&group, &mid, q) {
            return None;
        }
        let file_start: usize = q + mid.len();
        let c: usize = match find_from(&group, &colon, file_start) {
            None => {
                return None;
            },
            Some(c) => c,
        };
        proof {
            lemma_first_match_from(group@, colon@, file_start as int);
        }
        assert(c + colon.len() <= group.len());
        let line_start: usize = c + colon.len();
        let line_end: usize = scan_digits(&group, line_start);
        if line_end == line_start || !matches_at(&group, &colon, line_end) {
            return None;
        }
        let column_start: usize = line_end + colon.len();
        let column_end: usize = scan_digits(&group, column_start);
        if column_end == column_start || !matches_at(&group, &tail, column_end) {
            return None;
        }
        let line: u32 = match parse_digits(&group, line_start, line_end) {
            Some(n) => if n <= u32::MAX as u64 {
                n as u32
            } else {
                return None;
            },
            None => {
                return None;
            },
        };
        let column: u32 = match parse_digits(&group, column_start, column_end) {
            Some(n) => if n <= u32::MAX as u64 {
                n as u32
            } else {
                return None;
            },
            None => {
                return None;
            },
        };
        let mut rest: Vec<char> = Vec::new();
        let mut i: usize = column_end + tail.len();
        while i < group.len()
            invariant
                column_end + tail.len() <= i <= group.len(),
                rest@ == group@.subrange(column_end + tail.len(), i as int),
            decreases group.len() - i,
        {
            rest.push(group[i]);
            i += 1;
            assert(rest@ =~= group@.subrange(column_end + tail.len(), i as int));
        }
        assert(rest@ =~= group@.skip(column_end + tail.len()));
        let message = trimmed(&rest);
        Some(
            TestOutputLine::Panic {
                message: string_of(&message),
                test: string_of_range(&group, name_start, q),
                location: Some(
                    SourceLocation { file: string_of_range(&group, file_start, c), line, column },
                ),
            },
        )
    }

    /// Reads what the error stream holds: a panic group. What is no panic
    /// group is an error.
    pub fn parse_error_output(input: &str) -> (r: Result<TestOutputLine, Error>)
        ensures
            match r {
                Ok(event) => panic_event(input@) == Some(event@),
                Err(e) => panic_event(input@) is None && e@.kind
                    == crate::error::ErrorKind::TestExecution,
            },
    {
        match Self::parse_panic(input) {
            Some(event) => Ok(event),
            None => Err(Error::test_execution("not a panic report")),
        }
    }
}

} // verus!

verus! {

/// The digit at index `i` of `frac` as a number; zero past its end.
pub open spec fn digit_at(frac: Seq<char>, i: int) -> nat {
    if 0 <= i < frac.len() {
        crate::text::digit_value(frac[i])
    } else {
        0
    }
}

/// The thousandths that the digits of a fraction stand for: its first three
/// digits, with zeros where it has fewer. Further digits are cut off.
pub open spec fn fraction_millis(frac: Seq<char>) -> nat {
    digit_at(frac, 0) * 100 + digit_at(frac, 1) * 10 + digit_at(frac, 2)
}

/// `whole` seconds and `frac` thousandths as milliseconds, where they fit
/// 64 bits.
pub open spec fn millis_total(whole: nat, frac: nat) -> Option<u64> {
    if whole * 1000 + frac <= u64::MAX {
        Some((whole * 1000 + frac) as u64)
    } else {
        None
    }
}

/// The milliseconds that a number of seconds stands for, written as digits
/// with an optional fraction (`12` or `0.01`). Text of another shape, a
/// sign or an exponent among it, stands for no duration.
pub open spec fn seconds_as_millis(text: Seq<char>) -> Option<u64> {
    let whole_end = digits_end(text, 0);
    let whole = decimal_value(text.subrange(0, whole_end));
    let frac_end = digits_end(text, whole_end + 1);
    if whole_end == 0 {
        None
    } else if whole_end == text.len() {
        millis_total(whole, 0)
    } else if text[whole_end] != '.' || frac_end == whole_end + 1 || frac_end != text.len() {
        None
    } else {
        millis_total(whole, fraction_millis(text.subrange(whole_end + 1, frac_end)))
    }
}

/// The number that the digit at index `at` of `s` stands for; zero where
/// `at` is `end` or beyond.
fn digit_or_zero(s: &Vec<char>, from: usize, end: usize, k: usize) -> (d: u64)
    requires
        from <= end <= s.len(),
        k <= 2,
        forall|j: int| from <= j < end ==> is_digit(#[trigger] s@[j]),
    ensures
        d == digit_at(s@.subrange(from as int, end as int), k as int),
        d <= 9,
{
    if k < end - from {
        (s[from + k] as u32 - '0' as u32) as u64
    } else {
        0
    }
}

/// The milliseconds that a number of seconds, written in decimal, stands for.
pub fn parse_seconds(text: &str) -> (r: Option<u64>)
    ensures
        r == seconds_as_millis(text@),
{
    let s = to_chars(text);
    let whole_end: usize = scan_digits(&s, 0);
    if whole_end == 0 {
        return None;
    }
    let whole: Option<u64> = parse_digits(&s, 0, whole_end);
    let mut frac: u64 = 0;
    if whole_end < s.len() {
        if s[whole_end] != '.' {
            return None;
        }
        let frac_end: usize = scan_digits(&s, whole_end + 1);
        if frac_end == whole_end + 1 || frac_end != s.len() {
            return None;
        }
        let a: u64 = digit_or_zero(&s, whole_end + 1, frac_end, 0);
        let b: u64 = digit_or_zero(&s, whole_end + 1, frac_end, 1);
        let c: u64 = digit_or_zero(&s, whole_end + 1, frac_end, 2);
        frac = a * 100 + b * 10 + c;
    }
    match whole {
        None => None,
        Some(w) => {
            if w > (u64::MAX - frac) / 1000 {
                None
            } else {
                Some(w * 1000 + frac)
            }
        },
    }
}

/// The members of a JSON line that the structured grammar reads.
#[derive(Debug)]
pub struct JsonRecord {
    /// The member `type`, where it is a string.
    pub kind: Option<String>,
    /// The member `event`, where it is a string.
    pub event: Option<String>,
    /// The member `name`, where it is a string.
    pub name: Option<String>,
    /// The member `test_count`, where it is an unsigned number.
    pub test_count: Option<u64>,
    /// The member `exec_time`, as the JSON text it was written in.
    pub exec_time: Option<String>,
}

/// The mathematical content of a [`JsonRecord`].
pub ghost struct JsonRecordView {
    pub kind: Option<Seq<char>>,
    pub event: Option<Seq<char>>,
    pub name: Option<Seq<char>>,
    pub test_count: Option<u64>,
    pub exec_time: Option<Seq<char>>,
}

impl View for JsonRecord {
    type V = JsonRecordView;

    open spec fn view(&self) -> JsonRecordView {
        JsonRecordView {
            kind: opt_text(self.kind),
            event: opt_text(self.event),
            name: opt_text(self.name),
            test_count: self.test_count,
            exec_time: opt_text(self.exec_time),
        }
    }
}

/// The record that a decoded JSON document holds.
pub open spec fn record_of(value: serde_json::Value) -> JsonRecordView {
    JsonRecordView {
        kind: string_member(value, "type"@),
        event: string_member(value, "event"@),
        name: string_member(value, "name"@),
        test_count: unsigned_member(value, "test_count"@),
        exec_time: rendered_member(value, "exec_time"@),
    }
}

/// The count that a suite announced: the member's value, cut to the
/// machine's word where it is wider, or zero where the line has none.
pub open spec fn announced_count(test_count: Option<u64>) -> usize {
    match test_count {
        Some(n) => n as usize,
        None => 0,
    }
}

/// The duration that a result line reported, in milliseconds.
pub open spec fn reported_millis(exec_time: Option<Seq<char>>) -> Option<u64> {
    match exec_time {
        Some(text) => seconds_as_millis(text),
        None => None,
    }
}

/// What a record says in the structured grammar. `type` and `event` select
/// the event; a test event needs a `name`; `exec_time`, in seconds, gives
/// the duration of a passed or failed test.
pub open spec fn structured_event(record: JsonRecordView) -> Option<LineEvent> {
    if record.kind is None || record.event is None {
        None
    } else if record.kind->0 == "suite"@ && record.event->0 == "started"@ {
        Some(LineEvent::SuiteStart { count: announced_count(record.test_count) })
    } else if record.kind->0 != "test"@ || record.name is None {
        None
    } else if record.event->0 == "started"@ {
        Some(LineEvent::TestStart { name: record.name->0 })
    } else if record.event->0 == "ok"@ {
        Some(
            LineEvent::TestResult {
                name: record.name->0,
                status: TestStatus::Passed,
                duration_ms: reported_millis(record.exec_time),
            },
        )
    } else if record.event->0 == "failed"@ {
        Some(
            LineEvent::TestResult {
                name: record.name->0,
                status: TestStatus::Failed,
                duration_ms: reported_millis(record.exec_time),
            },
        )
    } else if record.event->0 == "ignored"@ {
        Some(
            LineEvent::TestResult {
                name: record.name->0,
                status: TestStatus::Skipped,
                duration_ms: None,
            },
        )
    } else {
        None
    }
}

/// What a line says in the structured grammar, where it is a JSON document.
pub open spec fn json_event(line: Seq<char>) -> Option<LineEvent> {
    match json_document(line) {
        Ok(value) => structured_event(record_of(value)),
        Err(_) => None,
    }
}

/// What a line of standard output says: what the structured grammar reads
/// in it, else what the text grammar reads in it, else nothing.
pub open spec fn line_event(line: Seq<char>) -> Option<LineEvent> {
    if json_event(line) is Some {
        json_event(line)
    } else {
        text_event(line)
    }
}

/// The parser of the structured grammar.
#[derive(Debug, Clone, Copy)]
pub struct JsonLineParser;

impl JsonLineParser {
    /// The members of `value` that the grammar reads.
    pub fn read_record(value: &serde_json::Value) -> (r: JsonRecord)
        ensures
            r@ == record_of(*value),
    {
        JsonRecord {
            kind: get_string(value, "type"),
            event: get_string(value, "event"),
            name: get_string(value, "name"),
            test_count: get_unsigned(value, "test_count"),
            exec_time: get_rendered(value, "exec_time"),
        }
    }

    fn duration_of(exec_time: &Option<String>) -> (r: Option<u64>)
        ensures
            r == reported_millis(opt_text(*exec_time)),
    {
        match exec_time {
            Some(text) => parse_seconds(text.as_str()),
            None => None,
        }
    }

    /// What a record says.
    pub fn event_of(record: JsonRecord) -> (r: Option<TestOutputLine>)
        ensures
            opt_line_view(r) == structured_event(record@),
    {
        let duration = Self::duration_of(&record.exec_time);
        let JsonRecord { kind, event, name, test_count, exec_time: _ } = record;
        let (kind, event) = match (kind, event) {
            (Some(k), Some(e)) => (k, e),
            _ => {
                return None;
            },
        };
        if str_eq(kind.as_str(), "suite") && str_eq(event.as_str(), "started") {
            let count: usize = match test_count {
                Some(n) => #[verifier::truncate]
                (n as usize),
                None => 0,
            };
            return Some(TestOutputLine::SuiteStart { count });
        }
        if !str_eq(kind.as_str(), "test") {
            return None;
        }
        let name = match name {
            Some(n) => n,
            None => {
                return None;
            },
        };
        if str_eq(event.as_str(), "started") {
            Some(TestOutputLine::TestStart { name })
        } else if str_eq(event.as_str(), "ok") {
            Some(
                TestOutputLine::TestResult { name, status: TestStatus::Passed, duration_ms: duration },
            )
        } else if str_eq(event.as_str(), "failed") {
            Some(
                TestOutputLine::TestResult { name, status: TestStatus::Failed, duration_ms: duration },
            )
        } else if str_eq(event.as_str(), "ignored") {
            Some(TestOutputLine::TestResult { name, status: TestStatus::Skipped, duration_ms: None })
        } else {
            None
        }
    }

    /// Reads one line of standard output in the structured grammar. A line
    /// that is no JSON document is an error; a document that the grammar
    /// does not know says nothing.
    pub fn parse_test_output(input: &str) -> (r: Result<Option<TestOutputLine>, Error>)
        ensures
            match r {
                Ok(event) => json_document(input@) is Ok && opt_line_view(event)
                    == structured_event(record_of(json_document(input@)->Ok_0)),
                Err(e) => json_document(input@) is Err && e@ == (crate::error::ErrorView {
                    kind: crate::error::ErrorKind::Serialization,
                    stage: Seq::empty(),
                    message: json_document(input@)->Err_0,
                }),
            },
    {
        match json_parse(input) {
            Ok(value) => Ok(Self::event_of(Self::read_record(&value))),
            Err(words) => Err(Error::serialization(words.as_str())),
        }
    }
}

/// Reads one line of standard output: in the structured grammar where that
/// gives an event, else in the text grammar. A line that neither grammar
/// knows is dropped.
pub fn parse_line(line: &str) -> (r: Option<TestOutputLine>)
    ensures
        opt_line_view(r) == line_event(line@),
{
    match JsonLineParser::parse_test_output(line) {
        Ok(Some(event)) => Some(event),
        _ => StandardLineParser::parse_test_output(line),
    }
}

} // verus!
