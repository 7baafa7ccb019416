//! The older, line-by-line reading of a test binary's output: lines are
//! gathered, a finished test is read off a line by its words, and the
//! context of a panic is searched in the gathered lines.

use vstd::prelude::*;
use vstd::string::StringExecFns;
use crate::error::Error;
use crate::ids::new_id;
use crate::names::{format_mod_name, mod_name};
use crate::outcome::{bare_metadata, create_suite_result, plain_failure};
use crate::suite::{SuiteResult, result_views};
use crate::test::{TestMetadata, TestResult, TestStatus};
use crate::text::{
    char_is_whitespace, contains, find, first_match, has_match, is_whitespace,
    lemma_first_match_from, matches_at, push_char, starts_with, str_contains, str_eq,
    str_starts_with, string_of, texts, to_chars, trim, trimmed,
};
use crate::types::ProcessOutput;
use crate::utils::line_number;

verus! {

/// The words of `s`: what stands between white space, in order.
pub open spec fn words(s: Seq<char>) -> Seq<Seq<char>>
    decreases s.len(),
{
    if s.len() == 0 {
        Seq::empty()
    } else if is_whitespace(s.last()) {
        words(s.drop_last())
    } else if s.len() >= 2 && !is_whitespace(s[s.len() - 2]) {
        words(s.drop_last()).drop_last().push(words(s.drop_last()).last().push(s.last()))
    } else {
        words(s.drop_last()).push(seq![s.last()])
    }
}

/// The pieces of `s` that colons part, in order; a text without a colon
/// is one piece.
pub open spec fn colon_parts(s: Seq<char>) -> Seq<Seq<char>>
    decreases s.len(),
{
    if s.len() == 0 {
        seq![Seq::empty()]
    } else if s.last() == ':' {
        colon_parts(s.drop_last()).push(Seq::empty())
    } else {
        colon_parts(s.drop_last()).drop_last().push(
            colon_parts(s.drop_last()).last().push(s.last()),
        )
    }
}

/// The index of the last colon of `s`.
pub open spec fn last_colon(s: Seq<char>) -> Option<int>
    decreases s.len(),
{
    if s.len() == 0 {
        None
    } else if s.last() == ':' {
        Some(s.len() - 1)
    } else {
        last_colon(s.drop_last())
    }
}

/// `n` blanks.
pub open spec fn blanks(n: nat) -> Seq<char> {
    Seq::new(n, |i: int| ' ')
}

/// The words of `s`.
pub fn split_words(s: &Vec<char>) -> (r: Vec<Vec<char>>)
    ensures
        r@.len() == words(s@).len(),
        forall|k: int| 0 <= k < r@.len() ==> (#[trigger] r@[k])@ == words(s@)[k],
{
    let mut out: Vec<Vec<char>> = Vec::new();
    let mut current: Vec<char> = Vec::new();
    let mut open = false;
    let mut i: usize = 0;
    proof {
        assert(s@.take(0) =~= Seq::empty());
    }
    while i < s.len()
        invariant
            i <= s.len(),
            open <==> i > 0 && !is_whitespace(s@[i - 1]),
            open ==> words(s@.take(i as int)).len() == out@.len() + 1 && words(
                s@.take(i as int),
            ).last() == current@,
            !open ==> words(s@.take(i as int)).len() == out@.len(),
            forall|k: int| 0 <= k < out@.len() ==> (#[trigger] out@[k])@ == words(
                s@.take(i as int),
            )[k],
        decreases s.len() - i,
    {
        let ghost before = s@.take(i as int);
        let ghost after = s@.take(i + 1);
        proof {
            assert(after.drop_last() =~= before);
            assert(after.last() == s@[i as int]);
            if i > 0 {
                assert(after[after.len() - 2] == s@[i - 1]);
            }
        }
        let c = s[i];
        if char_is_whitespace(c) {
            if open {
                out.push(current);
                current = Vec::new();
                open = false;
            }
        } else {
            if !open {
                current = Vec::new();
                open = true;
                current.push(c);
                assert(current@ =~= seq![c]);
            } else {
                current.push(c);
            }
        }
        i += 1;
    }
    assert(s@.take(i as int) =~= s@);
    if open {
        out.push(current);
    }
    out
}

/// The index of the last colon of `s`.
pub fn find_last_colon(s: &Vec<char>) -> (r: Option<usize>)
    ensures
        match r {
            Some(i) => last_colon(s@) == Some(i as int) && i < s.len(),
            None => last_colon(s@) is None,
        },
{
    let mut i: usize = s.len();
    assert(s@.take(i as int) =~= s@);
    while i > 0
        invariant
            i <= s.len(),
            last_colon(s@) == last_colon(s@.take(i as int)),
        decreases i,
    {
        let ghost prefix = s@.take(i as int);
        assert(prefix.last() == s@[i - 1]);
        assert(prefix.drop_last() =~= s@.take(i - 1));
        if s[i - 1] == ':' {
            return Some(i - 1);
        }
        i -= 1;
    }
    None
}

/// The pieces of `s` that colons part.
pub fn split_colons(s: &Vec<char>) -> (r: Vec<Vec<char>>)
    ensures
        r@.len() == colon_parts(s@).len(),
        forall|k: int| 0 <= k < r@.len() ==> (#[trigger] r@[k])@ == colon_parts(s@)[k],
{
    let mut out: Vec<Vec<char>> = Vec::new();
    let mut current: Vec<char> = Vec::new();
    let mut i: usize = 0;
    proof {
        assert(s@.take(0) =~= Seq::empty());
    }
    while i < s.len()
        invariant
            i <= s.len(),
            colon_parts(s@.take(i as int)).len() == out@.len() + 1,
            colon_parts(s@.take(i as int)).last() == current@,
            forall|k: int| 0 <= k < out@.len() ==> (#[trigger] out@[k])@ == colon_parts(
                s@.take(i as int),
            )[k],
        decreases s.len() - i,
    {
        proof {
            assert(s@.take(i + 1).drop_last() =~= s@.take(i as int));
            assert(s@.take(i + 1).last() == s@[i as int]);
        }
        if s[i] == ':' {
            out.push(current);
            current = Vec::new();
        } else {
            current.push(s[i]);
        }
        i += 1;
    }
    assert(s@.take(i as int) =~= s@);
    out.push(current);
    out
}

/// What the older reading finds in a line.
#[derive(Debug)]
pub enum LegacyLine {
    /// A finished test and the word that tells how it ended.
    Finished { name: String, outcome: String },
    /// The announcement of a number of tests.
    Running { count: usize },
    /// Nothing.
    Other,
}

/// The mathematical content of a [`LegacyLine`].
pub ghost enum LegacyLineView {
    Finished { name: Seq<char>, outcome: Seq<char> },
    Running { count: usize },
    Other,
}

impl View for LegacyLine {
    type V = LegacyLineView;

    open spec fn view(&self) -> LegacyLineView {
        match self {
            LegacyLine::Finished { name, outcome } => LegacyLineView::Finished {
                name: name@,
                outcome: outcome@,
            },
            LegacyLine::Running { count } => LegacyLineView::Running { count: *count },
            LegacyLine::Other => LegacyLineView::Other,
        }
    }
}

/// The first of `list` that stands for a number, from the index `from` on.
pub open spec fn first_number(list: Seq<Seq<char>>, from: int) -> Option<usize>
    decreases list.len() - from,
{
    if from < 0 || from >= list.len() {
        None
    } else if line_number(list[from]) is Some {
        line_number(list[from])
    } else {
        first_number(list, from + 1)
    }
}

/// What the older reading finds in `line`. A line that begins with `test `
/// and holds ` ... ok` or ` ... FAILED` is a finished test where it has
/// four words or more: the second is the test's name, the fourth tells how
/// it ended. Else a line that holds `running` and `test` and a word that
/// is a number announces that many tests.
pub open spec fn legacy_line(line: Seq<char>) -> LegacyLineView {
    if starts_with(line, "test "@) && (contains(line, " ... ok"@) || contains(line, " ... FAILED"@))
        && words(line).len() >= 4 {
        LegacyLineView::Finished { name: words(line)[1], outcome: words(line)[3] }
    } else if contains(line, "running"@) && contains(line, "test"@) && first_number(
        words(line),
        0,
    ) is Some {
        LegacyLineView::Running { count: first_number(words(line), 0)->0 }
    } else {
        LegacyLineView::Other
    }
}

/// The number that the characters `s` stand for; see [`line_number`].
fn number_of(s: &Vec<char>) -> (r: Option<usize>)
    ensures
        r == line_number(s@),
{
    let text = string_of(s);
    match crate::utils::parse_target_line(text.as_str()) {
        Some(n) => Some(n),
        None => None,
    }
}

/// What the older reading finds in `line`.
pub fn classify_line(line: &str) -> (r: LegacyLine)
    ensures
        r@ == legacy_line(line@),
{
    let chars = to_chars(line);
    let list = split_words(&chars);
    if str_starts_with(line, "test ") && (str_contains(line, " ... ok") || str_contains(
        line,
        " ... FAILED",
    )) && list.len() >= 4 {
        return LegacyLine::Finished { name: string_of(&list[1]), outcome: string_of(&list[3]) };
    }
    if str_contains(line, "running") && str_contains(line, "test") {
        let mut i: usize = 0;
        while i < list.len()
            invariant
                i <= list.len(),
                chars@ == line@,
                !(starts_with(line@, "test "@) && (contains(line@, " ... ok"@) || contains(
                    line@,
                    " ... FAILED"@,
                )) && words(line@).len() >= 4),
                contains(line@, "running"@),
                contains(line@, "test"@),
                list@.len() == words(chars@).len(),
                forall|k: int| 0 <= k < list@.len() ==> (#[trigger] list@[k])@ == words(chars@)[k],
                first_number(words(chars@), 0) == first_number(words(chars@), i as int),
            decreases list.len() - i,
        {
            assert(words(chars@)[i as int] == list@[i as int]@);
            match number_of(&list[i]) {
                Some(count) => {
                    assert(first_number(words(chars@), i as int) == Some(count));
                    return LegacyLine::Running { count };
                },
                None => {},
            }
            i += 1;
        }
    }
    LegacyLine::Other
}

/// The status that the word `outcome` of a finished test stands for: `ok`
/// for passed, `FAILED` for failed, every other word for skipped.
pub open spec fn outcome_status(outcome: Seq<char>) -> TestStatus {
    if outcome == "ok"@ {
        TestStatus::Passed
    } else if outcome == "FAILED"@ {
        TestStatus::Failed
    } else {
        TestStatus::Skipped
    }
}

/// The panic context written as a pointer with a caret under the column.
pub open spec fn pointer_text(
    file: Seq<char>,
    line: Seq<char>,
    column: Seq<char>,
    message: Seq<char>,
) -> Seq<char> {
    let indent: nat = match line_number(column) {
        Some(n) => if n > 0 {
            (n - 1) as nat
        } else {
            0
        },
        None => 0,
    };
    "--> "@ + file + ":"@ + line + ":"@ + column + "\n    |\n"@ + line
        + " | <source code placeholder>\n    | "@ + blanks(indent) + "^ "@ + message + "\n    |"@
}

/// What is shown for a failed test of which a location, a message, both or
/// neither were found.
pub open spec fn context_text(
    location: Option<Seq<char>>,
    message: Option<Seq<char>>,
    test_name: Seq<char>,
) -> Seq<char> {
    match (location, message) {
        (Some(loc), Some(msg)) => if colon_parts(loc).len() >= 3 {
            pointer_text(colon_parts(loc)[0], colon_parts(loc)[1], colon_parts(loc)[2], msg)
        } else {
            "--> "@ + loc + "\n    "@ + msg
        },
        (Some(loc), None) => "--> "@ + loc + "\n    Test failed at this location"@,
        (None, Some(msg)) => "Test panicked: "@ + msg,
        (None, None) => "Test '"@ + test_name + "' failed - check test output for details"@,
    }
}

/// Whether a trimmed line reports the panic of the test `test_name`.
pub open spec fn reports_panic_of(line: Seq<char>, test_name: Seq<char>) -> bool {
    contains(line, "panicked at"@) && contains(line, test_name)
}

/// The index of the first line from `from` on that reports the panic of
/// the test; the number of lines where none does.
pub open spec fn panic_line(lines: Seq<Seq<char>>, test_name: Seq<char>, from: int) -> int
    decreases lines.len() - from,
{
    if from < 0 || from >= lines.len() {
        lines.len() as int
    } else if reports_panic_of(trim(lines[from]), test_name) {
        from
    } else {
        panic_line(lines, test_name, from + 1)
    }
}

/// The location that a trimmed panic line names: what stands behind
/// `panicked at ` up to the last colon.
pub open spec fn named_location(line: Seq<char>) -> Option<Seq<char>> {
    match first_match(line, "panicked at "@) {
        Some(at) => match last_colon(line.skip(at + "panicked at "@.len())) {
            Some(colon) => Some(line.skip(at + "panicked at "@.len()).take(colon)),
            None => None,
        },
        None => None,
    }
}

/// The message that follows the panic line at index `at`: the next line,
/// trimmed, unless it is empty or noise.
pub open spec fn following_message(lines: Seq<Seq<char>>, at: int) -> Option<Seq<char>> {
    if at + 1 < lines.len() && trim(lines[at + 1]).len() > 0 && !starts_with(
        trim(lines[at + 1]),
        "note:"@,
    ) && !starts_with(trim(lines[at + 1]), "stack backtrace:"@) {
        Some(trim(lines[at + 1]))
    } else {
        None
    }
}

/// What is shown for the failed test `test_name`, given the lines that the
/// binary wrote.
pub open spec fn error_context(lines: Seq<Seq<char>>, test_name: Seq<char>) -> Seq<char> {
    let at = panic_line(lines, test_name, 0);
    if at < lines.len() {
        context_text(named_location(trim(lines[at])), following_message(lines, at), test_name)
    } else {
        context_text(None, None, test_name)
    }
}

fn push_chars(out: &mut String, chars: &Vec<char>)
    ensures
        final(out)@ == old(out)@ + chars@,
{
    let mut i: usize = 0;
    assert(out@ =~= old(out)@ + chars@.take(0));
    while i < chars.len()
        invariant
            i <= chars.len(),
            out@ == old(out)@ + chars@.take(i as int),
        decreases chars.len() - i,
    {
        push_char(out, chars[i]);
        i += 1;
        assert(out@ =~= old(out)@ + chars@.take(i as int));
    }
    assert(chars@.take(i as int) =~= chars@);
}

fn push_blanks(out: &mut String, n: usize)
    ensures
        final(out)@ == old(out)@ + blanks(n as nat),
{
    let mut i: usize = 0;
    assert(out@ =~= old(out)@ + blanks(0));
    while i < n
        invariant
            i <= n,
            out@ == old(out)@ + blanks(i as nat),
        decreases n - i,
    {
        push_char(out, ' ');
        i += 1;
        assert(out@ =~= old(out)@ + blanks(i as nat));
    }
}

fn render_context(location: &Option<Vec<char>>, message: &Option<Vec<char>>, test_name: &str) -> (r:
    String)
    ensures
        r@ == context_text(
            match location {
                Some(l) => Some(l@),
                None => None,
            },
            match message {
                Some(m) => Some(m@),
                None => None,
            },
            test_name@,
        ),
{
    match (location, message) {
        (Some(loc), Some(msg)) => {
            let parts = split_colons(loc);
            if parts.len() >= 3 {
                let indent: usize = match number_of(&parts[2]) {
                    Some(n) => if n > 0 {
                        n - 1
                    } else {
                        0
                    },
                    None => 0,
                };
                let mut out = String::from_str("--> ");
                push_chars(&mut out, &parts[0]);
                out.append(":");
                push_chars(&mut out, &parts[1]);
                out.append(":");
                push_chars(&mut out, &parts[2]);
                out.append("\n    |\n");
                push_chars(&mut out, &parts[1]);
                out.append(" | <source code placeholder>\n    | ");
                push_blanks(&mut out, indent);
                out.append("^ ");
                push_chars(&mut out, msg);
                out.append("\n    |");
                out
            } else {
                let mut out = String::from_str("--> ");
                push_chars(&mut out, loc);
                out.append("\n    ");
                push_chars(&mut out, msg);
                out
            }
        },
        (Some(loc), None) => {
            let mut out = String::from_str("--> ");
            push_chars(&mut out, loc);
            out.append("\n    Test failed at this location");
            out
        },
        (None, Some(msg)) => {
            let mut out = String::from_str("Test panicked: ");
            push_chars(&mut out, msg);
            out
        },
        (None, None) => {
            let mut out = String::from_str("Test '");
            out.append(test_name);
            out.append("' failed - check test output for details");
            out
        },
    }
}

/// The lines that a test binary wrote, gathered for the older reading.
#[derive(Debug)]
pub struct OutputParser {
    pub output_lines: Vec<String>,
}

impl OutputParser {
    /// A parser that has gathered nothing.
    pub fn new() -> (r: Self)
        ensures
            r.output_lines@.len() == 0,
    {
        OutputParser { output_lines: Vec::new() }
    }

    /// Gathers one more line.
    pub fn push(&mut self, line: String)
        ensures
            texts(final(self).output_lines@) == texts(old(self).output_lines@).push(line@),
    {
        self.output_lines.push(line);
        assert(texts(self.output_lines@) =~= texts(old(self).output_lines@).push(line@));
    }

    /// The lines gathered so far, in the order in which they came.
    pub fn get_lines(&self) -> (r: &Vec<String>)
        ensures
            r@ == self.output_lines@,
    {
        &self.output_lines
    }

    /// Forgets the lines gathered so far.
    pub fn clear(&mut self)
        ensures
            final(self).output_lines@.len() == 0,
    {
        self.output_lines = Vec::new();
    }

    /// A finished result for the test `name` that ended as the word
    /// `status` tells; see [`outcome_status`].
    pub fn create_test_result(name: &str, status: &str) -> (r: TestResult)
        ensures
            r.name@ == mod_name(name@),
            r.metadata@ == bare_metadata(mod_name(name@)),
            r.status == outcome_status(status@),
            r@.error == if outcome_status(status@) == TestStatus::Failed {
                Some(plain_failure())
            } else {
                None::<crate::error::ErrorView>
            },
            r.end_time is Some,
    {
        let test_id = new_id();
        let name = format_mod_name(name);
        let metadata = TestMetadata::new(name.as_str());
        let mut test_result = TestResult::new(test_id, name, metadata);
        if str_eq(status, "ok") {
            test_result.finish(TestStatus::Passed, None);
        } else if str_eq(status, "FAILED") {
            test_result.finish(TestStatus::Failed, Some(Error::test_execution("Test failed")));
        } else {
            test_result.finish(TestStatus::Skipped, None);
        }
        test_result
    }

    /// A suite result that holds copies of `test_results`; see
    /// [`create_suite_result`].
    pub fn create_suite_result(&self, suite_name: &str, test_results: &[TestResult]) -> (r:
        SuiteResult)
        ensures
            r.wf(),
            r@.name == mod_name(suite_name@),
            r@.test_results == result_views(test_results@),
            r@.error is None,
    {
        create_suite_result(suite_name, test_results)
    }

    /// The lifecycle event that a line gives in the older reading: a
    /// finished test with the duration `duration_ms`, or the start of the
    /// suite `suite_name`.
    pub fn parse_test_line(line: &str, suite_name: &str, duration_ms: u64) -> (r: Option<
        ProcessOutput,
    >)
        ensures
            match legacy_line(line@) {
                LegacyLineView::Finished { name, outcome } => match outcome_status(outcome) {
                    TestStatus::Passed => r matches Some(
                        ProcessOutput::TestPassed { result, duration_ms: d },
                    ) && d == duration_ms && result.name@ == mod_name(name) && result.status
                        == TestStatus::Passed,
                    TestStatus::Failed => r matches Some(
                        ProcessOutput::TestFailed { result, duration_ms: d, error, location },
                    ) && d == duration_ms && result.name@ == mod_name(name) && result.status
                        == TestStatus::Failed && error@.len() == 0 && location is None,
                    _ => r matches Some(ProcessOutput::TestSkipped { result }) && result.name@
                        == mod_name(name) && result.status == TestStatus::Skipped,
                },
                LegacyLineView::Running { count } => r matches Some(
                    ProcessOutput::SuiteStarted { name, test_count },
                ) && name@ == suite_name@ && test_count == count,
                LegacyLineView::Other => r is None,
            },
    {
        match classify_line(line) {
            LegacyLine::Finished { name, outcome } => {
                let result = Self::create_test_result(name.as_str(), outcome.as_str());
                if str_eq(outcome.as_str(), "ok") {
                    Some(ProcessOutput::TestPassed { result, duration_ms })
                } else if str_eq(outcome.as_str(), "FAILED") {
                    Some(
                        ProcessOutput::TestFailed {
                            result,
                            duration_ms,
                            error: String::new(),
                            location: None,
                        },
                    )
                } else {
                    Some(ProcessOutput::TestSkipped { result })
                }
            },
            LegacyLine::Running { count } => Some(
                ProcessOutput::SuiteStarted { name: String::from_str(suite_name), test_count: count },
            ),
            LegacyLine::Other => None,
        }
    }

    /// What is shown for the failed test `test_name`: the location and the
    /// message of its panic as a pointer, where the lines hold them.
    ///
    /// The first line that holds `panicked at` and the test's name is the
    /// panic line. Its location is what stands behind `panicked at ` up to
    /// the last colon; the message is the line after it, unless that is
    /// empty or noise.
    pub fn parse_error_context(lines: &[String], test_name: &str) -> (r: String)
        ensures
            r@ == error_context(texts(lines@), test_name@),
    {
        let marker = to_chars("panicked at");
        let marker_blank = to_chars("panicked at ");
        let name = to_chars(test_name);
        let note = to_chars("note:");
        let trace = to_chars("stack backtrace:");
        let ghost all = texts(lines@);
        let mut i: usize = 0;
        while i < lines.len()
            invariant
                i <= lines.len(),
                all == texts(lines@),
                marker@ == "panicked at"@,
                marker_blank@ == "panicked at "@,
                name@ == test_name@,
                note@ == "note:"@,
                trace@ == "stack backtrace:"@,
                panic_line(all, test_name@, 0) == panic_line(all, test_name@, i as int),
            decreases lines.len() - i,
        {
            let chars = to_chars(lines[i].as_str());
            let line = trimmed(&chars);
            assert(all[i as int] == chars@);
            if has_match(&line, &marker) && has_match(&line, &name) {
                let mut location: Option<Vec<char>> = None;
                proof {
                    lemma_first_match_from(line@, marker_blank@, 0);
                }
                match find(&line, &marker_blank) {
                    Some(at) => {
                        assert(at + marker_blank.len() <= line.len());
                        let mut part: Vec<char> = Vec::new();
                        let mut k: usize = at + marker_blank.len();
                        while k < line.len()
                            invariant
                                at + marker_blank.len() <= k <= line.len(),
                                part@ == line@.subrange(at + marker_blank.len(), k as int),
                            decreases line.len() - k,
                        {
                            part.push(line[k]);
                            k += 1;
                            assert(part@ =~= line@.subrange(at + marker_blank.len(), k as int));
                        }
                        assert(part@ =~= line@.skip(at + marker_blank.len()));
                        match find_last_colon(&part) {
                            Some(colon) => {
                                let mut found: Vec<char> = Vec::new();
                                let mut j: usize = 0;
                                while j < colon
                                    invariant
                                        j <= colon < part.len(),
                                        found@ == part@.take(j as int),
                                    decreases colon - j,
                                {
                                    found.push(part[j]);
                                    j += 1;
                                    assert(found@ =~= part@.take(j as int));
                                }
                                location = Some(found);
                            },
                            None => {},
                        }
                    },
                    None => {},
                }
                let mut message: Option<Vec<char>> = None;
                if i + 1 < lines.len() {
                    let next_chars = to_chars(lines[i + 1].as_str());
                    let next = trimmed(&next_chars);
                    assert(all[i + 1] == next_chars@);
                    if next.len() > 0 && !matches_at(&next, &note, 0) && !matches_at(
                        &next,
                        &trace,
                        0,
                    ) {
                        message = Some(next);
                    }
                }
                return render_context(&location, &message, test_name);
            }
            i += 1;
        }
        render_context(&None, &None, test_name)
    }
}

impl Default for OutputParser {
    fn default() -> (r: Self)
        ensures
            r.output_lines@.len() == 0,
    {
        OutputParser::new()
    }
}

} // verus!
