//! Reports of a run: what a report is, and the reporters that are
//! configured here. The documents themselves, but for the CSV one, are
//! written outside this library.

pub mod logging;
pub mod types;

use vstd::prelude::*;
use vstd::string::StringExecFns;
use crate::clock::now_millis;
use crate::error::{Error, ErrorView};
use crate::reporting::types::{ReportFormat, ReportMetadata, ReportMetadataView, TestReport};
use crate::runners::{RunResult, RunResultView};
use crate::suite::SuiteResultView;
use crate::test::{TestResult, TestResultView};
use crate::text::{decimal, push_char, push_decimal, to_chars};

verus! {

/// Something that writes a report of a run.
pub trait Reporter {
    /// Whether the reporter may give `outcome` when it writes the report of
    /// `run_result`: a report, or an error. This is the reporter's own word
    /// about itself; a reporter that gives none may give anything.
    open spec fn may_give(&self, run_result: RunResult, outcome: Result<TestReport, Error>) -> bool {
        true
    }

    /// Writes the report of `run_result`.
    fn generate(&self, run_result: &RunResult) -> (r: Result<TestReport, Error>)
        ensures
            self.may_give(*run_result, r),
    ;

    /// The format of the reports that this reporter writes.
    fn format(&self) -> ReportFormat;
}

/// The reporter of plain text.
#[derive(Debug)]
pub struct TextReporter {
    pub metadata: ReportMetadata,
    pub show_details: bool,
    pub show_timing: bool,
}

impl TextReporter {
    /// A reporter that shows details and timing.
    pub fn new() -> (r: Self)
        ensures
            r.metadata@ == ReportMetadataView::standard(),
            r.show_details,
            r.show_timing,
    {
        TextReporter { metadata: ReportMetadata::default(), show_details: true, show_timing: true }
    }

    /// This reporter with other metadata.
    pub fn with_metadata(self, metadata: ReportMetadata) -> (r: Self)
        ensures
            r == (TextReporter { metadata, ..self }),
    {
        let mut r = self;
        r.metadata = metadata;
        r
    }

    /// This reporter, showing durations or not.
    pub fn show_timing(self, show: bool) -> (r: Self)
        ensures
            r == (TextReporter { show_timing: show, ..self }),
    {
        let mut r = self;
        r.show_timing = show;
        r
    }
}

impl Default for TextReporter {
    fn default() -> (r: Self)
        ensures
            r.metadata@ == ReportMetadataView::standard(),
            r.show_details,
            r.show_timing,
    {
        TextReporter::new()
    }
}

/// The reporter of JSON documents.
#[derive(Debug)]
pub struct JsonReporter {
    pub metadata: ReportMetadata,
    pub pretty: bool,
}

impl JsonReporter {
    /// A reporter that writes indented documents.
    pub fn new() -> (r: Self)
        ensures
            r.metadata@ == ReportMetadataView::standard(),
            r.pretty,
    {
        JsonReporter { metadata: ReportMetadata::default(), pretty: true }
    }

    /// This reporter with other metadata.
    pub fn with_metadata(self, metadata: ReportMetadata) -> (r: Self)
        ensures
            r == (JsonReporter { metadata, ..self }),
    {
        let mut r = self;
        r.metadata = metadata;
        r
    }

    /// This reporter, writing indented documents or not.
    pub fn pretty(self, pretty: bool) -> (r: Self)
        ensures
            r == (JsonReporter { pretty, ..self }),
    {
        let mut r = self;
        r.pretty = pretty;
        r
    }
}

impl Default for JsonReporter {
    fn default() -> (r: Self)
        ensures
            r.metadata@ == ReportMetadataView::standard(),
            r.pretty,
    {
        JsonReporter::new()
    }
}

/// The reporter of HTML pages.
#[derive(Debug)]
pub struct HtmlReporter {
    pub metadata: ReportMetadata,
    pub include_styles: bool,
    pub show_timing: bool,
}

impl HtmlReporter {
    /// A reporter that writes styles and durations.
    pub fn new() -> (r: Self)
        ensures
            r.metadata@ == ReportMetadataView::standard(),
            r.include_styles,
            r.show_timing,
    {
        HtmlReporter { metadata: ReportMetadata::default(), include_styles: true, show_timing: true }
    }

    /// This reporter with other metadata.
    pub fn with_metadata(self, metadata: ReportMetadata) -> (r: Self)
        ensures
            r == (HtmlReporter { metadata, ..self }),
    {
        let mut r = self;
        r.metadata = metadata;
        r
    }

    /// This reporter, writing styles into the page or not.
    pub fn include_styles(self, wanted: bool) -> (r: Self)
        ensures
            r == (HtmlReporter { include_styles: wanted, ..self }),
    {
        let mut r = self;
        r.include_styles = wanted;
        r
    }

    /// This reporter, showing durations or not.
    pub fn show_timing(self, show: bool) -> (r: Self)
        ensures
            r == (HtmlReporter { show_timing: show, ..self }),
    {
        let mut r = self;
        r.show_timing = show;
        r
    }
}

impl Default for HtmlReporter {
    fn default() -> (r: Self)
        ensures
            r.metadata@ == ReportMetadataView::standard(),
            r.include_styles,
            r.show_timing,
    {
        HtmlReporter::new()
    }
}

/// `text` with every double quote written twice, as a quoted field of a
/// CSV document holds it.
pub open spec fn quotes_doubled(text: Seq<char>) -> Seq<char>
    decreases text.len(),
{
    if text.len() == 0 {
        Seq::empty()
    } else if text.last() == '"' {
        quotes_doubled(text.drop_last()).push('"').push('"')
    } else {
        quotes_doubled(text.drop_last()).push(text.last())
    }
}

/// The field that holds the duration of a test: its milliseconds, or
/// nothing.
pub open spec fn duration_field(duration: Option<u64>) -> Seq<char> {
    match duration {
        Some(ms) => decimal(ms as nat),
        None => Seq::empty(),
    }
}

/// The field that holds the error of a test: its text in quotes, or
/// nothing.
pub open spec fn error_field(error: Option<ErrorView>) -> Seq<char> {
    match error {
        Some(e) => "\""@ + quotes_doubled(e.text()) + "\""@,
        None => Seq::empty(),
    }
}

/// The row of a test: the suite and the test in quotes, the status, the
/// duration and the error.
pub open spec fn csv_row(suite: Seq<char>, test: TestResultView) -> Seq<char> {
    "\""@ + suite + "\",\""@ + test.name + "\","@ + test.status.label() + ","@ + duration_field(
        test.duration,
    ) + ","@ + error_field(test.error) + "\n"@
}

/// The rows of the tests `tests` of the suite `suite`.
pub open spec fn csv_rows(suite: Seq<char>, tests: Seq<TestResultView>) -> Seq<char>
    decreases tests.len(),
{
    if tests.len() == 0 {
        Seq::empty()
    } else {
        csv_rows(suite, tests.drop_last()) + csv_row(suite, tests.last())
    }
}

/// The rows of the tests of the suites `suites`.
pub open spec fn csv_body(suites: Seq<SuiteResultView>) -> Seq<char>
    decreases suites.len(),
{
    if suites.len() == 0 {
        Seq::empty()
    } else {
        csv_body(suites.drop_last()) + csv_rows(suites.last().name, suites.last().test_results)
    }
}

/// The header row of a CSV report.
pub open spec fn csv_header() -> Seq<char> {
    "suite_name,test_name,status,duration_ms,error\n"@
}

/// The CSV report of a run: the header row where it is wanted, then one
/// row for each test, suite by suite.
pub open spec fn csv_document(run: RunResultView, headers: bool) -> Seq<char> {
    (if headers {
        csv_header()
    } else {
        Seq::empty()
    }) + csv_body(run.suite_results)
}

/// Appends `text` to `out` with every double quote written twice.
pub fn push_quoted(out: &mut String, text: &str)
    ensures
        final(out)@ == old(out)@ + quotes_doubled(text@),
{
    let chars = to_chars(text);
    let mut i: usize = 0;
    assert(chars@.take(0) =~= Seq::empty());
    assert(out@ =~= old(out)@ + quotes_doubled(chars@.take(0)));
    while i < chars.len()
        invariant
            i <= chars.len(),
            chars@ == text@,
            out@ == old(out)@ + quotes_doubled(chars@.take(i as int)),
        decreases chars.len() - i,
    {
        proof {
            assert(chars@.take(i + 1).drop_last() =~= chars@.take(i as int));
            assert(chars@.take(i + 1).last() == chars@[i as int]);
        }
        if chars[i] == '"' {
            push_char(out, '"');
            push_char(out, '"');
        } else {
            push_char(out, chars[i]);
        }
        i += 1;
        assert(out@ =~= old(out)@ + quotes_doubled(chars@.take(i as int)));
    }
    assert(chars@.take(i as int) =~= chars@);
}

/// The reporter of CSV documents.
#[derive(Debug)]
pub struct CsvReporter {
    pub metadata: ReportMetadata,
    pub include_headers: bool,
}

impl CsvReporter {
    /// A reporter that writes the header row.
    pub fn new() -> (r: Self)
        ensures
            r.metadata@ == ReportMetadataView::standard(),
            r.include_headers,
    {
        CsvReporter { metadata: ReportMetadata::default(), include_headers: true }
    }

    /// This reporter with other metadata.
    pub fn with_metadata(self, metadata: ReportMetadata) -> (r: Self)
        ensures
            r == (CsvReporter { metadata, ..self }),
    {
        let mut r = self;
        r.metadata = metadata;
        r
    }

    /// This reporter, writing the header row or not.
    pub fn include_headers(self, wanted: bool) -> (r: Self)
        ensures
            r == (CsvReporter { include_headers: wanted, ..self }),
    {
        let mut r = self;
        r.include_headers = wanted;
        r
    }

    fn push_row(out: &mut String, suite: &str, test: &TestResult)
        ensures
            final(out)@ == old(out)@ + csv_row(suite@, test@),
    {
        out.append("\"");
        out.append(suite);
        out.append("\",\"");
        out.append(test.name.as_str());
        out.append("\",");
        let status = test.status.to_string();
        out.append(status.as_str());
        out.append(",");
        match test.duration {
            Some(ms) => push_decimal(out, ms),
            None => {},
        }
        out.append(",");
        match &test.error {
            Some(e) => {
                out.append("\"");
                let words = e.to_string();
                push_quoted(out, words.as_str());
                out.append("\"");
            },
            None => {},
        }
        out.append("\n");
        assert(out@ =~= old(out)@ + csv_row(suite@, test@));
    }

    /// The CSV document of `run_result`.
    pub fn content(&self, run_result: &RunResult) -> (r: String)
        ensures
            r@ == csv_document(run_result@, self.include_headers),
    {
        let mut out = String::new();
        if self.include_headers {
            out.append("suite_name,test_name,status,duration_ms,error\n");
        }
        let ghost head = out@;
        let ghost suites = run_result@.suite_results;
        let mut i: usize = 0;
        assert(suites.take(0) =~= Seq::empty());
        assert(out@ =~= head + csv_body(suites.take(0)));
        while i < run_result.suite_results.len()
            invariant
                i <= run_result.suite_results.len(),
                suites == run_result@.suite_results,
                out@ == head + csv_body(suites.take(i as int)),
            decreases run_result.suite_results.len() - i,
        {
            let suite = &run_result.suite_results[i];
            let ghost before = out@;
            let ghost tests = suite@.test_results;
            proof {
                assert(suites.take(i + 1).drop_last() =~= suites.take(i as int));
                assert(suites.take(i + 1).last() == suite@);
                assert(tests.take(0) =~= Seq::empty());
            }
            let mut k: usize = 0;
            assert(out@ =~= before + csv_rows(suite@.name, tests.take(0)));
            while k < suite.test_results.len()
                invariant
                    k <= suite.test_results.len(),
                    tests == suite@.test_results,
                    out@ == before + csv_rows(suite@.name, tests.take(k as int)),
                decreases suite.test_results.len() - k,
            {
                proof {
                    assert(tests.take(k + 1).drop_last() =~= tests.take(k as int));
                    assert(tests.take(k + 1).last() == suite.test_results@[k as int]@);
                }
                Self::push_row(&mut out, suite.name.as_str(), &suite.test_results[k]);
                k += 1;
                assert(out@ =~= before + csv_rows(suite@.name, tests.take(k as int)));
            }
            assert(tests.take(k as int) =~= tests);
            i += 1;
            assert(out@ =~= head + csv_body(suites.take(i as int)));
        }
        assert(suites.take(i as int) =~= suites);
        out
    }
}

impl Default for CsvReporter {
    fn default() -> (r: Self)
        ensures
            r.metadata@ == ReportMetadataView::standard(),
            r.include_headers,
    {
        CsvReporter::new()
    }
}

impl Reporter for CsvReporter {
    /// The reporter gives the CSV document of the run, with its own
    /// metadata, and never fails.
    open spec fn may_give(&self, run_result: RunResult, outcome: Result<TestReport, Error>) -> bool {
        &&& outcome is Ok
        &&& outcome->Ok_0.content@ == csv_document(run_result@, self.include_headers)
        &&& outcome->Ok_0.format == ReportFormat::Csv
        &&& outcome->Ok_0.metadata@ == self.metadata@
        &&& outcome->Ok_0.run_result@ == run_result@
    }

    /// The CSV report of `run_result`, made now. Writing it never fails.
    fn generate(&self, run_result: &RunResult) -> (r: Result<TestReport, Error>)
        ensures
            r is Ok,
            r->Ok_0.content@ == csv_document(run_result@, self.include_headers),
            r->Ok_0.format == ReportFormat::Csv,
            r->Ok_0.metadata@ == self.metadata@,
            r->Ok_0.run_result@ == run_result@,
    {
        Ok(
            TestReport {
                metadata: self.metadata.clone(),
                run_result: run_result.clone(),
                format: ReportFormat::Csv,
                content: self.content(run_result),
                created_at: now_millis(),
            },
        )
    }

    fn format(&self) -> (r: ReportFormat)
        ensures
            r == ReportFormat::Csv,
    {
        ReportFormat::Csv
    }
}

/// A reporter that writes nothing. It holds the place of a reporter until
/// the reporter is moved in: of a swap Verus knows that both values are
/// kept.
struct Unfilled;

impl Reporter for Unfilled {
    fn generate(&self, run_result: &RunResult) -> (r: Result<TestReport, Error>) {
        Err(Error::reporter("No reporter"))
    }

    fn format(&self) -> ReportFormat {
        ReportFormat::Text
    }
}

/// One of the reporters of a [`CompositeReporter`].
pub struct ReporterEntry {
    pub reporter: Box<dyn Reporter>,
}

impl ReporterEntry {
    /// An entry for `reporter`.
    pub fn new(reporter: Box<dyn Reporter>) -> (r: Self)
        ensures
            r.reporter == reporter,
    {
        let mut given = reporter;
        let mut r = ReporterEntry { reporter: Box::new(Unfilled) };
        std::mem::swap(&mut r.reporter, &mut given);
        r
    }
}

/// A reporter that writes the reports of several reporters.
pub struct CompositeReporter {
    pub reporters: Vec<ReporterEntry>,
}

impl CompositeReporter {
    /// A reporter of no reports.
    pub fn new() -> (r: Self)
        ensures
            r.reporters@.len() == 0,
    {
        CompositeReporter { reporters: Vec::new() }
    }

    /// This reporter with one more reporter.
    pub fn add_reporter(self, reporter: Box<dyn Reporter>) -> (r: Self)
        ensures
            r.reporters@.len() == self.reporters@.len() + 1,
            r.reporters@.drop_last() == self.reporters@,
            r.reporters@.last().reporter == reporter,
    {
        let mut r = self;
        let mut given = reporter;
        let mut entry = ReporterEntry { reporter: Box::new(Unfilled) };
        std::mem::swap(&mut entry.reporter, &mut given);
        r.reporters.push(entry);
        assert(r.reporters@.drop_last() =~= self.reporters@);
        r
    }

    /// Whether each of the first reporters may give the report at its
    /// index in `reports` for `run_result`.
    pub open spec fn gave(&self, run_result: RunResult, reports: Seq<TestReport>) -> bool {
        &&& reports.len() <= self.reporters@.len()
        &&& forall|k: int|
            0 <= k < reports.len() ==> self.reporters@[k].reporter.may_give(
                run_result,
                Ok(#[trigger] reports[k]),
            )
    }

    /// Whether the reporters before the one at `at` may give `reports` for
    /// `run_result`, and the one at `at` may fail with `e`.
    pub open spec fn failed_at(
        &self,
        run_result: RunResult,
        reports: Seq<TestReport>,
        at: int,
        e: Error,
    ) -> bool {
        &&& 0 <= at < self.reporters@.len()
        &&& reports.len() == at
        &&& self.gave(run_result, reports)
        &&& self.reporters@[at].reporter.may_give(run_result, Err(e))
    }

    /// The reports of all reporters, in their order. The first reporter
    /// that fails ends the call with its error: the reporters after it do
    /// not write. Without reporters there are no reports.
    pub fn generate_all(&self, run_result: &RunResult) -> (r: Result<Vec<TestReport>, Error>)
        ensures
            r is Ok ==> r->Ok_0@.len() == self.reporters@.len() && self.gave(
                *run_result,
                r->Ok_0@,
            ),
            r is Err ==> exists|reports: Seq<TestReport>, at: int| #[trigger]
                self.failed_at(*run_result, reports, at, r->Err_0),
            self.reporters@.len() == 0 ==> r is Ok,
    {
        let mut reports: Vec<TestReport> = Vec::new();
        let mut i: usize = 0;
        while i < self.reporters.len()
            invariant
                i <= self.reporters.len(),
                reports@.len() == i,
                self.gave(*run_result, reports@),
            decreases self.reporters.len() - i,
        {
            let ghost before = reports@;
            match self.reporters[i].reporter.generate(run_result) {
                Ok(report) => {
                    reports.push(report);
                    assert forall|k: int| 0 <= k < reports@.len() implies self.reporters@[k].reporter.may_give(
                        *run_result,
                        Ok(#[trigger] reports@[k]),
                    ) by {
                        if k < i {
                            assert(reports@[k] == before[k]);
                        }
                    }
                },
                Err(e) => {
                    let r: Result<Vec<TestReport>, Error> = Err(e);
                    assert(self.failed_at(*run_result, reports@, i as int, r->Err_0));
                    return r;
                },
            }
            i += 1;
        }
        Ok(reports)
    }
}

impl Default for CompositeReporter {
    fn default() -> (r: Self)
        ensures
            r.reporters@.len() == 0,
    {
        CompositeReporter::new()
    }
}

} // verus!
