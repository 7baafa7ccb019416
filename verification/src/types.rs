//! The values that flow from a test binary's output to the presentation
//! layer: line events, per-test state, failure detail and lifecycle events.

use vstd::prelude::*;
use vstd::string::StringExecFns;
use crate::test::{TestResult, TestResultView, TestStatus};
use crate::text::{clone_opt_string, clone_strings, decimal, opt_text, push_decimal, texts};

verus! {

/// A place in a source file.
#[derive(Debug)]
pub struct SourceLocation {
    pub file: String,
    pub line: u32,
    pub column: u32,
}

/// The mathematical content of a [`SourceLocation`].
pub ghost struct SourceLocationView {
    pub file: Seq<char>,
    pub line: u32,
    pub column: u32,
}

impl View for SourceLocation {
    type V = SourceLocationView;

    open spec fn view(&self) -> SourceLocationView {
        SourceLocationView { file: self.file@, line: self.line, column: self.column }
    }
}

impl SourceLocationView {
    /// The location written as `file:line:column`.
    pub open spec fn text(self) -> Seq<char> {
        self.file + ":"@ + decimal(self.line as nat) + ":"@ + decimal(self.column as nat)
    }
}

impl Clone for SourceLocation {
    fn clone(&self) -> (r: Self)
        ensures
            r@ == self@,
    {
        SourceLocation { file: self.file.clone(), line: self.line, column: self.column }
    }
}

impl SourceLocation {
    /// The location written as `file:line:column`.
    pub fn to_string(&self) -> (s: String)
        ensures
            s@ == self@.text(),
    {
        let mut s = self.file.clone();
        s.append(":");
        push_decimal(&mut s, self.line as u64);
        s.append(":");
        push_decimal(&mut s, self.column as u64);
        s
    }
}

/// The content of the location in `o`, if there is one.
pub open spec fn opt_location_view(o: Option<SourceLocation>) -> Option<SourceLocationView> {
    match o {
        Some(l) => Some(l@),
        None => None,
    }
}

/// A copy of the location in `o`, if there is one.
pub fn clone_opt_location(o: &Option<SourceLocation>) -> (r: Option<SourceLocation>)
    ensures
        opt_location_view(r) == opt_location_view(*o),
{
    match o {
        Some(l) => Some(l.clone()),
        None => None,
    }
}

/// What is known so far of one test's failure. The location and the
/// message may arrive in either order.
#[derive(Debug)]
pub struct ErrorInfo {
    pub location: Option<SourceLocation>,
    pub message: Option<String>,
    pub backtrace: Vec<String>,
}

/// The mathematical content of an [`ErrorInfo`].
pub ghost struct ErrorInfoView {
    pub location: Option<SourceLocationView>,
    pub message: Option<Seq<char>>,
    pub backtrace: Seq<Seq<char>>,
}

impl View for ErrorInfo {
    type V = ErrorInfoView;

    open spec fn view(&self) -> ErrorInfoView {
        ErrorInfoView {
            location: opt_location_view(self.location),
            message: opt_text(self.message),
            backtrace: texts(self.backtrace@),
        }
    }
}

impl ErrorInfoView {
    /// Failure detail of which nothing is known yet.
    pub open spec fn empty() -> Self {
        ErrorInfoView { location: None, message: None, backtrace: Seq::empty() }
    }

    /// The detail as a compiler-style pointer: an arrow and the location,
    /// then the message in a gutter; the location or the message alone where
    /// only one is known; `Unknown error` where neither is.
    pub open spec fn text(self) -> Seq<char> {
        match (self.location, self.message) {
            (Some(loc), Some(msg)) => "--> "@ + loc.text() + "\n    |\n    | "@ + msg + "\n    |"@,
            (Some(loc), None) => "--> "@ + loc.text(),
            (None, Some(msg)) => msg,
            (None, None) => "Unknown error"@,
        }
    }
}

impl Clone for ErrorInfo {
    fn clone(&self) -> (r: Self)
        ensures
            r@ == self@,
    {
        ErrorInfo {
            location: clone_opt_location(&self.location),
            message: clone_opt_string(&self.message),
            backtrace: clone_strings(&self.backtrace),
        }
    }
}

impl ErrorInfo {
    /// Failure detail of which nothing is known yet.
    pub fn new() -> (r: Self)
        ensures
            r@ == ErrorInfoView::empty(),
    {
        let r = ErrorInfo { location: None, message: None, backtrace: Vec::new() };
        assert(texts(r.backtrace@) =~= Seq::empty());
        r
    }

    /// Records where the failure happened; the message stays as it is.
    pub fn set_location(&mut self, file: String, line: u32, column: u32)
        ensures
            final(self)@ == (ErrorInfoView {
                location: Some(SourceLocationView { file: file@, line, column }),
                ..old(self)@
            }),
    {
        self.location = Some(SourceLocation { file, line, column });
    }

    /// Records what the failure said; the location stays as it is.
    pub fn set_message(&mut self, message: String)
        ensures
            final(self)@ == (ErrorInfoView { message: Some(message@), ..old(self)@ }),
    {
        self.message = Some(message);
    }

    /// The detail as a compiler-style pointer.
    pub fn format_error(&self) -> (s: String)
        ensures
            s@ == self@.text(),
    {
        match (&self.location, &self.message) {
            (Some(loc), Some(msg)) => {
                let mut s = String::from_str("--> ");
                let l = loc.to_string();
                s.append(l.as_str());
                s.append("\n    |\n    | ");
                s.append(msg.as_str());
                s.append("\n    |");
                s
            },
            (Some(loc), None) => {
                let mut s = String::from_str("--> ");
                let l = loc.to_string();
                s.append(l.as_str());
                s
            },
            (None, Some(msg)) => msg.clone(),
            (None, None) => String::from_str("Unknown error"),
        }
    }

    /// The detail as a compiler-style pointer.
    pub fn to_string(&self) -> (s: String)
        ensures
            s@ == self@.text(),
    {
        self.format_error()
    }
}

/// The content of the failure detail in `o`, if there is any.
pub open spec fn opt_info_view(o: Option<ErrorInfo>) -> Option<ErrorInfoView> {
    match o {
        Some(i) => Some(i@),
        None => None,
    }
}

/// What one line of a test binary's output says, whichever grammar it was
/// written in.
#[derive(Debug)]
pub enum TestOutputLine {
    /// A test began.
    TestStart { name: String },
    /// A test ended; `duration_ms` is the time the binary reported, if any.
    TestResult { name: String, status: TestStatus, duration_ms: Option<u64> },
    /// A binary announced how many tests it will run.
    SuiteStart { count: usize },
    /// A test panicked.
    Panic { message: String, test: String, location: Option<SourceLocation> },
}

/// The mathematical content of a [`TestOutputLine`].
pub ghost enum LineEvent {
    TestStart { name: Seq<char> },
    TestResult { name: Seq<char>, status: TestStatus, duration_ms: Option<u64> },
    SuiteStart { count: usize },
    Panic { message: Seq<char>, test: Seq<char>, location: Option<SourceLocationView> },
}

impl View for TestOutputLine {
    type V = LineEvent;

    open spec fn view(&self) -> LineEvent {
        match self {
            TestOutputLine::TestStart { name } => LineEvent::TestStart { name: name@ },
            TestOutputLine::TestResult { name, status, duration_ms } => LineEvent::TestResult {
                name: name@,
                status: *status,
                duration_ms: *duration_ms,
            },
            TestOutputLine::SuiteStart { count } => LineEvent::SuiteStart { count: *count },
            TestOutputLine::Panic { message, test, location } => LineEvent::Panic {
                message: message@,
                test: test@,
                location: opt_location_view(*location),
            },
        }
    }
}

/// The content of the line event in `o`, if there is one.
pub open spec fn opt_line_view(o: Option<TestOutputLine>) -> Option<LineEvent> {
    match o {
        Some(l) => Some(l@),
        None => None,
    }
}

/// Where one test stands during a run of its binary.
#[derive(Debug, Clone, Copy, PartialEq, Eq, Structural)]
pub enum TestState {
    NotStarted,
    /// The test began at `started_at`, in milliseconds since the Unix epoch.
    Running { started_at: i64 },
    /// The test ended after `duration_ms` milliseconds.
    Completed { duration_ms: u64, status: TestStatus },
}

/// What the presentation layer is told while a binary runs.
#[derive(Debug)]
pub enum ProcessOutput {
    TestStarted { name: String, suite: String },
    TestPassed { result: TestResult, duration_ms: u64 },
    TestFailed { result: TestResult, duration_ms: u64, error: String, location: Option<SourceLocation> },
    TestSkipped { result: TestResult },
    SuiteStarted { name: String, test_count: usize },
    SuiteCompleted { name: String },
    Done,
}

/// The mathematical content of a [`ProcessOutput`].
pub ghost enum LifecycleEvent {
    TestStarted { name: Seq<char>, suite: Seq<char> },
    TestPassed { result: TestResultView, duration_ms: u64 },
    TestFailed {
        result: TestResultView,
        duration_ms: u64,
        error: Seq<char>,
        location: Option<SourceLocationView>,
    },
    TestSkipped { result: TestResultView },
    SuiteStarted { name: Seq<char>, test_count: usize },
    SuiteCompleted { name: Seq<char> },
    Done,
}

impl View for ProcessOutput {
    type V = LifecycleEvent;

    open spec fn view(&self) -> LifecycleEvent {
        match self {
            ProcessOutput::TestStarted { name, suite } => LifecycleEvent::TestStarted {
                name: name@,
                suite: suite@,
            },
            ProcessOutput::TestPassed { result, duration_ms } => LifecycleEvent::TestPassed {
                result: result@,
                duration_ms: *duration_ms,
            },
            ProcessOutput::TestFailed {
                result,
                duration_ms,
                error,
                location,
            } => LifecycleEvent::TestFailed {
                result: result@,
                duration_ms: *duration_ms,
                error: error@,
                location: opt_location_view(*location),
            },
            ProcessOutput::TestSkipped { result } => LifecycleEvent::TestSkipped { result: result@ },
            ProcessOutput::SuiteStarted { name, test_count } => LifecycleEvent::SuiteStarted {
                name: name@,
                test_count: *test_count,
            },
            ProcessOutput::SuiteCompleted { name } => LifecycleEvent::SuiteCompleted { name: name@ },
            ProcessOutput::Done => LifecycleEvent::Done,
        }
    }
}

} // verus!
