//! Tests, the context they run in, and the result of one test.

use vstd::prelude::*;
use vstd::string::StringExecFns;
use crate::clock::{elapsed_between, elapsed_millis, now_millis};
use crate::error::{Error, ErrorView, failure_of, opt_error_view};
use crate::ids::new_id;
use crate::text::{clone_opt_string, clone_strings, opt_text, texts};

verus! {

/// How a test ended.
#[derive(Debug, Clone, Copy, PartialEq, Eq, Structural)]
pub enum TestStatus {
    Passed,
    Failed,
    Skipped,
    Ignored,
    Timeout,
}

impl TestStatus {
    /// The word that reports use for this status.
    pub open spec fn label(&self) -> Seq<char> {
        match self {
            TestStatus::Passed => "passed"@,
            TestStatus::Failed => "failed"@,
            TestStatus::Skipped => "skipped"@,
            TestStatus::Ignored => "ignored"@,
            TestStatus::Timeout => "timeout"@,
        }
    }

    /// The word that reports use for this status.
    pub fn to_string(&self) -> (s: String)
        ensures
            s@ == self.label(),
    {
        match self {
            TestStatus::Passed => String::from_str("passed"),
            TestStatus::Failed => String::from_str("failed"),
            TestStatus::Skipped => String::from_str("skipped"),
            TestStatus::Ignored => String::from_str("ignored"),
            TestStatus::Timeout => String::from_str("timeout"),
        }
    }
}

/// What is known of a test or a suite besides its code.
#[derive(Debug)]
pub struct TestMetadata {
    pub name: String,
    pub description: Option<String>,
    pub tags: Vec<String>,
}

/// The mathematical content of a [`TestMetadata`].
pub ghost struct TestMetadataView {
    pub name: Seq<char>,
    pub description: Option<Seq<char>>,
    pub tags: Seq<Seq<char>>,
}

impl View for TestMetadata {
    type V = TestMetadataView;

    open spec fn view(&self) -> TestMetadataView {
        TestMetadataView {
            name: self.name@,
            description: opt_text(self.description),
            tags: texts(self.tags@),
        }
    }
}

impl Clone for TestMetadata {
    fn clone(&self) -> (r: Self)
        ensures
            r@ == self@,
    {
        TestMetadata {
            name: self.name.clone(),
            description: clone_opt_string(&self.description),
            tags: clone_strings(&self.tags),
        }
    }
}

impl TestMetadata {
    /// Metadata that holds only a name.
    pub fn new(name: &str) -> (r: Self)
        ensures
            r@ == (TestMetadataView { name: name@, description: None, tags: Seq::empty() }),
    {
        let r = TestMetadata { name: String::from_str(name), description: None, tags: Vec::new() };
        assert(texts(r.tags@) =~= Seq::empty());
        r
    }
}

/// How a test is to be run.
#[derive(Debug)]
pub struct TestAttributes {
    /// The test is left out unless something asks for it alone.
    pub ignore: bool,
    /// Only tests marked so are run, where a suite holds any.
    pub only: bool,
    pub retries: u32,
    /// The time the test may take, in milliseconds.
    pub timeout_ms: Option<u64>,
    pub tags: Vec<String>,
    pub category: Option<String>,
}

impl Default for TestAttributes {
    fn default() -> (r: Self)
        ensures
            !r.ignore,
            !r.only,
            r.retries == 0,
            r.timeout_ms is None,
            r.tags@.len() == 0,
            r.category is None,
    {
        TestAttributes {
            ignore: false,
            only: false,
            retries: 0,
            timeout_ms: None,
            tags: Vec::new(),
            category: None,
        }
    }
}

/// What a hook, a fixture or a test body is told of the test it serves.
#[derive(Debug)]
pub struct TestContext {
    pub test_id: uuid::Uuid,
    pub metadata: TestMetadata,
}

impl TestContext {
    /// The context of the test or suite `test_id`.
    pub fn new(test_id: uuid::Uuid, metadata: TestMetadata) -> (r: Self)
        ensures
            r.test_id == test_id,
            r.metadata == metadata,
    {
        TestContext { test_id, metadata }
    }
}

impl Clone for TestContext {
    fn clone(&self) -> (r: Self)
        ensures
            r.test_id == self.test_id,
            r.metadata@ == self.metadata@,
    {
        TestContext { test_id: self.test_id, metadata: self.metadata.clone() }
    }
}

/// The outcome of one test.
#[derive(Debug)]
pub struct TestResult {
    pub id: uuid::Uuid,
    pub name: String,
    pub metadata: TestMetadata,
    pub status: TestStatus,
    /// When the result was created, in milliseconds since the Unix epoch.
    pub start_time: i64,
    /// When the test was finished, in milliseconds since the Unix epoch.
    pub end_time: Option<i64>,
    /// How long the test took, in milliseconds.
    pub duration: Option<u64>,
    pub error: Option<Error>,
}

/// The mathematical content of a [`TestResult`].
pub ghost struct TestResultView {
    pub id: uuid::Uuid,
    pub name: Seq<char>,
    pub metadata: TestMetadataView,
    pub status: TestStatus,
    pub start_time: i64,
    pub end_time: Option<i64>,
    pub duration: Option<u64>,
    pub error: Option<ErrorView>,
}

impl View for TestResult {
    type V = TestResultView;

    open spec fn view(&self) -> TestResultView {
        TestResultView {
            id: self.id,
            name: self.name@,
            metadata: self.metadata@,
            status: self.status,
            start_time: self.start_time,
            end_time: self.end_time,
            duration: self.duration,
            error: opt_error_view(self.error),
        }
    }
}

impl TestResultView {
    /// This result once it is finished at the time `now`.
    pub open spec fn finished(self, status: TestStatus, error: Option<ErrorView>, now: i64) -> Self {
        TestResultView {
            status,
            error,
            end_time: Some(now),
            duration: Some(elapsed_between(self.start_time, now)),
            ..self
        }
    }
}

impl Clone for TestResult {
    fn clone(&self) -> (r: Self)
        ensures
            r@ == self@,
    {
        TestResult {
            id: self.id,
            name: self.name.clone(),
            metadata: self.metadata.clone(),
            status: self.status,
            start_time: self.start_time,
            end_time: self.end_time,
            duration: self.duration,
            error: match &self.error {
                Some(e) => Some(e.clone()),
                None => None,
            },
        }
    }
}

impl TestResult {
    /// A result created at the time `now` and not finished yet. Until it is
    /// finished it counts as skipped.
    pub fn new_at(id: uuid::Uuid, name: String, metadata: TestMetadata, now: i64) -> (r: Self)
        ensures
            r@ == (TestResultView {
                id,
                name: name@,
                metadata: metadata@,
                status: TestStatus::Skipped,
                start_time: now,
                end_time: None,
                duration: None,
                error: None,
            }),
    {
        TestResult {
            id,
            name,
            metadata,
            status: TestStatus::Skipped,
            start_time: now,
            end_time: None,
            duration: None,
            error: None,
        }
    }

    /// A result created now and not finished yet.
    pub fn new(id: uuid::Uuid, name: String, metadata: TestMetadata) -> (r: Self)
        ensures
            r@ == (TestResultView {
                id,
                name: name@,
                metadata: metadata@,
                status: TestStatus::Skipped,
                start_time: r.start_time,
                end_time: None,
                duration: None,
                error: None,
            }),
    {
        TestResult::new_at(id, name, metadata, now_millis())
    }

    /// Records the outcome, with `now` as the time the test ended.
    pub fn finish_at(&mut self, status: TestStatus, error: Option<Error>, now: i64)
        ensures
            final(self)@ == old(self)@.finished(status, opt_error_view(error), now),
    {
        self.status = status;
        self.error = error;
        self.end_time = Some(now);
        self.duration = Some(elapsed_millis(self.start_time, now));
    }

    /// Records the outcome, with the present moment as the time the test ended.
    pub fn finish(&mut self, status: TestStatus, error: Option<Error>)
        ensures
            final(self).end_time is Some,
            final(self)@ == old(self)@.finished(
                status,
                opt_error_view(error),
                final(self).end_time->0,
            ),
    {
        self.finish_at(status, error, now_millis());
    }

    /// Whether the test passed.
    pub fn passed(&self) -> (r: bool)
        ensures
            r == (self.status == TestStatus::Passed),
    {
        self.status == TestStatus::Passed
    }

    /// Whether the test failed or ran out of time.
    pub fn failed(&self) -> (r: bool)
        ensures
            r == (self.status == TestStatus::Failed || self.status == TestStatus::Timeout),
    {
        self.status == TestStatus::Failed || self.status == TestStatus::Timeout
    }
}

/// The code of a test. Whatever it returns is accepted: `Ok` makes the
/// test pass, `Err` makes it fail with that error.
pub trait TestBody {
    /// Whether the body may end so when it is run for `context`: without a
    /// failure, or with the failure `failure`. This is the body's own word
    /// about itself; a body that gives none may end in any way.
    open spec fn may_end(&self, context: TestContext, failure: Option<Error>) -> bool {
        true
    }

    /// Runs the test for `context`.
    fn run(&self, context: &TestContext) -> (r: Result<(), Error>)
        ensures
            self.may_end(*context, failure_of(r)),
    ;
}

/// A body that does nothing. It holds the place of a test's body until
/// the body is moved in: of a swap Verus knows that both values are kept.
struct Unfilled;

impl TestBody for Unfilled {
    fn run(&self, context: &TestContext) -> (r: Result<(), Error>) {
        Ok(())
    }
}

/// A named test with its code.
pub struct Test {
    pub id: uuid::Uuid,
    pub meta: TestMetadata,
    pub attributes: TestAttributes,
    pub body: Box<dyn TestBody>,
}

/// The status of a test whose body ended without a failure, or with the
/// failure `failure`.
pub open spec fn status_after(failure: Option<Error>) -> TestStatus {
    match failure {
        None => TestStatus::Passed,
        Some(_) => TestStatus::Failed,
    }
}

/// The status and error that a test body's outcome stands for.
pub open spec fn outcome_status(outcome: Result<(), Error>) -> TestStatus {
    match outcome {
        Ok(_) => TestStatus::Passed,
        Err(_) => TestStatus::Failed,
    }
}

/// The error that a test body's outcome carries.
pub open spec fn outcome_error(outcome: Result<(), Error>) -> Option<ErrorView> {
    match outcome {
        Ok(_) => None,
        Err(e) => Some(e@),
    }
}

impl Test {
    /// Whether the test's body may end so when it is run for `context`.
    pub open spec fn may_end(&self, context: TestContext, failure: Option<Error>) -> bool {
        self.body.may_end(context, failure)
    }

    /// Whether `r` is the result of this test when its body, run for
    /// `context`, ended without a failure or with the failure `failure`:
    /// the body may end so, and the result is passed without an error, or
    /// failed with that failure as its error.
    pub open spec fn reports(
        &self,
        context: TestContext,
        failure: Option<Error>,
        r: TestResultView,
    ) -> bool {
        &&& self.may_end(context, failure)
        &&& r.status == status_after(failure)
        &&& r.error == opt_error_view(failure)
    }

    /// A test named `name` with default attributes and a fresh identifier.
    pub fn new(name: &str, body: Box<dyn TestBody>) -> (r: Self)
        ensures
            r.meta@ == (TestMetadataView { name: name@, description: None, tags: Seq::empty() }),
            !r.attributes.ignore,
            !r.attributes.only,
            r.attributes.retries == 0,
            r.attributes.timeout_ms is None,
            r.attributes.tags@.len() == 0,
            r.attributes.category is None,
            r.body == body,
    {
        let mut given = body;
        let mut r = Test {
            id: new_id(),
            meta: TestMetadata::new(name),
            attributes: TestAttributes::default(),
            body: Box::new(Unfilled),
        };
        std::mem::swap(&mut r.body, &mut given);
        r
    }

    /// This test with other attributes.
    pub fn with_attributes(self, attributes: TestAttributes) -> (r: Self)
        ensures
            r == (Test { attributes, ..self }),
            r.attributes == attributes,
            r.id == self.id,
            r.meta == self.meta,
    {
        let mut r = self;
        r.attributes = attributes;
        r
    }

    /// Whether the test asks to be run alone.
    pub fn is_only(&self) -> (r: bool)
        ensures
            r == self.attributes.only,
    {
        self.attributes.only
    }

    /// Whether the test asks to be left out.
    pub fn should_ignore(&self) -> (r: bool)
        ensures
            r == self.attributes.ignore,
    {
        self.attributes.ignore
    }

    /// The result that stands for `outcome`, for a test started at `start`
    /// and ended at `end`.
    pub fn result_of(&self, outcome: Result<(), Error>, start: i64, end: i64) -> (r: TestResult)
        ensures
            r@ == (TestResultView {
                id: self.id,
                name: self.meta.name@,
                metadata: self.meta@,
                status: outcome_status(outcome),
                start_time: start,
                end_time: Some(end),
                duration: Some(elapsed_between(start, end)),
                error: outcome_error(outcome),
            }),
    {
        let mut result = TestResult::new_at(self.id, self.meta.name.clone(), self.meta.clone(), start);
        match outcome {
            Ok(()) => result.finish_at(TestStatus::Passed, None, end),
            Err(e) => result.finish_at(TestStatus::Failed, Some(e), end),
        }
        result
    }

    /// Runs the test's body and reports what it returned: passed where the
    /// body returned `Ok`, failed with the body's error where it did not.
    pub fn execute(&self, context: &TestContext) -> (r: TestResult)
        ensures
            r.id == self.id,
            r.name@ == self.meta.name@,
            r.metadata@ == self.meta@,
            r.status == TestStatus::Passed || r.status == TestStatus::Failed,
            r.status == TestStatus::Passed <==> r@.error is None,
            r.end_time is Some,
            r.duration == Some(elapsed_between(r.start_time, r.end_time->0)),
            exists|failure: Option<Error>| #[trigger] self.reports(*context, failure, r@),
    {
        let start = now_millis();
        let outcome = self.body.run(context);
        let end = now_millis();
        let ghost failure = failure_of(outcome);
        let r = self.result_of(outcome, start, end);
        assert(self.reports(*context, failure, r@));
        r
    }
}

} // verus!
