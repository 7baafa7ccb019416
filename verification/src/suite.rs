//! Suites of tests and the result of running one.

use vstd::prelude::*;
use vstd::string::StringExecFns;
use crate::clock::{elapsed_between, elapsed_millis, now_millis};
use crate::error::{Error, ErrorKind, ErrorView, opt_error_view};
use crate::fixtures::dependency::{
    FixtureDependencyGraph, FixtureRegistry, StoredValue, is_resolution_error,
    lemma_given_means_gave, no_setup, no_teardown, release_stopped_at, released_quietly,
    GraphView, set_up, setup_stopped_at, setups_gave, stored_names, torn_down, value_released,
    values_given,
};
use crate::fixtures::scope::FixtureScope;
use crate::ids::new_id;
use crate::internal::hook::{HookAction, HookFn};
use crate::ordered::{set_insert_full, set_items, set_new};
use crate::test::{
    Test, TestContext, TestMetadata, TestMetadataView, TestResult, TestResultView, TestStatus,
};
use crate::text::{starts_with, texts};

verus! {

/// Whether a status is counted as failed: the test failed or ran out of time.
pub open spec fn counts_as_failed(status: TestStatus) -> bool {
    status == TestStatus::Failed || status == TestStatus::Timeout
}

/// Whether a status is counted as skipped: the test was skipped or ignored.
pub open spec fn counts_as_skipped(status: TestStatus) -> bool {
    status == TestStatus::Skipped || status == TestStatus::Ignored
}

/// How many of `results` passed.
pub open spec fn passed_count(results: Seq<TestResultView>) -> nat
    decreases results.len(),
{
    if results.len() == 0 {
        0
    } else {
        passed_count(results.drop_last()) + if results.last().status == TestStatus::Passed {
            1nat
        } else {
            0nat
        }
    }
}

/// How many of `results` count as failed.
pub open spec fn failed_count(results: Seq<TestResultView>) -> nat
    decreases results.len(),
{
    if results.len() == 0 {
        0
    } else {
        failed_count(results.drop_last()) + if counts_as_failed(results.last().status) {
            1nat
        } else {
            0nat
        }
    }
}

/// How many of `results` count as skipped.
pub open spec fn skipped_count(results: Seq<TestResultView>) -> nat
    decreases results.len(),
{
    if results.len() == 0 {
        0
    } else {
        skipped_count(results.drop_last()) + if counts_as_skipped(results.last().status) {
            1nat
        } else {
            0nat
        }
    }
}

/// Every result is counted exactly once: as passed, as failed or as skipped.
pub proof fn lemma_counts_partition(results: Seq<TestResultView>)
    ensures
        passed_count(results) + failed_count(results) + skipped_count(results) == results.len(),
    decreases results.len(),
{
    if results.len() > 0 {
        lemma_counts_partition(results.drop_last());
    }
}

/// Of one result alone, the counters hold one for its own status and zero
/// for the two others.
pub proof fn lemma_counts_single(result: TestResultView)
    ensures
        passed_count(seq![result]) == if result.status == TestStatus::Passed {
            1nat
        } else {
            0nat
        },
        failed_count(seq![result]) == if counts_as_failed(result.status) {
            1nat
        } else {
            0nat
        },
        skipped_count(seq![result]) == if counts_as_skipped(result.status) {
            1nat
        } else {
            0nat
        },
{
    let one = seq![result];
    assert(one.drop_last() =~= Seq::<TestResultView>::empty());
    assert(one.last() == result);
    assert(passed_count(one.drop_last()) == 0);
    assert(failed_count(one.drop_last()) == 0);
    assert(skipped_count(one.drop_last()) == 0);
}

/// The contents of each result of `v`.
pub open spec fn result_views(v: Seq<TestResult>) -> Seq<TestResultView> {
    v.map_values(|r: TestResult| r@)
}

/// The outcome of one suite: its tests' results and how many of them
/// passed, failed and were skipped.
#[derive(Debug)]
pub struct SuiteResult {
    pub id: uuid::Uuid,
    pub name: String,
    /// When the result was created, in milliseconds since the Unix epoch.
    pub start_time: i64,
    /// When the suite was finished, in milliseconds since the Unix epoch.
    pub end_time: Option<i64>,
    /// How long the suite took, in milliseconds.
    pub duration: Option<u64>,
    pub test_results: Vec<TestResult>,
    pub metadata: TestMetadata,
    pub total_tests: usize,
    pub passed_tests: usize,
    pub failed_tests: usize,
    pub skipped_tests: usize,
    pub error: Option<Error>,
}

/// The mathematical content of a [`SuiteResult`].
pub ghost struct SuiteResultView {
    pub id: uuid::Uuid,
    pub name: Seq<char>,
    pub start_time: i64,
    pub end_time: Option<i64>,
    pub duration: Option<u64>,
    pub test_results: Seq<TestResultView>,
    pub metadata: TestMetadataView,
    pub total_tests: nat,
    pub passed_tests: nat,
    pub failed_tests: nat,
    pub skipped_tests: nat,
    pub error: Option<ErrorView>,
}

impl SuiteResultView {
    /// The counters say what the list of results holds.
    pub open spec fn wf(self) -> bool {
        &&& self.total_tests == self.test_results.len()
        &&& self.passed_tests == passed_count(self.test_results)
        &&& self.failed_tests == failed_count(self.test_results)
        &&& self.skipped_tests == skipped_count(self.test_results)
    }

    /// No test failed and the suite itself met no error.
    pub open spec fn all_passed(self) -> bool {
        self.failed_tests == 0 && self.error is None
    }

    /// This result with one more test result at its end.
    pub open spec fn with_test(self, result: TestResultView) -> Self {
        SuiteResultView {
            test_results: self.test_results.push(result),
            total_tests: self.total_tests + 1,
            passed_tests: self.passed_tests + if result.status == TestStatus::Passed {
                1nat
            } else {
                0nat
            },
            failed_tests: self.failed_tests + if counts_as_failed(result.status) {
                1nat
            } else {
                0nat
            },
            skipped_tests: self.skipped_tests + if counts_as_skipped(result.status) {
                1nat
            } else {
                0nat
            },
            ..self
        }
    }

    /// This result once it is finished at the time `now`.
    pub open spec fn finished(self, error: Option<ErrorView>, now: i64) -> Self {
        SuiteResultView {
            error,
            end_time: Some(now),
            duration: Some(elapsed_between(self.start_time, now)),
            ..self
        }
    }
}

impl View for SuiteResult {
    type V = SuiteResultView;

    open spec fn view(&self) -> SuiteResultView {
        SuiteResultView {
            id: self.id,
            name: self.name@,
            start_time: self.start_time,
            end_time: self.end_time,
            duration: self.duration,
            test_results: result_views(self.test_results@),
            metadata: self.metadata@,
            total_tests: self.total_tests as nat,
            passed_tests: self.passed_tests as nat,
            failed_tests: self.failed_tests as nat,
            skipped_tests: self.skipped_tests as nat,
            error: opt_error_view(self.error),
        }
    }
}

/// Adding a test result keeps the counters true to the list, and the total
/// equal to the sum of the three counters.
pub proof fn lemma_with_test_keeps_wf(suite: SuiteResultView, result: TestResultView)
    requires
        suite.wf(),
    ensures
        suite.with_test(result).wf(),
        suite.with_test(result).total_tests == suite.with_test(result).passed_tests
            + suite.with_test(result).failed_tests + suite.with_test(result).skipped_tests,
{
    let after = suite.test_results.push(result);
    assert(after.drop_last() =~= suite.test_results);
    lemma_counts_partition(after);
}

/// In every suite result whose counters are true to its list, the total is
/// the sum of the passed, failed and skipped tests.
pub proof fn lemma_suite_total_is_sum(suite: SuiteResultView)
    requires
        suite.wf(),
    ensures
        suite.total_tests == suite.passed_tests + suite.failed_tests + suite.skipped_tests,
{
    lemma_counts_partition(suite.test_results);
}

/// A copy of `results` that holds the same results.
pub fn clone_results(results: &Vec<TestResult>) -> (r: Vec<TestResult>)
    ensures
        result_views(r@) == result_views(results@),
{
    let mut r: Vec<TestResult> = Vec::new();
    let mut i: usize = 0;
    assert(result_views(r@) =~= result_views(results@).take(0));
    while i < results.len()
        invariant
            i <= results.len(),
            result_views(r@) == result_views(results@).take(i as int),
        decreases results.len() - i,
    {
        let ghost had = result_views(r@);
        r.push(results[i].clone());
        assert(result_views(r@) =~= had.push(results@[i as int]@));
        i += 1;
        assert(result_views(r@) =~= result_views(results@).take(i as int));
    }
    assert(result_views(results@).take(i as int) =~= result_views(results@));
    r
}

impl Clone for SuiteResult {
    fn clone(&self) -> (r: Self)
        ensures
            r@ == self@,
    {
        SuiteResult {
            id: self.id,
            name: self.name.clone(),
            start_time: self.start_time,
            end_time: self.end_time,
            duration: self.duration,
            test_results: clone_results(&self.test_results),
            metadata: self.metadata.clone(),
            total_tests: self.total_tests,
            passed_tests: self.passed_tests,
            failed_tests: self.failed_tests,
            skipped_tests: self.skipped_tests,
            error: match &self.error {
                Some(e) => Some(e.clone()),
                None => None,
            },
        }
    }
}

impl SuiteResult {
    /// The counters say what the list of results holds.
    pub open spec fn wf(&self) -> bool {
        self@.wf()
    }

    /// An empty result created at the time `now`.
    pub fn new_at(id: uuid::Uuid, name: String, metadata: TestMetadata, now: i64) -> (r: Self)
        ensures
            r.wf(),
            r@ == (SuiteResultView {
                id,
                name: name@,
                start_time: now,
                end_time: None,
                duration: None,
                test_results: Seq::empty(),
                metadata: metadata@,
                total_tests: 0,
                passed_tests: 0,
                failed_tests: 0,
                skipped_tests: 0,
                error: None,
            }),
    {
        let r = SuiteResult {
            id,
            name,
            start_time: now,
            end_time: None,
            duration: None,
            test_results: Vec::new(),
            metadata,
            total_tests: 0,
            passed_tests: 0,
            failed_tests: 0,
            skipped_tests: 0,
            error: None,
        };
        assert(result_views(r.test_results@) =~= Seq::empty());
        r
    }

    /// An empty result created now.
    pub fn new(id: uuid::Uuid, name: String, metadata: TestMetadata) -> (r: Self)
        ensures
            r.wf(),
            r@ == (SuiteResultView {
                id,
                name: name@,
                start_time: r.start_time,
                end_time: None,
                duration: None,
                test_results: Seq::empty(),
                metadata: metadata@,
                total_tests: 0,
                passed_tests: 0,
                failed_tests: 0,
                skipped_tests: 0,
                error: None,
            }),
    {
        SuiteResult::new_at(id, name, metadata, now_millis())
    }

    /// Appends a test result and counts it: as passed, as failed (failed or
    /// timed out) or as skipped (skipped or ignored).
    pub fn add_test_result(&mut self, result: TestResult)
        requires
            old(self).wf(),
        ensures
            final(self).wf(),
            final(self)@ == old(self)@.with_test(result@),
            final(self).total_tests == final(self).passed_tests + final(self).failed_tests
                + final(self).skipped_tests,
    {
        proof {
            lemma_with_test_keeps_wf(self@, result@);
            lemma_counts_partition(self@.test_results);
        }
        let status = result.status;
        self.test_results.push(result);
        assert(result_views(self.test_results@) =~= result_views(old(self).test_results@).push(
            result@,
        ));
        assert(old(self).total_tests == result_views(old(self).test_results@).len());
        assert(self.test_results.len() == old(self).total_tests + 1);
        self.total_tests += 1;
        match status {
            TestStatus::Passed => {
                self.passed_tests += 1;
            },
            TestStatus::Failed | TestStatus::Timeout => {
                self.failed_tests += 1;
            },
            TestStatus::Skipped | TestStatus::Ignored => {
                self.skipped_tests += 1;
            },
        }
    }

    /// Records the end of the suite, with `now` as the time it ended.
    pub fn finish_at(&mut self, error: Option<Error>, now: i64)
        ensures
            final(self)@ == old(self)@.finished(opt_error_view(error), now),
            final(self).error == error,
    {
        self.end_time = Some(now);
        self.error = error;
        self.duration = Some(elapsed_millis(self.start_time, now));
    }

    /// Records the end of the suite, with the present moment as the time it ended.
    pub fn finish(&mut self, error: Option<Error>)
        ensures
            final(self).end_time is Some,
            final(self)@ == old(self)@.finished(opt_error_view(error), final(self).end_time->0),
            final(self).error == error,
    {
        self.finish_at(error, now_millis());
    }

    /// Whether no test failed and the suite itself met no error.
    pub fn all_passed(&self) -> (r: bool)
        ensures
            r == self@.all_passed(),
            r <==> self.failed_tests == 0 && self.error is None,
    {
        self.failed_tests == 0 && self.error.is_none()
    }
}

/// How a suite is to be run.
#[derive(Debug)]
pub struct SuiteAttributes {
    /// The suite is left out of a run.
    pub ignore: bool,
    /// All tests of the suite run, whatever they are marked with.
    pub only: bool,
    pub retries: u32,
    /// The time the suite may take, in milliseconds.
    pub timeout: Option<u64>,
    pub tags: Vec<String>,
    pub category: Option<String>,
    pub parallel: bool,
    pub max_concurrent: Option<usize>,
}

impl Default for SuiteAttributes {
    fn default() -> (r: Self)
        ensures
            !r.ignore,
            !r.only,
            r.retries == 0,
            r.timeout is None,
            r.tags@.len() == 0,
            r.category is None,
            !r.parallel,
            r.max_concurrent is None,
    {
        SuiteAttributes {
            ignore: false,
            only: false,
            retries: 0,
            timeout: None,
            tags: Vec::new(),
            category: None,
            parallel: false,
            max_concurrent: None,
        }
    }
}

/// The names of the callbacks of `hooks`, in their order.
pub open spec fn callback_names(hooks: Seq<HookFn>) -> Seq<Seq<char>> {
    hooks.map_values(|h: HookFn| h.name@)
}

/// The message of the error for the suite hook `name` that failed with
/// `cause`.
pub open spec fn suite_hook_message(name: Seq<char>, cause: ErrorView) -> Seq<char> {
    "Hook '"@ + name + "' execution failed: "@ + cause.text()
}

/// The error for the suite hook `name` of the stage `hook_type` that failed
/// with `cause`.
pub fn suite_hook_failure(hook_type: &str, name: &str, cause: &Error) -> (e: Error)
    ensures
        e@ == (ErrorView {
            kind: ErrorKind::Hook,
            stage: hook_type@,
            message: suite_hook_message(name@, cause@),
        }),
{
    let mut message = String::from_str("Hook '");
    message.append(name);
    message.append("' execution failed: ");
    let words = cause.to_string();
    message.append(words.as_str());
    Error::hook(hook_type, message.as_str())
}

/// Whether `e` is the error of one of the suite hooks `names` of the stage
/// `hook_type`, for some cause.
pub open spec fn is_suite_hook_failure(e: ErrorView, hook_type: Seq<char>, names: Seq<Seq<char>>) ->
    bool {
    exists|i: int, cause: ErrorView|
        0 <= i < names.len() && e == (ErrorView {
            kind: ErrorKind::Hook,
            stage: hook_type,
            message: #[trigger] suite_hook_message(names[i], cause),
        })
}

/// Whether each of the first `n` callbacks of `hooks` may end without a
/// failure when it is run for `context`.
pub open spec fn callbacks_pass(hooks: Seq<HookFn>, context: TestContext, n: int) -> bool {
    forall|k: int| 0 <= k < n && k < hooks.len() ==> (#[trigger] hooks[k]).may_end(context, None)
}

/// Whether `e` is the error of a run of the callbacks `hooks` for the stage
/// `hook_type` that stopped at the callback at index `at`: the callbacks
/// before it ended without a failure, the callback itself ended with
/// `cause`, and `e` names the stage, the callback and `cause`.
pub open spec fn callbacks_stopped_at(
    hooks: Seq<HookFn>,
    hook_type: Seq<char>,
    context: TestContext,
    at: int,
    cause: Error,
    e: ErrorView,
) -> bool {
    &&& 0 <= at < hooks.len()
    &&& callbacks_pass(hooks, context, at)
    &&& hooks[at].may_end(context, Some(cause))
    &&& e == (ErrorView {
        kind: ErrorKind::Hook,
        stage: hook_type,
        message: suite_hook_message(hooks[at].name@, cause@),
    })
}

/// The hooks of a suite: four lists of callbacks, each in the order in which
/// the callbacks were added.
pub struct SuiteHooks {
    pub before_all: Vec<HookFn>,
    pub after_all: Vec<HookFn>,
    pub before_each: Vec<HookFn>,
    pub after_each: Vec<HookFn>,
}

impl SuiteHooks {
    /// Whether there is no hook.
    pub open spec fn is_empty(&self) -> bool {
        &&& self.before_all@.len() == 0
        &&& self.after_all@.len() == 0
        &&& self.before_each@.len() == 0
        &&& self.after_each@.len() == 0
    }

    /// No hooks.
    pub fn new() -> (r: Self)
        ensures
            r.before_all@.len() == 0,
            r.after_all@.len() == 0,
            r.before_each@.len() == 0,
            r.after_each@.len() == 0,
    {
        SuiteHooks {
            before_all: Vec::new(),
            after_all: Vec::new(),
            before_each: Vec::new(),
            after_each: Vec::new(),
        }
    }

    /// These hooks with one more that runs before all tests.
    pub fn before_all(self, name: &str, hook: Box<dyn HookAction>) -> (r: Self)
        ensures
            callback_names(r.before_all@) == callback_names(self.before_all@).push(name@),
            r.before_all@.len() == self.before_all@.len() + 1,
            r.before_all@.drop_last() == self.before_all@,
            r.before_all@.last().name@ == name@,
            r.before_all@.last().function == hook,
            r.after_all == self.after_all,
            r.before_each == self.before_each,
            r.after_each == self.after_each,
    {
        let mut r = self;
        let mut given = hook;
        let mut callback = HookFn::unfilled(name);
        std::mem::swap(&mut callback.function, &mut given);
        r.before_all.push(callback);
        assert(callback_names(r.before_all@) =~= callback_names(self.before_all@).push(name@));
        assert(r.before_all@.drop_last() =~= self.before_all@);
        r
    }

    /// These hooks with one more that runs after all tests.
    pub fn after_all(self, name: &str, hook: Box<dyn HookAction>) -> (r: Self)
        ensures
            callback_names(r.after_all@) == callback_names(self.after_all@).push(name@),
            r.after_all@.len() == self.after_all@.len() + 1,
            r.after_all@.drop_last() == self.after_all@,
            r.after_all@.last().name@ == name@,
            r.after_all@.last().function == hook,
            r.before_all == self.before_all,
            r.before_each == self.before_each,
            r.after_each == self.after_each,
    {
        let mut r = self;
        let mut given = hook;
        let mut callback = HookFn::unfilled(name);
        std::mem::swap(&mut callback.function, &mut given);
        r.after_all.push(callback);
        assert(callback_names(r.after_all@) =~= callback_names(self.after_all@).push(name@));
        assert(r.after_all@.drop_last() =~= self.after_all@);
        r
    }

    /// These hooks with one more that runs before each test.
    pub fn before_each(self, name: &str, hook: Box<dyn HookAction>) -> (r: Self)
        ensures
            callback_names(r.before_each@) == callback_names(self.before_each@).push(name@),
            r.before_each@.len() == self.before_each@.len() + 1,
            r.before_each@.drop_last() == self.before_each@,
            r.before_each@.last().name@ == name@,
            r.before_each@.last().function == hook,
            r.before_all == self.before_all,
            r.after_all == self.after_all,
            r.after_each == self.after_each,
    {
        let mut r = self;
        let mut given = hook;
        let mut callback = HookFn::unfilled(name);
        std::mem::swap(&mut callback.function, &mut given);
        r.before_each.push(callback);
        assert(callback_names(r.before_each@) =~= callback_names(self.before_each@).push(name@));
        assert(r.before_each@.drop_last() =~= self.before_each@);
        r
    }

    /// These hooks with one more that runs after each test.
    pub fn after_each(self, name: &str, hook: Box<dyn HookAction>) -> (r: Self)
        ensures
            callback_names(r.after_each@) == callback_names(self.after_each@).push(name@),
            r.after_each@.len() == self.after_each@.len() + 1,
            r.after_each@.drop_last() == self.after_each@,
            r.after_each@.last().name@ == name@,
            r.after_each@.last().function == hook,
            r.before_all == self.before_all,
            r.after_all == self.after_all,
            r.before_each == self.before_each,
    {
        let mut r = self;
        let mut given = hook;
        let mut callback = HookFn::unfilled(name);
        std::mem::swap(&mut callback.function, &mut given);
        r.after_each.push(callback);
        assert(callback_names(r.after_each@) =~= callback_names(self.after_each@).push(name@));
        assert(r.after_each@.drop_last() =~= self.after_each@);
        r
    }

    /// Runs the callbacks `hooks` in their order, and stops at the first
    /// that fails: the callbacks after it do not run, and the error names
    /// the stage `hook_type`, the callback and what it returned. An empty
    /// list succeeds.
    pub fn execute_hooks(&self, hooks: &Vec<HookFn>, context: &TestContext, hook_type: &str) -> (r:
        Result<(), Error>)
        ensures
            hooks@.len() == 0 ==> r is Ok,
            r is Ok ==> callbacks_pass(hooks@, *context, hooks@.len() as int),
            r is Err ==> exists|at: int, cause: Error| #[trigger]
                callbacks_stopped_at(hooks@, hook_type@, *context, at, cause, r->Err_0@),
            r is Err ==> is_suite_hook_failure(r->Err_0@, hook_type@, callback_names(hooks@)),
    {
        let mut i: usize = 0;
        while i < hooks.len()
            invariant
                i <= hooks.len(),
                callbacks_pass(hooks@, *context, i as int),
            decreases hooks.len() - i,
        {
            match hooks[i].execute(context) {
                Ok(()) => {},
                Err(cause) => {
                    let e = suite_hook_failure(hook_type, hooks[i].name.as_str(), &cause);
                    assert(callback_names(hooks@)[i as int] == hooks@[i as int].name@);
                    assert(e@.message == suite_hook_message(
                        callback_names(hooks@)[i as int],
                        cause@,
                    ));
                    let r: Result<(), Error> = Err(e);
                    assert(callbacks_stopped_at(
                        hooks@,
                        hook_type@,
                        *context,
                        i as int,
                        cause,
                        r->Err_0@,
                    ));
                    return r;
                },
            }
            i += 1;
        }
        Ok(())
    }
}

/// Whether a test is marked to run alone, and whether it is marked to be
/// left out.
pub ghost struct TestMarks {
    pub only: bool,
    pub ignore: bool,
}

/// Whether the test at index `i` is run: every test where the suite is
/// marked `only`; else the tests marked `only` where there is any; else the
/// tests that are not marked `ignore`.
pub open spec fn is_runnable(marks: Seq<TestMarks>, suite_only: bool, i: int) -> bool {
    if suite_only {
        true
    } else if exists|j: int| 0 <= j < marks.len() && (#[trigger] marks[j]).only {
        marks[i].only
    } else {
        !marks[i].ignore
    }
}

/// The indices below `n` of the tests that are run, in rising order.
pub open spec fn runnable_below(marks: Seq<TestMarks>, suite_only: bool, n: int) -> Seq<int>
    decreases n,
{
    if n <= 0 {
        Seq::empty()
    } else if is_runnable(marks, suite_only, n - 1) {
        runnable_below(marks, suite_only, n - 1).push(n - 1)
    } else {
        runnable_below(marks, suite_only, n - 1)
    }
}

/// The indices of the tests that are run, in the order of their declaration.
pub open spec fn runnable(marks: Seq<TestMarks>, suite_only: bool) -> Seq<int> {
    runnable_below(marks, suite_only, marks.len() as int)
}

/// Every index that `runnable_below` gives is the index of a test below `n`.
pub proof fn lemma_runnable_in_range(marks: Seq<TestMarks>, suite_only: bool, n: int)
    requires
        n <= marks.len(),
    ensures
        runnable_below(marks, suite_only, n).len() <= if n < 0 {
            0
        } else {
            n
        },
        forall|k: int|
            0 <= k < runnable_below(marks, suite_only, n).len() ==> 0 <= #[trigger] runnable_below(
                marks,
                suite_only,
                n,
            )[k] < n,
    decreases n,
{
    if n > 0 {
        lemma_runnable_in_range(marks, suite_only, n - 1);
    }
}

/// The result of a test that passed, once the hooks after it have run: a
/// test that had passed fails with the hooks' error where they failed; a
/// test that had not passed stays as it was.
pub open spec fn settled(result: TestResultView, after_each: Result<(), Error>, now: i64) ->
    TestResultView {
    match after_each {
        Err(e) => if result.status == TestStatus::Passed {
            result.finished(TestStatus::Failed, Some(e@), now)
        } else {
            result
        },
        Ok(_) => result,
    }
}

/// The result of a test once the hooks after it have run, at the time `now`.
pub fn settle_after_each(result: TestResult, after_each: Result<(), Error>, now: i64) -> (r:
    TestResult)
    ensures
        r@ == settled(result@, after_each, now),
{
    let mut r = result;
    match after_each {
        Err(e) => {
            if r.passed() {
                r.finish_at(TestStatus::Failed, Some(e), now);
            }
        },
        Ok(()) => {},
    }
    r
}

/// The failed result at the time `now` of the test `test` that could not
/// be run because preparing it ended in `error`.
pub open spec fn failed_view(test: Test, error: ErrorView, now: i64) -> TestResultView {
    TestResultView {
        id: test.id,
        name: test.meta.name@,
        metadata: test.meta@,
        status: TestStatus::Failed,
        start_time: now,
        end_time: Some(now),
        duration: Some(0u64),
        error: Some(error),
    }
}

/// Whether `context` is the context in which `test` runs: it holds the
/// test's id and metadata.
pub open spec fn is_test_context(test: Test, context: TestContext) -> bool {
    context.test_id == test.id && context.metadata@ == test.meta@
}

/// Whether `e` is an error with which preparing a test for `context` may
/// end: the error of fixtures that cannot be put in an order, an error that
/// the setup callback of a test fixture may give, or the error of the hooks
/// before each test for a callback that may fail so.
pub open spec fn is_preparation_failure(
    hooks: SuiteHooks,
    fixtures: FixtureDependencyGraph,
    context: TestContext,
    e: Error,
) -> bool {
    ||| is_resolution_error(fixtures@, e@)
    ||| exists|k: int| #[trigger]
        setup_stopped_at(fixtures, fixtures@.setup_names(FixtureScope::Test), context, k, e)
    ||| exists|at: int, cause: Error| #[trigger]
        callbacks_stopped_at(hooks.before_each@, "before_each"@, context, at, cause, e@)
}

/// Whether the hooks after each test may give `after` for `context`: `Ok`
/// where every callback may end without a failure, else the error of the
/// callback that they stopped at.
pub open spec fn after_each_gave(
    hooks: SuiteHooks,
    context: TestContext,
    after: Result<(), Error>,
) -> bool {
    match after {
        Ok(_) => callbacks_pass(hooks.after_each@, context, hooks.after_each@.len() as int),
        Err(e) => exists|at: int, cause: Error| #[trigger]
            callbacks_stopped_at(hooks.after_each@, "after_each"@, context, at, cause, e@),
    }
}

/// Whether a test may be prepared for `context`: the setup callback of
/// every test fixture may give a value, and every hook before each test may
/// end without a failure.
pub open spec fn test_prepared(
    hooks: SuiteHooks,
    fixtures: FixtureDependencyGraph,
    context: TestContext,
) -> bool {
    &&& setups_gave(fixtures, fixtures@.setup_names(FixtureScope::Test), context)
    &&& callbacks_pass(hooks.before_each@, context, hooks.before_each@.len() as int)
}

/// Whether `result` is a result that a suite with the hooks `hooks` and the
/// fixtures `fixtures` may record of `test` when it runs for `context`:
/// the failed result of a test that could not be prepared, or, for a test
/// that may be prepared, what the test's body may report, settled by what
/// the hooks after it may give.
pub open spec fn may_record(
    hooks: SuiteHooks,
    fixtures: FixtureDependencyGraph,
    test: Test,
    context: TestContext,
    result: TestResultView,
) -> bool {
    ||| exists|e: Error, now: i64|
        is_preparation_failure(hooks, fixtures, context, e) && result == #[trigger] failed_view(
            test,
            e@,
            now,
        )
    ||| exists|failure: Option<Error>, ran: TestResultView, after: Result<(), Error>, now: i64|
        #![trigger test.reports(context, failure, ran), settled(ran, after, now)]
        test_prepared(hooks, fixtures, context) && test.reports(context, failure, ran) && ran.id
            == test.id && ran.name == test.meta.name@ && after_each_gave(hooks, context, after)
            && result == settled(ran, after, now)
}

/// Whether `result` is a result that the suite may record of `test`; see
/// [`may_record`].
pub open spec fn is_result_of(
    hooks: SuiteHooks,
    fixtures: FixtureDependencyGraph,
    test: Test,
    result: TestResultView,
) -> bool {
    exists|context: TestContext|
        is_test_context(test, context) && #[trigger] may_record(
            hooks,
            fixtures,
            test,
            context,
            result,
        )
}

/// The failed result of a test that could not be run because preparing it
/// ended in `error`.
pub fn failed_before_run(test: &Test, error: Error, now: i64) -> (r: TestResult)
    ensures
        r@ == failed_view(*test, error@, now),
{
    let mut r = TestResult::new_at(test.id, test.meta.name.clone(), test.meta.clone(), now);
    r.finish_at(TestStatus::Failed, Some(error), now);
    r
}

/// A named, ordered collection of tests that share fixtures and hooks.
pub struct TestSuite {
    pub id: uuid::Uuid,
    pub name: String,
    pub mod_path: String,
    /// The names of the tests, in the order of their declaration.
    pub names: indexmap::IndexSet<String>,
    /// The tests; the one at index `i` is declared under the name at index `i`.
    pub tests: Vec<Test>,
    pub attributes: SuiteAttributes,
    pub meta: TestMetadata,
    pub hooks: SuiteHooks,
    pub fixtures: FixtureRegistry,
}

impl TestSuite {
    /// The names of the tests, in the order of their declaration.
    pub open spec fn test_names(&self) -> Seq<Seq<char>> {
        set_items(self.names)
    }

    /// The marks of the tests, in the order of their declaration.
    pub open spec fn test_marks(&self) -> Seq<TestMarks> {
        Seq::new(
            self.tests@.len(),
            |i: int|
                TestMarks {
                    only: self.tests@[i].attributes.only,
                    ignore: self.tests@[i].attributes.ignore,
                },
        )
    }

    /// The indices of the tests that are run: [`runnable`] of the tests'
    /// marks and the suite's own `only` mark.
    pub open spec fn runnable_tests(&self) -> Seq<int> {
        runnable(self.test_marks(), self.attributes.only)
    }

    /// Every test is kept under its own name, no name is kept twice, and the
    /// fixtures are well formed.
    pub open spec fn wf(&self) -> bool {
        &&& self.fixtures.wf()
        &&& set_items(self.names).no_duplicates()
        &&& set_items(self.names).len() == self.tests@.len()
        &&& forall|i: int|
            0 <= i < self.tests@.len() ==> (#[trigger] self.tests@[i]).meta.name@ == set_items(
                self.names,
            )[i]
    }

    /// Whether `other` is this suite but for its attributes: it has the
    /// same id, names, tests, metadata, hooks and fixtures.
    pub open spec fn but_for_attributes(&self, other: TestSuite) -> bool {
        other == (TestSuite { attributes: other.attributes, ..*self })
    }

    /// The tests of a suite with the tests `tests` under the names `names`
    /// once `test` is declared: in the place of the test that had its name,
    /// or after all others where none had it.
    pub open spec fn tests_with(tests: Seq<Test>, names: Seq<Seq<char>>, test: Test) -> Seq<Test> {
        if names.contains(test.meta.name@) {
            tests.update(names.index_of(test.meta.name@), test)
        } else {
            tests.push(test)
        }
    }

    /// Whether the suite holds its name, no tests, no fixtures, and the
    /// attributes that a suite has where none are given.
    pub open spec fn is_bare(&self, name: Seq<char>) -> bool {
        &&& self.name@ == name
        &&& self.meta@ == crate::outcome::bare_metadata(name)
        &&& self.test_names().len() == 0
        &&& self.tests@.len() == 0
        &&& !self.attributes.ignore
        &&& !self.attributes.only
        &&& self.attributes.retries == 0
        &&& self.attributes.timeout is None
        &&& self.attributes.tags@.len() == 0
        &&& self.attributes.category is None
        &&& !self.attributes.parallel
        &&& self.attributes.max_concurrent is None
        &&& self.fixtures@ == (crate::fixtures::dependency::RegistryView {
            graph: crate::fixtures::dependency::GraphView {
                names: Seq::empty(),
                deps: Seq::empty(),
                definitions: Seq::empty(),
            },
            suite_instances: Seq::empty(),
            test_instances: Seq::empty(),
        })
    }

    /// A suite without tests, hooks and fixtures.
    pub fn new(name: &str) -> (r: Self)
        ensures
            r.wf(),
            r.is_bare(name@),
            r.hooks.is_empty(),
            r.name@ == name@,
            r.mod_path@.len() == 0,
            r.meta@ == crate::outcome::bare_metadata(name@),
            r.test_names().len() == 0,
            !r.attributes.ignore,
            !r.attributes.only,
    {
        let r = TestSuite {
            id: new_id(),
            name: String::from_str(name),
            mod_path: String::new(),
            names: set_new(),
            tests: Vec::new(),
            attributes: SuiteAttributes::default(),
            meta: TestMetadata::new(name),
            hooks: SuiteHooks::new(),
            fixtures: FixtureRegistry::new(),
        };
        r
    }

    /// A suite without tests that lives in the module `mod_path`.
    pub fn new_with_module(name: &str, mod_path: &str) -> (r: Self)
        ensures
            r.wf(),
            r.is_bare(name@),
            r.hooks.is_empty(),
            r.name@ == name@,
            r.mod_path@ == mod_path@,
            r.test_names().len() == 0,
    {
        let mut r = TestSuite::new(name);
        r.mod_path = String::from_str(mod_path);
        r
    }

    /// A suite without tests that has the hooks `hooks`.
    pub fn new_with_hooks(name: &str, hooks: SuiteHooks) -> (r: Self)
        ensures
            r.wf(),
            r.is_bare(name@),
            r.mod_path@.len() == 0,
            r.name@ == name@,
            r.hooks == hooks,
            r.test_names().len() == 0,
    {
        let mut r = TestSuite::new(name);
        r.hooks = hooks;
        r
    }

    /// This suite with `test` declared: in the place of the test that had
    /// its name, or after all others where none had it.
    pub fn add_test(self, test: Test) -> (r: Self)
        requires
            self.wf(),
        ensures
            r.wf(),
            r.id == self.id,
            r.name == self.name,
            r.mod_path == self.mod_path,
            r.attributes == self.attributes,
            r.meta == self.meta,
            r.hooks == self.hooks,
            r.fixtures == self.fixtures,
            r.test_names() == crate::fixtures::dependency::names_with(
                self.test_names(),
                test.meta.name@,
            ),
            r.tests@ == Self::tests_with(self.tests@, self.test_names(), test),
    {
        let mut r = self;
        let (index, fresh) = set_insert_full(&mut r.names, test.meta.name.clone());
        if fresh {
            r.tests.push(test);
        } else {
            proof {
                crate::fixtures::dependency::lemma_index_of_unique(self.test_names(), index as int);
            }
            r.tests.set(index, test);
        }
        r
    }

    /// This suite with other attributes.
    pub fn with_attributes(self, attributes: SuiteAttributes) -> (r: Self)
        requires
            self.wf(),
        ensures
            r.wf(),
            r == (TestSuite { attributes, ..self }),
            r.attributes == attributes,
            r.test_names() == self.test_names(),
            r.test_marks() == self.test_marks(),
    {
        let mut r = self;
        r.attributes = attributes;
        r
    }

    /// This suite with other metadata.
    pub fn with_metadata(self, meta: TestMetadata) -> (r: Self)
        requires
            self.wf(),
        ensures
            r.wf(),
            r == (TestSuite { meta, ..self }),
            r.meta == meta,
            r.test_names() == self.test_names(),
    {
        let mut r = self;
        r.meta = meta;
        r
    }

    /// This suite with other hooks.
    pub fn with_hooks(self, hooks: SuiteHooks) -> (r: Self)
        requires
            self.wf(),
        ensures
            r.wf(),
            r == (TestSuite { hooks, ..self }),
            r.hooks == hooks,
            r.test_names() == self.test_names(),
    {
        let mut r = self;
        r.hooks = hooks;
        r
    }

    /// This suite with other fixtures.
    pub fn with_fixtures(self, registry: FixtureRegistry) -> (r: Self)
        requires
            self.wf(),
            registry.wf(),
        ensures
            r.wf(),
            r == (TestSuite { fixtures: registry, ..self }),
            r.fixtures == registry,
            r.test_names() == self.test_names(),
    {
        let mut r = self;
        r.fixtures = registry;
        r
    }

    /// The module the suite lives in.
    pub fn mod_path(&self) -> (r: &str)
        ensures
            r@ == self.mod_path@,
    {
        self.mod_path.as_str()
    }

    /// Whether the suite lives in `module` or below it: whether its module
    /// path begins with `module`.
    pub fn is_in_module(&self, module: &str) -> (r: bool)
        ensures
            r == starts_with(self.mod_path@, module@),
    {
        crate::text::str_starts_with(self.mod_path.as_str(), module)
    }

    /// The tests, in the order of their declaration.
    pub fn get_tests(&self) -> (r: &Vec<Test>)
        ensures
            r@ == self.tests@,
            r@.len() == self.test_marks().len(),
    {
        &self.tests
    }

    /// The indices of the tests that are run, in the order of their
    /// declaration.
    pub fn runnable_indices(&self) -> (r: Vec<usize>)
        ensures
            r@.len() == self.runnable_tests().len(),
            forall|k: int| 0 <= k < r@.len() ==> r@[k] as int == self.runnable_tests()[k],
            forall|k: int| 0 <= k < r@.len() ==> (#[trigger] r@[k]) < self.test_marks().len(),
    {
        let ghost marks = self.test_marks();
        let mut any_only = false;
        let mut i: usize = 0;
        while i < self.tests.len()
            invariant
                i <= self.tests.len(),
                marks == self.test_marks(),
                any_only <==> exists|j: int| 0 <= j < i && (#[trigger] marks[j]).only,
            decreases self.tests.len() - i,
        {
            if self.tests[i].is_only() {
                assert(marks[i as int].only);
                any_only = true;
            }
            i += 1;
        }
        let mut r: Vec<usize> = Vec::new();
        let mut k: usize = 0;
        while k < self.tests.len()
            invariant
                k <= self.tests.len(),
                marks == self.test_marks(),
                marks.len() == self.tests.len(),
                any_only <==> exists|j: int| 0 <= j < marks.len() && (#[trigger] marks[j]).only,
                r@.len() == runnable_below(marks, self.attributes.only, k as int).len(),
                forall|x: int|
                    0 <= x < r@.len() ==> r@[x] as int == runnable_below(
                        marks,
                        self.attributes.only,
                        k as int,
                    )[x],
                forall|x: int| 0 <= x < r@.len() ==> (#[trigger] r@[x]) < k,
            decreases self.tests.len() - k,
        {
            let run = if self.attributes.only {
                true
            } else if any_only {
                self.tests[k].is_only()
            } else {
                !self.tests[k].should_ignore()
            };
            assert(run == is_runnable(marks, self.attributes.only, k as int));
            if run {
                r.push(k);
            }
            k += 1;
        }
        r
    }

    /// The tests that are run: all where the suite is marked `only`; else
    /// the tests marked `only` where there is any; else the tests that are
    /// not marked `ignore`.
    pub fn get_runnable_tests(&self) -> (r: Vec<&Test>)
        ensures
            r@.len() == self.runnable_tests().len(),
            forall|k: int|
                0 <= k < r@.len() ==> 0 <= self.runnable_tests()[k] < self.tests@.len()
                    && *(#[trigger] r@[k]) == self.tests@[self.runnable_tests()[k]],
    {
        let indices = self.runnable_indices();
        let mut r: Vec<&Test> = Vec::new();
        let mut k: usize = 0;
        while k < indices.len()
            invariant
                k <= indices.len(),
                r@.len() == k,
                indices@.len() == self.runnable_tests().len(),
                forall|x: int|
                    0 <= x < indices@.len() ==> indices@[x] as int == self.runnable_tests()[x],
                forall|x: int|
                    0 <= x < indices@.len() ==> (#[trigger] indices@[x]) < self.test_marks().len(),
                forall|x: int|
                    0 <= x < k ==> *(#[trigger] r@[x]) == self.tests@[self.runnable_tests()[x]],
            decreases indices.len() - k,
        {
            r.push(&self.tests[indices[k]]);
            k += 1;
        }
        r
    }

    /// This suite, left out of runs.
    pub fn ignore(self) -> (r: Self)
        requires
            self.wf(),
        ensures
            r.wf(),
            r == (TestSuite {
                attributes: SuiteAttributes { ignore: true, ..self.attributes },
                ..self
            }),
            r.attributes.ignore,
            r.attributes.only == self.attributes.only,
            r.test_names() == self.test_names(),
    {
        let mut r = self;
        r.attributes.ignore = true;
        r
    }

    /// This suite with all its tests run, whatever they are marked with.
    pub fn only(self) -> (r: Self)
        requires
            self.wf(),
        ensures
            r.wf(),
            r == (TestSuite {
                attributes: SuiteAttributes { only: true, ..self.attributes },
                ..self
            }),
            r.attributes.only,
            r.attributes.ignore == self.attributes.ignore,
            r.test_names() == self.test_names(),
    {
        let mut r = self;
        r.attributes.only = true;
        r
    }

    /// This suite with another number of retries.
    pub fn retries(self, count: u32) -> (r: Self)
        requires
            self.wf(),
        ensures
            r.wf(),
            r == (TestSuite {
                attributes: SuiteAttributes { retries: count, ..self.attributes },
                ..self
            }),
            r.attributes.retries == count,
            r.test_names() == self.test_names(),
    {
        let mut r = self;
        r.attributes.retries = count;
        r
    }

    /// This suite with `timeout` milliseconds as the time it may take.
    pub fn timeout(self, timeout: u64) -> (r: Self)
        requires
            self.wf(),
        ensures
            r.wf(),
            r == (TestSuite {
                attributes: SuiteAttributes { timeout: Some(timeout), ..self.attributes },
                ..self
            }),
            r.attributes.timeout == Some(timeout),
            r.test_names() == self.test_names(),
    {
        let mut r = self;
        r.attributes.timeout = Some(timeout);
        r
    }

    /// This suite with one more tag.
    pub fn tag(self, tag: &str) -> (r: Self)
        requires
            self.wf(),
        ensures
            r.wf(),
            self.but_for_attributes(r),
            r.attributes == (SuiteAttributes { tags: r.attributes.tags, ..self.attributes }),
            r.attributes.tags@.drop_last() == self.attributes.tags@,
            texts(r.attributes.tags@) == texts(self.attributes.tags@).push(tag@),
            r.test_names() == self.test_names(),
    {
        let mut r = self;
        r.attributes.tags.push(String::from_str(tag));
        assert(texts(r.attributes.tags@) =~= texts(self.attributes.tags@).push(tag@));
        assert(r.attributes.tags@.drop_last() =~= self.attributes.tags@);
        r
    }

    /// This suite in the category `category`.
    pub fn category(self, category: &str) -> (r: Self)
        requires
            self.wf(),
        ensures
            r.wf(),
            self.but_for_attributes(r),
            r.attributes == (SuiteAttributes {
                category: r.attributes.category,
                ..self.attributes
            }),
            r.attributes.category is Some,
            r.attributes.category->0@ == category@,
            r.test_names() == self.test_names(),
    {
        let mut r = self;
        r.attributes.category = Some(String::from_str(category));
        r
    }

    /// Whether the suite is left out of runs.
    pub fn should_ignore(&self) -> (r: bool)
        ensures
            r == self.attributes.ignore,
    {
        self.attributes.ignore
    }

    /// Whether all tests of the suite run, whatever they are marked with.
    pub fn is_only(&self) -> (r: bool)
        ensures
            r == self.attributes.only,
    {
        self.attributes.only
    }

    /// The time the suite may take, in milliseconds.
    pub fn get_timeout(&self) -> (r: Option<u64>)
        ensures
            r == self.attributes.timeout,
    {
        self.attributes.timeout
    }
}

/// Whether `after` holds the names of the test fixtures with a value that
/// one test leaves of `before`: the setup stopped at a fixture and nothing
/// was torn down; or all were set up and then torn down, all of them or up
/// to the fixture whose teardown failed.
pub open spec fn test_table_step(
    graph: GraphView,
    before: Seq<Seq<char>>,
    after: Seq<Seq<char>>,
) -> bool {
    let plan = graph.setup_names(FixtureScope::Test);
    let back = graph.teardown_names(FixtureScope::Test);
    ||| exists|k: int| 0 <= k < plan.len() && after == #[trigger] set_up(graph, before, plan.take(k))
    ||| after == torn_down(graph, set_up(graph, before, plan), back)
    ||| exists|k: int|
        0 < k <= back.len() && after == #[trigger] torn_down(
            graph,
            set_up(graph, before, plan),
            back.take(k),
        )
}

/// Whether each table of `tables` but the first is what one test leaves
/// of the table before it.
pub open spec fn test_table_chain(graph: GraphView, tables: Seq<Seq<Seq<char>>>) -> bool {
    forall|i: int|
        0 <= i < tables.len() - 1 ==> test_table_step(graph, #[trigger] tables[i], tables[i + 1])
}

/// Whether `after` holds the names of the suite fixtures with a value that
/// a run of the suite leaves of `before`: the setup went as far as some
/// fixture and nothing was torn down; or all were set up and the teardown
/// went as far as some fixture.
pub open spec fn suite_table_after(
    graph: GraphView,
    before: Seq<Seq<char>>,
    after: Seq<Seq<char>>,
) -> bool {
    let plan = graph.setup_names(FixtureScope::Suite);
    let back = graph.teardown_names(FixtureScope::Suite);
    ||| exists|k: int| 0 <= k <= plan.len() && after == #[trigger] set_up(graph, before, plan.take(k))
    ||| exists|k: int|
        0 <= k <= back.len() && after == #[trigger] torn_down(
            graph,
            set_up(graph, before, plan),
            back.take(k),
        )
}

/// The table that a test leaves where its fixtures were all set up and
/// then torn down, all of them or up to one whose teardown failed.
pub proof fn lemma_torn_step(
    graph: GraphView,
    before: Seq<Seq<char>>,
    mid: Seq<Seq<char>>,
    after: Seq<Seq<char>>,
    all: bool,
)
    requires
        mid == set_up(graph, before, graph.setup_names(FixtureScope::Test)),
        all ==> after == torn_down(graph, mid, graph.teardown_names(FixtureScope::Test)),
        !all ==> exists|k: int|
            0 < k <= graph.teardown_names(FixtureScope::Test).len() && after
                == #[trigger] torn_down(graph, mid, graph.teardown_names(FixtureScope::Test).take(k)),
    ensures
        test_table_step(graph, before, after),
{
}

/// Whether a result is one that a suite records of a test: the test passed
/// and the result holds no error, or it failed and the result holds the
/// error it failed with.
pub open spec fn is_ran(result: TestResultView) -> bool {
    (result.status == TestStatus::Passed && result.error is None) || (result.status
        == TestStatus::Failed && result.error is Some)
}

impl TestSuite {
    /// The names of the tests that are run, in the order in which they run.
    pub open spec fn runnable_names(&self) -> Seq<Seq<char>> {
        Seq::new(
            self.runnable_tests().len(),
            |k: int| self.tests@[self.runnable_tests()[k]].meta.name@,
        )
    }

    /// Whether `context` is the context in which the suite's own fixtures
    /// and hooks run: it holds the suite's id and metadata.
    pub open spec fn is_suite_context(&self, context: TestContext) -> bool {
        context.test_id == self.id && context.metadata@ == self.meta@
    }

    /// Whether `e` is an error with which a stage of the suite itself may
    /// end: the error of fixtures that cannot be put in an order, an error
    /// that the setup callback of a suite fixture may give, the error of
    /// the hooks before or after all tests for a callback that may fail
    /// so, or an error with which the teardown callback of a suite fixture
    /// may end when it is given a value.
    pub open spec fn is_stage_failure(&self, e: Error) -> bool {
        ||| is_resolution_error(self.fixtures@.graph, e@)
        ||| exists|context: TestContext, k: int|
            self.is_suite_context(context) && #[trigger] setup_stopped_at(
                self.fixtures.registered(),
                self.fixtures@.graph.setup_names(FixtureScope::Suite),
                context,
                k,
                e,
            )
        ||| exists|context: TestContext, at: int, cause: Error|
            self.is_suite_context(context) && #[trigger] callbacks_stopped_at(
                self.hooks.before_all@,
                "before_all"@,
                context,
                at,
                cause,
                e@,
            )
        ||| exists|context: TestContext, at: int, cause: Error|
            self.is_suite_context(context) && #[trigger] callbacks_stopped_at(
                self.hooks.after_all@,
                "after_all"@,
                context,
                at,
                cause,
                e@,
            )
        ||| exists|context: TestContext, stored: StoredValue|
            self.is_suite_context(context) && self.fixtures@.graph.defined(stored.name@)
                && self.fixtures.registered().fixture(stored.name@).teardown is Some
                && #[trigger] value_released(
                self.fixtures.registered(),
                stored,
                context,
                Some(e),
            )
    }

    /// Whether no stage of the suite itself can fail: the fixtures can be
    /// put in an order, no suite fixture has a callback, and there are no
    /// hooks before or after all tests.
    pub open spec fn stages_are_bare(&self) -> bool {
        &&& !self.fixtures@.graph.has_cycle()
        &&& !self.fixtures@.graph.has_undefined()
        &&& self.hooks.before_all@.len() == 0
        &&& self.hooks.after_all@.len() == 0
        &&& no_setup(
            self.fixtures@.graph,
            self.fixtures@.graph.setup_names(FixtureScope::Suite),
        )
        &&& no_teardown(
            self.fixtures@.graph,
            self.fixtures@.graph.teardown_names(FixtureScope::Suite),
        )
    }

    /// Whether every stage of the suite itself may pass for `context`: the
    /// setup callbacks of the suite fixtures may give the values `held`,
    /// every hook before and after all tests may end without a failure,
    /// and every value of `held` is still in `left` or was released without
    /// a failure.
    pub open spec fn stages_passed(
        &self,
        context: TestContext,
        held: Seq<StoredValue>,
        left: Seq<StoredValue>,
    ) -> bool {
        &&& self.is_suite_context(context)
        &&& values_given(
            self.fixtures.registered(),
            held,
            self.fixtures@.graph.setup_names(FixtureScope::Suite),
            context,
        )
        &&& callbacks_pass(self.hooks.before_all@, context, self.hooks.before_all@.len() as int)
        &&& callbacks_pass(self.hooks.after_all@, context, self.hooks.after_all@.len() as int)
        &&& released_quietly(self.fixtures.registered(), held, left, context)
    }

    /// Whether `result` is a result that running the suite may give: it
    /// holds the suite's id, name and metadata and is finished; it holds a
    /// result for each test that was to run, under the test's name and in
    /// the order of declaration, or none; each of them is a result that the
    /// suite may record of its test; where no stage of the suite itself can
    /// fail it holds no error; and an error that it holds is one with which
    /// one of those stages may end.
    pub open spec fn may_give(&self, result: SuiteResult) -> bool {
        &&& result.wf()
        &&& result.id == self.id
        &&& result.name@ == self.name@
        &&& result.metadata@ == self.meta@
        &&& result.end_time is Some
        &&& result@.test_results.len() == 0 || result@.test_results.len()
            == self.runnable_names().len()
        &&& result@.error is None ==> result@.test_results.len() == self.runnable_names().len()
        &&& forall|k: int|
            0 <= k < result@.test_results.len() ==> (#[trigger] result@.test_results[k]).name
                == self.runnable_names()[k]
        &&& forall|k: int|
            0 <= k < result@.test_results.len() ==> is_result_of(
                self.hooks,
                self.fixtures.registered(),
                self.tests@[self.runnable_tests()[k]],
                #[trigger] result@.test_results[k],
            )
        &&& self.stages_are_bare() ==> result.error is None
        &&& result.error is Some ==> self.is_stage_failure(result.error->0)
        &&& result.error is None ==> exists|
            context: TestContext,
            held: Seq<StoredValue>,
            left: Seq<StoredValue>,
        | #[trigger] self.stages_passed(context, held, left)
    }

    /// Runs the suite and reports what happened.
    ///
    /// The suite's fixtures are set up, then the hooks before all tests run;
    /// where either fails, the result is finished with that error and holds
    /// no test. Then each test that is to run is taken in the order of its
    /// declaration: its fixtures are set up, the hooks before each test
    /// run, the test's body runs, the hooks after each test run, and the
    /// test's fixtures are torn down. A test whose fixtures or whose hooks
    /// before it fail is recorded as failed with that error and its body
    /// does not run. Hooks after a test that fail make a passed test fail.
    /// A teardown of a test's fixtures that fails does not change the
    /// test's result. Last the hooks after all tests run and the suite's
    /// fixtures are torn down; where either fails, the result is finished
    /// with that error and keeps the tests recorded so far.
    ///
    /// The call itself always succeeds. The result holds one test result
    /// for each test that was to run, under the test's name and in the order
    /// of declaration, unless the suite's setup failed. Where no stage of
    /// the suite itself can fail the result holds no error; an error that
    /// it holds is one with which one of those stages may end.
    ///
    /// Afterwards the suite is as it was, but for the values of its
    /// fixtures: a run without an error leaves the suite fixtures torn
    /// down, and each test leaves the test fixtures as
    /// [`test_table_step`] says.
    pub fn execute(&mut self) -> (r: Result<SuiteResult, Error>)
        requires
            old(self).wf(),
        ensures
            final(self).wf(),
            final(self).id == old(self).id,
            final(self).name == old(self).name,
            final(self).names == old(self).names,
            final(self).tests == old(self).tests,
            final(self).attributes == old(self).attributes,
            final(self).hooks == old(self).hooks,
            final(self).meta == old(self).meta,
            final(self).mod_path == old(self).mod_path,
            r is Ok,
            r->Ok_0.wf(),
            r->Ok_0.id == old(self).id,
            r->Ok_0.name@ == old(self).name@,
            r->Ok_0.metadata@ == old(self).meta@,
            r->Ok_0.end_time is Some,
            r->Ok_0@.test_results.len() == 0 || r->Ok_0@.test_results.len()
                == old(self).runnable_names().len(),
            forall|k: int|
                0 <= k < r->Ok_0@.test_results.len() ==> (#[trigger] r->Ok_0@.test_results[k]).name
                    == old(self).runnable_names()[k],
            r->Ok_0@.error is None ==> r->Ok_0@.test_results.len() == old(self).runnable_names().len(),
            forall|k: int|
                0 <= k < r->Ok_0@.test_results.len() ==> is_ran(
                    #[trigger] r->Ok_0@.test_results[k],
                ),
            old(self).fixtures@.graph.has_cycle() || old(self).fixtures@.graph.has_undefined()
                ==> r->Ok_0@.test_results.len() == 0 && r->Ok_0@.error is Some
                && is_resolution_error(old(self).fixtures@.graph, r->Ok_0@.error->0),
            final(self).fixtures.registered() == old(self).fixtures.registered(),
            final(self).fixtures@.graph == old(self).fixtures@.graph,
            old(self).stages_are_bare() ==> r->Ok_0.error is None && r->Ok_0@.error is None,
            old(self).may_give(r->Ok_0),
            r->Ok_0.error is None ==> exists|context: TestContext, held: Seq<StoredValue>| #[trigger]
                old(self).stages_passed(context, held, final(self).fixtures.suite_values()),
            forall|k: int|
                0 <= k < r->Ok_0@.test_results.len() ==> is_result_of(
                    old(self).hooks,
                    old(self).fixtures.registered(),
                    old(self).tests@[old(self).runnable_tests()[k]],
                    #[trigger] r->Ok_0@.test_results[k],
                ),
            r->Ok_0.error is Some ==> old(self).is_stage_failure(r->Ok_0.error->0),
            r->Ok_0.error is None ==> final(self).fixtures@.suite_instances == torn_down(
                old(self).fixtures@.graph,
                set_up(
                    old(self).fixtures@.graph,
                    old(self).fixtures@.suite_instances,
                    old(self).fixtures@.graph.setup_names(FixtureScope::Suite),
                ),
                old(self).fixtures@.graph.teardown_names(FixtureScope::Suite),
            ),
            suite_table_after(
                old(self).fixtures@.graph,
                old(self).fixtures@.suite_instances,
                final(self).fixtures@.suite_instances,
            ),
            exists|tables: Seq<Seq<Seq<char>>>| #[trigger]
                test_table_chain(old(self).fixtures@.graph, tables) && tables.len()
                    == r->Ok_0@.test_results.len() + 1
                    && tables[0] == old(self).fixtures@.test_instances
                    && tables.last() == final(self).fixtures@.test_instances,
    {
        let ghost graph0 = self.fixtures@.graph;
        let ghost suite0 = self.fixtures@.suite_instances;
        let ghost test0 = self.fixtures@.test_instances;
        let ghost plan0 = graph0.setup_names(FixtureScope::Suite);
        let ghost back0 = graph0.teardown_names(FixtureScope::Suite);
        let ghost mut tables: Seq<Seq<Seq<char>>> = seq![test0];
        proof {
            assert(test_table_chain(graph0, tables));
            assert(plan0.take(0) =~= Seq::empty());
            assert(set_up(graph0, suite0, plan0.take(0)) == suite0);
            assert(plan0.take(plan0.len() as int) =~= plan0);
            assert(back0.take(back0.len() as int) =~= back0);
        }
        let mut result = SuiteResult::new(self.id, self.name.clone(), self.meta.clone());
        let suite_context = TestContext::new(self.id, self.meta.clone());
        proof {
            lemma_runnable_in_range(
                self.test_marks(),
                self.attributes.only,
                self.test_marks().len() as int,
            );
        }

        assert(self.is_suite_context(suite_context));
        match self.fixtures.setup_suite_fixtures(&suite_context) {
            Ok(()) => {},
            Err(e) => {
                proof {
                    if old(self).fixtures@.graph.resolution().failure is None {
                        let k = choose|k: int|
                            setup_stopped_at(
                                old(self).fixtures.registered(),
                                old(self).fixtures@.graph.setup_names(FixtureScope::Suite),
                                suite_context,
                                k,
                                e,
                            ) && self.fixtures@.suite_instances == #[trigger] set_up(
                                graph0,
                                suite0,
                                plan0.take(k),
                            );
                        assert(old(self).is_stage_failure(e));
                        assert(self.fixtures@.suite_instances == set_up(graph0, suite0, plan0.take(k)));
                    } else {
                        assert(self.fixtures@.suite_instances == set_up(graph0, suite0, plan0.take(0)));
                    }
                    assert(suite_table_after(graph0, suite0, self.fixtures@.suite_instances));
                    assert(tables.last() == self.fixtures@.test_instances);
                }
                result.finish(Some(e));
                return Ok(result);
            },
        }
        match self.hooks.execute_hooks(&self.hooks.before_all, &suite_context, "before_all") {
            Ok(()) => {},
            Err(e) => {
                proof {
                    let (at, cause) = choose|at: int, cause: Error| #[trigger]
                        callbacks_stopped_at(
                            self.hooks.before_all@,
                            "before_all"@,
                            suite_context,
                            at,
                            cause,
                            e@,
                        );
                    assert(old(self).is_stage_failure(e));
                    assert(self.fixtures@.suite_instances == set_up(
                        graph0,
                        suite0,
                        plan0.take(plan0.len() as int),
                    ));
                    assert(suite_table_after(graph0, suite0, self.fixtures@.suite_instances));
                    assert(tables.last() == self.fixtures@.test_instances);
                }
                result.finish(Some(e));
                return Ok(result);
            },
        }

        let ghost given = self.fixtures.suite_values();
        let runnable = self.runnable_indices();
        let ghost names = self.runnable_names();
        let mut k: usize = 0;
        while k < runnable.len()
            invariant
                k <= runnable.len(),
                self.fixtures.wf(),
                self.wf(),
                self.id == old(self).id,
                self.name == old(self).name,
                self.meta == old(self).meta,
                self.names == old(self).names,
                self.tests == old(self).tests,
                self.attributes == old(self).attributes,
                self.hooks == old(self).hooks,
                self.fixtures.registered() == old(self).fixtures.registered(),
                self.fixtures@.graph == old(self).fixtures@.graph,
                self.fixtures.suite_values() == given,
                self.mod_path == old(self).mod_path,
                graph0 == old(self).fixtures@.graph,
                suite0 == old(self).fixtures@.suite_instances,
                test0 == old(self).fixtures@.test_instances,
                plan0 == graph0.setup_names(FixtureScope::Suite),
                back0 == graph0.teardown_names(FixtureScope::Suite),
                plan0.take(plan0.len() as int) == plan0,
                back0.take(back0.len() as int) == back0,
                graph0.resolution().failure is None,
                self.fixtures@.suite_instances == set_up(graph0, suite0, plan0),
                test_table_chain(graph0, tables),
                tables.len() == k + 1,
                tables[0] == test0,
                tables.last() == self.fixtures@.test_instances,
                old(self).is_suite_context(suite_context),
                values_given(
                    old(self).fixtures.registered(),
                    given,
                    old(self).fixtures@.graph.setup_names(FixtureScope::Suite),
                    suite_context,
                ),
                callbacks_pass(
                    old(self).hooks.before_all@,
                    suite_context,
                    old(self).hooks.before_all@.len() as int,
                ),
                result.error is None,
                names == old(self).runnable_names(),
                names == self.runnable_names(),
                runnable@.len() == self.runnable_tests().len(),
                forall|x: int|
                    0 <= x < runnable@.len() ==> runnable@[x] as int == self.runnable_tests()[x],
                forall|x: int|
                    0 <= x < runnable@.len() ==> (#[trigger] runnable@[x]) < self.tests@.len(),
                result.wf(),
                result.id == old(self).id,
                result.name@ == old(self).name@,
                result.metadata@ == old(self).meta@,
                result@.error is None,
                result@.test_results.len() == k,
                forall|x: int|
                    0 <= x < k ==> (#[trigger] result@.test_results[x]).name == names[x],
                forall|x: int| 0 <= x < k ==> is_ran(#[trigger] result@.test_results[x]),
                forall|x: int|
                    0 <= x < k ==> is_result_of(
                        old(self).hooks,
                        old(self).fixtures.registered(),
                        old(self).tests@[old(self).runnable_tests()[x]],
                        #[trigger] result@.test_results[x],
                    ),
            decreases runnable.len() - k,
        {
            let index: usize = runnable[k];
            let ghost recorded = result@.test_results;
            assert(names[k as int] == self.tests@[index as int].meta.name@);
            let test_context = TestContext::new(
                self.tests[index].id,
                self.tests[index].meta.clone(),
            );
            let ghost the_test = self.tests@[index as int];
            let ghost entered = self.fixtures@.test_instances;
            let ghost chain = tables;
            let ghost the_hooks = self.hooks;
            let ghost registered = self.fixtures.registered();
            let ghost graph = self.fixtures@.graph;
            proof {
                self.fixtures.lemma_view();
            }
            assert(registered@ == graph);
            assert(is_test_context(the_test, test_context));
            let test_result = match self.fixtures.setup_test_fixtures(&test_context) {
                Err(e) => {
                    let now = now_millis();
                    let failed = failed_before_run(&self.tests[index], e, now);
                    proof {
                        if graph.resolution().failure is None {
                            let at = choose|at: int|
                                setup_stopped_at(
                                    registered,
                                    graph.setup_names(FixtureScope::Test),
                                    test_context,
                                    at,
                                    e,
                                );
                            assert(setup_stopped_at(
                                registered,
                                registered@.setup_names(FixtureScope::Test),
                                test_context,
                                at,
                                e,
                            ));
                        } else {
                            assert(is_resolution_error(registered@, e@));
                        }
                        assert(is_preparation_failure(the_hooks, registered, test_context, e));
                        assert(failed@ == failed_view(the_test, e@, now));
                        assert(may_record(the_hooks, registered, the_test, test_context, failed@));
                        let at = choose|at: int|
                            setup_stopped_at(
                                registered,
                                graph.setup_names(FixtureScope::Test),
                                test_context,
                                at,
                                e,
                            ) && self.fixtures@.test_instances == #[trigger] set_up(
                                graph,
                                entered,
                                graph.setup_names(FixtureScope::Test).take(at),
                            );
                        assert(test_table_step(graph0, entered, self.fixtures@.test_instances));
                    }
                    failed
                },
                Ok(()) => match self.hooks.execute_hooks(
                    &self.hooks.before_each,
                    &test_context,
                    "before_each",
                ) {
                    Err(e) => {
                        let ghost mid = self.fixtures@.test_instances;
                        let torn = self.fixtures.teardown_test_fixtures(&test_context);
                        proof {
                            lemma_torn_step(
                                graph0,
                                entered,
                                mid,
                                self.fixtures@.test_instances,
                                torn is Ok,
                            );
                        }
                        let now = now_millis();
                        let failed = failed_before_run(&self.tests[index], e, now);
                        proof {
                            assert(is_preparation_failure(the_hooks, registered, test_context, e));
                            assert(failed@ == failed_view(the_test, e@, now));
                            assert(may_record(
                                the_hooks,
                                registered,
                                the_test,
                                test_context,
                                failed@,
                            ));
                        }
                        failed
                    },
                    Ok(()) => {
                        let ghost prepared = self.fixtures.test_values();
                        let ran = self.tests[index].execute(&test_context);
                        let ghost reported = ran@;
                        let ghost failure = choose|failure: Option<Error>| #[trigger]
                            the_test.reports(test_context, failure, reported);
                        let after = self.hooks.execute_hooks(
                            &self.hooks.after_each,
                            &test_context,
                            "after_each",
                        );
                        let now = now_millis();
                        let settled = settle_after_each(ran, after, now);
                        proof {
                            lemma_given_means_gave(
                                registered,
                                prepared,
                                registered@.setup_names(FixtureScope::Test),
                                test_context,
                            );
                            assert(test_prepared(the_hooks, registered, test_context));
                            assert(after_each_gave(the_hooks, test_context, after));
                            assert(settled@ == crate::suite::settled(reported, after, now));
                            assert(may_record(
                                the_hooks,
                                registered,
                                the_test,
                                test_context,
                                settled@,
                            ));
                        }
                        let ghost mid = self.fixtures@.test_instances;
                        let torn = self.fixtures.teardown_test_fixtures(&test_context);
                        proof {
                            lemma_torn_step(
                                graph0,
                                entered,
                                mid,
                                self.fixtures@.test_instances,
                                torn is Ok,
                            );
                        }
                        settled
                    },
                },
            };
            assert(test_result@.name == names[k as int]);
            assert(is_ran(test_result@));
            assert(is_result_of(the_hooks, registered, the_test, test_result@));
            assert(test_table_step(graph0, entered, self.fixtures@.test_instances));
            proof {
                tables = chain.push(self.fixtures@.test_instances);
                assert forall|i: int| 0 <= i < tables.len() - 1 implies test_table_step(
                    graph0,
                    #[trigger] tables[i],
                    tables[i + 1],
                ) by {
                    if i < chain.len() - 1 {
                        assert(tables[i] == chain[i] && tables[i + 1] == chain[i + 1]);
                    } else {
                        assert(tables[i] == entered);
                    }
                }
            }
            result.add_test_result(test_result);
            k += 1;
            assert forall|x: int| 0 <= x < k implies (#[trigger] result@.test_results[x]).name
                == names[x] && is_ran(result@.test_results[x]) && is_result_of(
                old(self).hooks,
                old(self).fixtures.registered(),
                old(self).tests@[old(self).runnable_tests()[x]],
                result@.test_results[x],
            ) by {
                if x < k - 1 {
                    assert(result@.test_results[x] == recorded[x]);
                }
            }
        }

        match self.hooks.execute_hooks(&self.hooks.after_all, &suite_context, "after_all") {
            Ok(()) => {},
            Err(e) => {
                proof {
                    let (at, cause) = choose|at: int, cause: Error| #[trigger]
                        callbacks_stopped_at(
                            self.hooks.after_all@,
                            "after_all"@,
                            suite_context,
                            at,
                            cause,
                            e@,
                        );
                    assert(old(self).is_stage_failure(e));
                    assert(self.fixtures@.suite_instances == set_up(
                        graph0,
                        suite0,
                        plan0.take(plan0.len() as int),
                    ));
                    assert(suite_table_after(graph0, suite0, self.fixtures@.suite_instances));
                }
                result.finish(Some(e));
                return Ok(result);
            },
        }
        let ghost held = self.fixtures.suite_values();
        let ghost held_names = self.fixtures@.suite_instances;
        match self.fixtures.teardown_suite_fixtures(&suite_context) {
            Ok(()) => {},
            Err(e) => {
                proof {
                    if old(self).fixtures@.graph.resolution().failure is None {
                        let k = choose|k: int|
                            0 < k <= old(self).fixtures@.graph.teardown_names(
                                FixtureScope::Suite,
                            ).len() && self.fixtures@.suite_instances == #[trigger] torn_down(
                                old(self).fixtures@.graph,
                                held_names,
                                old(self).fixtures@.graph.teardown_names(FixtureScope::Suite).take(k),
                            ) && exists|stored: StoredValue| #[trigger]
                                release_stopped_at(
                                    old(self).fixtures.registered(),
                                    held,
                                    self.fixtures.suite_values(),
                                    old(self).fixtures@.graph.teardown_names(FixtureScope::Suite),
                                    suite_context,
                                    k,
                                    stored,
                                    e,
                                );
                        let stored = choose|stored: StoredValue| #[trigger]
                            release_stopped_at(
                                old(self).fixtures.registered(),
                                held,
                                self.fixtures.suite_values(),
                                old(self).fixtures@.graph.teardown_names(FixtureScope::Suite),
                                suite_context,
                                k,
                                stored,
                                e,
                            );
                        old(self).fixtures.lemma_view();
                        assert(value_released(
                            old(self).fixtures.registered(),
                            stored,
                            suite_context,
                            Some(e),
                        ));
                        assert(old(self).is_stage_failure(e));
                        assert(self.fixtures@.suite_instances == torn_down(
                            graph0,
                            set_up(graph0, suite0, plan0),
                            back0.take(k),
                        ));
                        assert(suite_table_after(graph0, suite0, self.fixtures@.suite_instances));
                    }
                }
                result.finish(Some(e));
                return Ok(result);
            },
        }
        proof {
            assert(self.fixtures@.suite_instances == torn_down(
                graph0,
                set_up(graph0, suite0, plan0),
                back0.take(back0.len() as int),
            ));
            assert(suite_table_after(graph0, suite0, self.fixtures@.suite_instances));
        }
        result.finish(None);
        assert(old(self).stages_passed(suite_context, given, self.fixtures.suite_values()));
        Ok(result)
    }
}

} // verus!
