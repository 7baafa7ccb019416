//! Results made from what a test binary reported.

use vstd::prelude::*;
use vstd::string::StringExecFns;
use crate::error::{Error, ErrorKind, ErrorView};
use crate::ids::new_id;
use crate::names::{format_mod_name, mod_name};
use crate::runners::{RunResult, RunnerConfig};
use crate::suite::{SuiteResult, SuiteResultView, result_views};
use crate::test::{TestMetadata, TestMetadataView, TestResult, TestStatus};

verus! {

/// The status under which a reported status is recorded: passed and failed
/// as they are, every other one as skipped.
pub open spec fn recorded_status(status: TestStatus) -> TestStatus {
    match status {
        TestStatus::Passed => TestStatus::Passed,
        TestStatus::Failed => TestStatus::Failed,
        _ => TestStatus::Skipped,
    }
}

/// The error of a result that reports a failure without any detail.
pub open spec fn plain_failure() -> ErrorView {
    ErrorView { kind: ErrorKind::TestExecution, stage: Seq::empty(), message: "Test failed"@ }
}

/// Metadata that holds only the name `name`.
pub open spec fn bare_metadata(name: Seq<char>) -> TestMetadataView {
    TestMetadataView { name, description: None, tags: Seq::empty() }
}

/// A finished result for the test `name`, which a binary reported with
/// `status`. The result carries the name under which the test is reported;
/// a failed one carries the error `Test failed`.
pub fn create_test_result(name: &str, status: TestStatus) -> (r: TestResult)
    ensures
        r.name@ == mod_name(name@),
        r.metadata@ == bare_metadata(mod_name(name@)),
        r.status == recorded_status(status),
        r@.error == if status == TestStatus::Failed {
            Some(plain_failure())
        } else {
            None::<ErrorView>
        },
        r.end_time is Some,
        r.duration is Some,
        r.duration == Some(crate::clock::elapsed_between(r.start_time, r.end_time->0)),
{
    let test_id = new_id();
    let name = format_mod_name(name);
    let metadata = TestMetadata::new(name.as_str());
    let mut test_result = TestResult::new(test_id, name, metadata);
    match status {
        TestStatus::Passed => test_result.finish(TestStatus::Passed, None),
        TestStatus::Failed => test_result.finish(
            TestStatus::Failed,
            Some(Error::test_execution("Test failed")),
        ),
        _ => test_result.finish(TestStatus::Skipped, None),
    }
    test_result
}

/// A suite result for the binary `suite_name` that holds copies of
/// `test_results`, in their order, and counts them.
pub fn create_suite_result(suite_name: &str, test_results: &[TestResult]) -> (r: SuiteResult)
    ensures
        r.wf(),
        r@.name == mod_name(suite_name@),
        r@.metadata == bare_metadata(mod_name(suite_name@)),
        r@.test_results == result_views(test_results@),
        r@.error is None,
        r.end_time is None,
        r.duration is None,
{
    let suite_id = new_id();
    let name = format_mod_name(suite_name);
    let metadata = TestMetadata::new(name.as_str());
    let mut suite_result = SuiteResult::new(suite_id, name, metadata);
    let mut i: usize = 0;
    while i < test_results.len()
        invariant
            i <= test_results.len(),
            suite_result.wf(),
            suite_result@.name == mod_name(suite_name@),
            suite_result@.metadata == bare_metadata(mod_name(suite_name@)),
            suite_result@.test_results == result_views(test_results@).take(i as int),
            suite_result@.error is None,
            suite_result.end_time is None,
            suite_result.duration is None,
        decreases test_results.len() - i,
    {
        suite_result.add_test_result(test_results[i].clone());
        i += 1;
        assert(suite_result@.test_results =~= result_views(test_results@).take(i as int));
    }
    assert(result_views(test_results@).take(i as int) =~= result_views(test_results@));
    suite_result
}

/// The name of the test that stands for a binary that could not be run.
pub open spec fn system_error_name(suite_name: Seq<char>) -> Seq<char> {
    suite_name + "_system_error"@
}

/// Whether `suite` is the suite result for the binary `suite_name` that
/// could not be run because of `error`: it holds one failed test, named
/// after the binary, with `error` as its error, and no error of its own.
pub open spec fn is_failed_suite(
    suite: SuiteResultView,
    suite_name: Seq<char>,
    error: ErrorView,
) -> bool {
    &&& suite.name == mod_name(suite_name)
    &&& suite.test_results.len() == 1
    &&& suite.test_results[0].name == system_error_name(suite_name)
    &&& suite.test_results[0].metadata == bare_metadata(
        mod_name(suite_name) + " (system error)"@,
    )
    &&& suite.test_results[0].status == TestStatus::Failed
    &&& suite.test_results[0].error == Some(error)
    &&& suite.total_tests == 1
    &&& suite.failed_tests == 1
    &&& suite.passed_tests == 0
    &&& suite.skipped_tests == 0
    &&& suite.error is None
    &&& suite.end_time is None
    &&& !suite.all_passed()
}

/// A suite result for a binary that could not be run: it holds one failed
/// test, named after the binary, with `error` as its error.
pub fn create_failed_suite_result(suite_name: &str, error: Error) -> (r: SuiteResult)
    ensures
        r.wf(),
        is_failed_suite(r@, suite_name@, error@),
        r@.name == mod_name(suite_name@),
        r@.test_results.len() == 1,
        r@.test_results[0].name == system_error_name(suite_name@),
        r@.test_results[0].metadata == bare_metadata(mod_name(suite_name@) + " (system error)"@),
        r@.test_results[0].status == TestStatus::Failed,
        r@.test_results[0].error == Some(error@),
        r@.total_tests == 1,
        r@.failed_tests == 1,
        r@.passed_tests == 0,
        r@.skipped_tests == 0,
        r@.error is None,
        !r@.all_passed(),
{
    let suite_id = new_id();
    let name = format_mod_name(suite_name);
    let metadata = TestMetadata::new(name.as_str());
    let mut test_name = String::from_str(suite_name);
    test_name.append("_system_error");
    let mut label = name.clone();
    label.append(" (system error)");
    let mut suite_result = SuiteResult::new(suite_id, name, metadata);
    let mut test_result = TestResult::new(new_id(), test_name, TestMetadata::new(label.as_str()));
    test_result.finish(TestStatus::Failed, Some(error));
    proof {
        crate::suite::lemma_counts_single(test_result@);
    }
    suite_result.add_test_result(test_result);
    suite_result
}

/// A run result that holds only the result of a binary that could not be run.
pub fn create_failed_run_result(suite_name: &str, error: Error) -> (r: RunResult)
    ensures
        r.wf(),
        r@.suite_results.len() == 1,
        r@.total_suites == 1,
        r@.failed_suites == 1,
        r@.total_tests == 1,
        r@.failed_tests == 1,
        !r@.all_passed(),
        is_failed_suite(r@.suite_results[0], mod_name(suite_name@), error@),
        r@.passed_suites == 0,
        r@.skipped_suites == 0,
        r@.passed_tests == 0,
        r@.skipped_tests == 0,
        r@.error is None,
        r.end_time is None,
        r.duration is None,
        r.config@ == crate::runners::RunnerConfigView::standard(),
{
    let name = format_mod_name(suite_name);
    let mut run_result = RunResult::new(RunnerConfig::default());
    let suite_result = create_failed_suite_result(name.as_str(), error);
    run_result.add_suite_result(suite_result);
    run_result
}

/// A run result that holds only the suite result made of `test_results`
/// for the binary `suite_name`.
pub fn create_run_result(suite_name: &str, test_results: &[TestResult]) -> (r: RunResult)
    ensures
        r.wf(),
        r@.suite_results.len() == 1,
        r@.suite_results[0].test_results == result_views(test_results@),
        r@.total_suites == 1,
        r@.total_tests == test_results@.len(),
        r@.error is None,
        r.end_time is None,
        r.duration is None,
        r@.suite_results[0].name == mod_name(mod_name(suite_name@)),
        r@.suite_results[0].metadata == bare_metadata(mod_name(mod_name(suite_name@))),
        r@.suite_results[0].error is None,
        r@.suite_results[0].end_time is None,
        r@.suite_results[0].wf(),
        r@.passed_suites + r@.failed_suites == 1,
        r@.passed_suites == 1 <==> r@.suite_results[0].all_passed(),
        r@.skipped_suites == 0,
        r@.passed_tests == r@.suite_results[0].passed_tests,
        r@.failed_tests == r@.suite_results[0].failed_tests,
        r@.skipped_tests == r@.suite_results[0].skipped_tests,
        r.config@ == crate::runners::RunnerConfigView::standard(),
{
    let name = format_mod_name(suite_name);
    let mut run_result = RunResult::new(RunnerConfig::default());
    let suite_result = create_suite_result(name.as_str(), test_results);
    run_result.add_suite_result(suite_result);
    run_result
}

} // verus!
