use sheila::error::{Error, ErrorKind};
use sheila::outcome::{
    create_failed_run_result, create_failed_suite_result, create_suite_result, create_test_result,
};
use sheila::runners::{RunResult, RunnerConfig};
use sheila::suite::SuiteResult;
use sheila::test::{TestMetadata, TestResult, TestStatus};
use uuid::Uuid;

fn finished(name: &str, status: TestStatus) -> TestResult {
    let mut r = TestResult::new_at(Uuid::new_v4(), name.to_string(), TestMetadata::new(name), 100);
    r.finish_at(status, None, 250);
    r
}

fn suite_of(statuses: &[TestStatus]) -> SuiteResult {
    let mut suite = SuiteResult::new_at(Uuid::new_v4(), "s".to_string(), TestMetadata::new("s"), 0);
    for (i, status) in statuses.iter().enumerate() {
        suite.add_test_result(finished(&format!("t{}", i), *status));
    }
    suite
}

#[test]
fn a_new_result_counts_as_skipped_until_it_is_finished() {
    let r = TestResult::new_at(Uuid::new_v4(), "t".to_string(), TestMetadata::new("t"), 5);
    assert_eq!(r.status, TestStatus::Skipped);
    assert_eq!(r.start_time, 5);
    assert!(r.end_time.is_none() && r.duration.is_none() && r.error.is_none());
    assert!(!r.passed() && !r.failed());
}

#[test]
fn finishing_records_status_error_and_duration() {
    let mut r = TestResult::new_at(Uuid::new_v4(), "t".to_string(), TestMetadata::new("t"), 100);
    r.finish_at(TestStatus::Failed, Some(Error::assertion("no")), 350);
    assert_eq!(r.status, TestStatus::Failed);
    assert_eq!(r.end_time, Some(350));
    assert_eq!(r.duration, Some(250));
    assert_eq!(r.error.as_ref().unwrap().kind(), ErrorKind::Assertion);
    assert!(r.failed());
    let mut t = TestResult::new(Uuid::new_v4(), "t".to_string(), TestMetadata::new("t"));
    t.finish(TestStatus::Timeout, None);
    assert!(t.failed());
    assert!(t.end_time.is_some() && t.duration.is_some());
}

#[test]
fn a_clock_that_went_back_gives_the_wrapped_duration() {
    assert_eq!(sheila::clock::elapsed_millis(10, 4), u64::MAX - 5);
    assert_eq!(sheila::clock::elapsed_millis(-5, 5), 10);
    assert_eq!(sheila::clock::elapsed_millis(i64::MIN, i64::MAX), u64::MAX);
    assert_eq!(sheila::clock::elapsed_millis(i64::MAX, i64::MIN), 1);
    assert_eq!(sheila::clock::elapsed_millis(7, 7), 0);
}

#[test]
fn suite_total_is_the_sum_of_its_counters_after_every_result() {
    let mut suite = SuiteResult::new_at(Uuid::new_v4(), "s".to_string(), TestMetadata::new("s"), 0);
    assert_eq!((suite.total_tests, suite.passed_tests, suite.failed_tests, suite.skipped_tests), (0, 0, 0, 0));
    let statuses = [
        TestStatus::Passed,
        TestStatus::Failed,
        TestStatus::Skipped,
        TestStatus::Ignored,
        TestStatus::Timeout,
        TestStatus::Passed,
    ];
    for (i, status) in statuses.iter().enumerate() {
        suite.add_test_result(finished("t", *status));
        assert_eq!(suite.total_tests, i + 1);
        assert_eq!(suite.total_tests, suite.passed_tests + suite.failed_tests + suite.skipped_tests);
        assert_eq!(suite.test_results.len(), i + 1);
    }
    assert_eq!((suite.passed_tests, suite.failed_tests, suite.skipped_tests), (2, 2, 2));
}

#[test]
fn suite_passes_iff_no_test_failed_and_it_met_no_error() {
    assert!(suite_of(&[]).all_passed());
    assert!(suite_of(&[TestStatus::Passed, TestStatus::Skipped]).all_passed());
    assert!(!suite_of(&[TestStatus::Passed, TestStatus::Failed]).all_passed());
    assert!(!suite_of(&[TestStatus::Timeout]).all_passed());
    let mut suite = suite_of(&[TestStatus::Passed]);
    suite.finish_at(Some(Error::hook("after_all", "x")), 10);
    assert!(!suite.all_passed());
    assert_eq!(suite.failed_tests, 0);
    assert_eq!(suite.end_time, Some(10));
    assert_eq!(suite.duration, Some(10));
    let mut fine = suite_of(&[TestStatus::Passed]);
    fine.finish(None);
    assert!(fine.all_passed());
    assert!(fine.end_time.is_some());
}

#[test]
fn run_total_is_the_sum_of_its_counters_after_every_suite() {
    let mut run = RunResult::new_at(RunnerConfig::default(), 0);
    assert!(run.all_passed());
    let suites = [
        suite_of(&[TestStatus::Passed, TestStatus::Passed]),
        suite_of(&[TestStatus::Failed, TestStatus::Skipped, TestStatus::Passed]),
        suite_of(&[]),
        suite_of(&[TestStatus::Ignored]),
    ];
    let mut expected_total = 0;
    for suite in suites {
        expected_total += suite.total_tests;
        assert!(run.has_room_for(&suite));
        run.add_suite_result(suite);
        assert_eq!(run.total_tests, expected_total);
        assert_eq!(run.total_tests, run.passed_tests + run.failed_tests + run.skipped_tests);
        assert_eq!(run.total_suites, run.passed_suites + run.failed_suites + run.skipped_suites);
        assert_eq!(run.total_suites, run.suite_results.len());
    }
    assert_eq!((run.total_tests, run.passed_tests, run.failed_tests, run.skipped_tests), (6, 3, 1, 2));
    assert_eq!((run.total_suites, run.passed_suites, run.failed_suites, run.skipped_suites), (4, 3, 1, 0));
    assert!(!run.all_passed());
}

#[test]
fn a_suite_with_an_error_counts_as_failed() {
    let mut run = RunResult::new(RunnerConfig::default());
    let mut suite = suite_of(&[TestStatus::Passed]);
    suite.finish_at(Some(Error::fixture("x")), 1);
    run.add_suite_result(suite);
    assert_eq!(run.failed_suites, 1);
    assert_eq!(run.failed_tests, 0);
    assert!(!run.all_passed());
    run.finish_at(None, 77);
    assert!(run.end_time == Some(77));
}

#[test]
fn a_run_with_an_error_did_not_pass() {
    let mut run = RunResult::new_at(RunnerConfig::default(), 10);
    run.add_suite_result(suite_of(&[TestStatus::Passed]));
    assert!(run.all_passed());
    run.finish_at(Some(Error::generic("stopped")), 30);
    assert!(!run.all_passed());
    assert_eq!(run.duration, Some(20));
    let mut other = RunResult::new(RunnerConfig::default());
    other.finish(None);
    assert!(other.all_passed() && other.end_time.is_some());
}

#[test]
fn a_run_has_no_room_for_more_tests_than_can_be_counted() {
    let mut run = RunResult::new(RunnerConfig::default());
    run.total_tests = usize::MAX;
    assert!(run.has_room_for(&suite_of(&[])));
    assert!(!run.has_room_for(&suite_of(&[TestStatus::Passed])));
}

#[test]
fn results_are_made_from_what_a_binary_reported() {
    let passed = create_test_result("m::t", TestStatus::Passed);
    assert_eq!(passed.name, "m::t");
    assert_eq!(passed.metadata.name, "m::t");
    assert_eq!(passed.status, TestStatus::Passed);
    assert!(passed.error.is_none());
    let failed = create_test_result("m::t", TestStatus::Failed);
    assert_eq!(failed.status, TestStatus::Failed);
    assert_eq!(failed.error.as_ref().unwrap().to_string(), "Test execution failed: Test failed");
    assert_eq!(create_test_result("m::t", TestStatus::Ignored).status, TestStatus::Skipped);
    assert_eq!(create_test_result("m::t", TestStatus::Timeout).status, TestStatus::Skipped);
}

#[test]
fn generated_module_segments_are_left_out_of_names() {
    assert_eq!(sheila::names::format_mod_name("a::b::c"), "a::b::c");
    assert_eq!(
        sheila::names::format_mod_name("examples::__sheila_math_tests::test_addition"),
        "examples::test_addition"
    );
    assert_eq!(
        sheila::names::format_mod_name("x::__sheila_a_tests::y::__sheila_b_tests::z"),
        "x::y::__sheila_b_tests::z"
    );
    assert_eq!(sheila::names::format_mod_name("__sheila_only"), "__sheila_only");
    let r = create_test_result("m::__sheila_s_tests::t", TestStatus::Passed);
    assert_eq!(r.name, "m::t");
}

#[test]
fn suite_results_hold_copies_of_the_test_results_in_order() {
    let results = vec![
        finished("a", TestStatus::Passed),
        finished("b", TestStatus::Failed),
        finished("c", TestStatus::Ignored),
    ];
    let suite = create_suite_result("bin", &results);
    assert_eq!(suite.name, "bin");
    assert_eq!(suite.test_results.iter().map(|r| r.name.as_str()).collect::<Vec<_>>(), ["a", "b", "c"]);
    assert_eq!((suite.total_tests, suite.passed_tests, suite.failed_tests, suite.skipped_tests), (3, 1, 1, 1));
    assert!(suite.error.is_none());
    assert_eq!(suite.test_results[1].id, results[1].id);
}

#[test]
fn a_binary_that_could_not_be_run_becomes_one_failed_test() {
    let suite = create_failed_suite_result("mybin", Error::io("no such file"));
    assert_eq!(suite.name, "mybin");
    assert_eq!(suite.total_tests, 1);
    assert_eq!(suite.failed_tests, 1);
    assert!(!suite.all_passed());
    let test = &suite.test_results[0];
    assert_eq!(test.name, "mybin_system_error");
    assert_eq!(test.metadata.name, "mybin (system error)");
    assert_eq!(test.status, TestStatus::Failed);
    assert_eq!(test.error.as_ref().unwrap().to_string(), "IO error: no such file");
    let run = create_failed_run_result("mybin", Error::io("no such file"));
    assert_eq!((run.total_suites, run.failed_suites, run.total_tests, run.failed_tests), (1, 1, 1, 1));
    assert!(!run.all_passed());
}

#[test]
fn status_words() {
    assert_eq!(TestStatus::Passed.to_string(), "passed");
    assert_eq!(TestStatus::Failed.to_string(), "failed");
    assert_eq!(TestStatus::Skipped.to_string(), "skipped");
    assert_eq!(TestStatus::Ignored.to_string(), "ignored");
    assert_eq!(TestStatus::Timeout.to_string(), "timeout");
}

#[test]
fn a_run_result_of_one_binary() {
    let results = vec![finished("a", TestStatus::Passed), finished("b", TestStatus::Failed)];
    let run = sheila::outcome::create_run_result("bin", &results);
    assert_eq!(run.suite_results.len(), 1);
    assert_eq!(run.suite_results[0].name, "bin");
    assert_eq!((run.total_suites, run.failed_suites, run.total_tests, run.failed_tests), (1, 1, 2, 1));
    assert!(run.end_time.is_none());
}
