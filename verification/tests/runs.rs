use sheila::error::Error;
use sheila::multiplexer::ExecutableRun;
use sheila::outcome::create_suite_result;
use sheila::runners::RunnerConfig;
use sheila::suite::SuiteResult;
use sheila::test::{TestMetadata, TestResult, TestStatus};
use uuid::Uuid;

fn suite(name: &str, statuses: &[TestStatus]) -> SuiteResult {
    let results: Vec<TestResult> = statuses
        .iter()
        .map(|status| {
            let mut r = TestResult::new_at(Uuid::new_v4(), "t".to_string(), TestMetadata::new("t"), 0);
            r.finish_at(*status, None, 1);
            r
        })
        .collect();
    create_suite_result(name, &results)
}

#[test]
fn with_fail_fast_the_binaries_after_a_failing_one_never_run() {
    let mut run = ExecutableRun::new(RunnerConfig::new().fail_fast(true), 3);
    assert_eq!(run.next(), Some(0));
    assert!(run.record("A", Ok(suite("A", &[TestStatus::Passed, TestStatus::Failed]))));
    assert_eq!(run.next(), None);
    assert!(!run.record("B", Ok(suite("B", &[TestStatus::Passed]))));
    let result = run.finish();
    assert_eq!(result.suite_results.len(), 1);
    assert_eq!(result.suite_results[0].name, "A");
    assert_eq!(
        result.error.as_ref().unwrap().to_string(),
        "Test execution failed: Failing fast due to test failure"
    );
    assert!(result.end_time.is_some());
    assert!(!result.all_passed());
    assert_eq!(result.total_tests, 2);
}

#[test]
fn without_fail_fast_every_binary_runs() {
    let mut run = ExecutableRun::new(RunnerConfig::new(), 3);
    let outcomes = [
        suite("A", &[TestStatus::Failed]),
        suite("B", &[TestStatus::Passed]),
        suite("C", &[TestStatus::Ignored]),
    ];
    let mut index = 0;
    for outcome in outcomes {
        assert_eq!(run.next(), Some(index));
        assert!(run.can_record(&outcome));
        assert!(run.record("x", Ok(outcome)));
        index += 1;
    }
    assert_eq!(run.next(), None);
    let result = run.finish();
    assert_eq!(result.suite_results.len(), 3);
    assert!(result.error.is_none());
    assert!(result.end_time.is_some());
    assert_eq!((result.passed_suites, result.failed_suites), (2, 1));
    assert_eq!(result.total_tests, result.passed_tests + result.failed_tests + result.skipped_tests);
}

#[test]
fn with_fail_fast_passing_binaries_do_not_stop_the_run() {
    let mut run = ExecutableRun::new(RunnerConfig::new().fail_fast(true), 2);
    assert!(run.record("A", Ok(suite("A", &[TestStatus::Passed]))));
    assert_eq!(run.next(), Some(1));
    assert!(run.record("B", Ok(suite("B", &[TestStatus::Skipped]))));
    assert_eq!(run.next(), None);
    let result = run.finish_at(500);
    assert!(result.error.is_none());
    assert_eq!(result.end_time, Some(500));
    assert!(result.all_passed());
}

#[test]
fn a_binary_that_could_not_be_run_is_a_failed_suite_and_the_run_goes_on() {
    let mut run = ExecutableRun::new(RunnerConfig::new(), 2);
    assert!(run.record("broken", Err(Error::io("cannot spawn"))));
    assert_eq!(run.next(), Some(1));
    assert!(run.record("fine", Ok(suite("fine", &[TestStatus::Passed]))));
    let result = run.finish();
    assert_eq!(result.suite_results[0].test_results[0].name, "broken_system_error");
    assert_eq!(result.suite_results[0].test_results[0].status, TestStatus::Failed);
    assert_eq!((result.total_suites, result.failed_suites, result.passed_suites), (2, 1, 1));
    assert!(result.error.is_none());
}

#[test]
fn with_fail_fast_a_binary_that_could_not_be_run_stops_the_run() {
    let mut run = ExecutableRun::new(RunnerConfig::new().fail_fast(true), 2);
    assert!(run.record("broken", Err(Error::io("cannot spawn"))));
    assert_eq!(run.next(), None);
    assert!(run.finish().error.is_some());
}

#[test]
fn a_run_of_no_binaries_is_done_at_once() {
    let run = ExecutableRun::new(RunnerConfig::new().fail_fast(true), 0);
    assert_eq!(run.next(), None);
    assert!(!run.can_record(&suite("A", &[])));
    let result = run.finish();
    assert!(result.all_passed());
    assert!(result.end_time.is_some());
}

#[test]
fn a_run_stopped_by_a_binary_that_could_not_be_run_holds_its_end() {
    let mut run = ExecutableRun::new(RunnerConfig::new().fail_fast(true), 3);
    assert!(run.record("A", Err(Error::io("cannot spawn"))));
    assert_eq!(run.next(), None);
    assert!(!run.record("B", Err(Error::io("cannot spawn"))));
    let result = run.finish();
    assert_eq!(result.suite_results.len(), 1);
    assert_eq!(result.suite_results[0].name, "A");
    assert_eq!(result.suite_results[0].test_results[0].name, "A_system_error");
    assert_eq!(
        result.error.as_ref().unwrap().to_string(),
        "Test execution failed: Failing fast due to test failure"
    );
    assert!(result.end_time.is_some());
    assert!(result.duration.is_some());
    assert!(!result.all_passed());
    assert_eq!((result.total_tests, result.failed_tests), (1, 1));
}

#[test]
fn finishing_a_run_sets_its_end_and_its_duration() {
    let mut run = ExecutableRun::new(RunnerConfig::new(), 1);
    assert!(run.record("A", Ok(suite("A", &[TestStatus::Passed]))));
    let start = run.result.start_time;
    let result = run.finish_at(start + 250);
    assert_eq!(result.end_time, Some(start + 250));
    assert_eq!(result.duration, Some(250));
    assert!(result.error.is_none());
}

#[test]
fn environment_variables_are_set_by_name() {
    let config = RunnerConfig::new();
    assert!(config.env.is_empty());
    assert!(config.custom.is_empty());
    let config = config.env("RUST_LOG", "debug").env("HOME", "/tmp").env("RUST_LOG", "trace");
    assert_eq!(
        config.env,
        vec![
            ("RUST_LOG".to_string(), "trace".to_string()),
            ("HOME".to_string(), "/tmp".to_string()),
        ]
    );
    let mut config = config;
    config.custom.push(("depth".to_string(), serde_json::Value::from(3u64)));
    let copy = config.clone();
    assert_eq!(copy.env, config.env);
    assert_eq!(copy.custom, config.custom);
}

#[test]
fn a_run_of_binaries_keeps_its_configuration() {
    let config = RunnerConfig::new().fail_fast(true).include_tag("db").env("A", "1");
    let mut run = ExecutableRun::new(config, 2);
    assert!(run.record("A", Ok(suite("A", &[TestStatus::Failed]))));
    let result = run.finish();
    assert!(result.config.fail_fast);
    assert_eq!(result.config.include_tags, ["db"]);
    assert_eq!(result.config.env, [("A".to_string(), "1".to_string())]);
}
