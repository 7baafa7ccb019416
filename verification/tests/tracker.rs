use sheila::error::ErrorKind;
use sheila::multiplexer::ExecutableSession;
use sheila::test::TestStatus;
use sheila::tracker::TestRunState;
use sheila::types::{ProcessOutput, SourceLocation, TestOutputLine, TestState};
use uuid::Uuid;

fn start(name: &str) -> TestOutputLine {
    TestOutputLine::TestStart { name: name.to_string() }
}

fn result(name: &str, status: TestStatus, duration_ms: Option<u64>) -> TestOutputLine {
    TestOutputLine::TestResult { name: name.to_string(), status, duration_ms }
}

fn panic_event(test: &str, message: &str, location: Option<(&str, u32, u32)>) -> TestOutputLine {
    TestOutputLine::Panic {
        message: message.to_string(),
        test: test.to_string(),
        location: location.map(|(file, line, column)| SourceLocation { file: file.to_string(), line, column }),
    }
}

#[test]
fn a_start_marks_the_test_as_running() {
    let mut state = TestRunState::for_suite("bin");
    let id = Uuid::new_v4();
    match state.handle_line_at(start("a"), 1_000, id) {
        Some(ProcessOutput::TestStarted { name, suite }) => {
            assert_eq!(name, "a");
            assert_eq!(suite, "bin");
        }
        other => panic!("unexpected: {:?}", other),
    }
    assert_eq!(state.state_of("a"), TestState::Running { started_at: 1_000 });
    assert_eq!(state.state_of("b"), TestState::NotStarted);
}

#[test]
fn a_result_uses_the_reported_duration_or_the_clock() {
    let mut state = TestRunState::new();
    let id = Uuid::new_v4();
    state.handle_line_at(start("a"), 1_000, id);
    state.handle_line_at(start("b"), 1_000, id);
    match state.handle_line_at(result("a", TestStatus::Passed, Some(10)), 5_000, id) {
        Some(ProcessOutput::TestPassed { result, duration_ms }) => {
            assert_eq!(duration_ms, 10);
            assert_eq!(result.name, "a");
            assert_eq!(result.status, TestStatus::Passed);
            assert_eq!(result.duration, Some(10));
            assert!(result.error.is_none());
            assert_eq!(result.id, id);
        }
        other => panic!("unexpected: {:?}", other),
    }
    match state.handle_line_at(result("b", TestStatus::Passed, None), 5_000, id) {
        Some(ProcessOutput::TestPassed { duration_ms, .. }) => assert_eq!(duration_ms, 4_000),
        other => panic!("unexpected: {:?}", other),
    }
    assert_eq!(state.state_of("a"), TestState::Completed { duration_ms: 10, status: TestStatus::Passed });
}

#[test]
fn a_result_for_a_test_that_is_not_running_is_ignored() {
    let mut state = TestRunState::new();
    let id = Uuid::new_v4();
    assert!(state.handle_line_at(result("a", TestStatus::Passed, None), 1, id).is_none());
    assert_eq!(state.state_of("a"), TestState::NotStarted);
    state.handle_line_at(start("a"), 1, id);
    assert!(state.handle_line_at(result("a", TestStatus::Passed, None), 2, id).is_some());
    assert!(state.handle_line_at(result("a", TestStatus::Failed, None), 3, id).is_none());
    assert_eq!(state.state_of("a"), TestState::Completed { duration_ms: 1, status: TestStatus::Passed });
}

#[test]
fn skipped_results_give_skipped_events() {
    let mut state = TestRunState::new();
    let id = Uuid::new_v4();
    state.handle_line_at(start("a"), 1, id);
    match state.handle_line_at(result("a", TestStatus::Skipped, None), 2, id) {
        Some(ProcessOutput::TestSkipped { result }) => assert_eq!(result.status, TestStatus::Skipped),
        other => panic!("unexpected: {:?}", other),
    }
}

#[test]
fn suite_start_gives_a_suite_started_event() {
    let mut state = TestRunState::for_suite("bin");
    match state.handle_line_at(TestOutputLine::SuiteStart { count: 3 }, 1, Uuid::new_v4()) {
        Some(ProcessOutput::SuiteStarted { name, test_count }) => {
            assert_eq!(name, "bin");
            assert_eq!(test_count, 3);
        }
        other => panic!("unexpected: {:?}", other),
    }
}

#[test]
fn panic_detail_is_merged_piece_by_piece() {
    let mut state = TestRunState::new();
    let id = Uuid::new_v4();
    assert!(state.handle_line_at(panic_event("a", "", Some(("src/lib.rs", 10, 5))), 1, id).is_none());
    let info = state.pending_error("a").expect("detail waits");
    assert!(info.message.is_none());
    assert_eq!(info.location.as_ref().unwrap().line, 10);
    state.handle_line_at(panic_event("a", "boom", None), 2, id);
    let info = state.pending_error("a").expect("detail waits");
    assert_eq!(info.message.as_deref(), Some("boom"));
    let location = info.location.expect("the location stays");
    assert_eq!((location.file.as_str(), location.line, location.column), ("src/lib.rs", 10, 5));
    state.handle_line_at(panic_event("a", "", Some(("src/main.rs", 1, 2))), 3, id);
    let info = state.pending_error("a").expect("detail waits");
    assert_eq!(info.message.as_deref(), Some("boom"));
    assert_eq!(info.location.unwrap().file, "src/main.rs");
    assert!(state.pending_error("b").is_none());
}

#[test]
fn failed_result_takes_the_detail_that_arrived_before_it() {
    let mut session = ExecutableSession::new();
    let id = Uuid::new_v4();
    assert!(session.on_stdout_line_at("test mymod::add", 1, id).is_some());
    session.on_stderr_group("thread 'mymod::add' panicked at src/lib.rs:10:5:\nassertion failed");
    match session.on_stdout_line_at("test mymod::add ... FAILED", 2, id) {
        Some(ProcessOutput::TestFailed { result, duration_ms, error, location }) => {
            assert_eq!(result.name, "mymod::add");
            assert_eq!(result.status, TestStatus::Failed);
            assert_eq!(duration_ms, 1);
            assert_eq!(error, "assertion failed");
            let location = location.expect("a location");
            assert_eq!(location.to_string(), "src/lib.rs:10:5");
            let attached = result.error.expect("the detail is attached");
            assert_eq!(attached.kind(), ErrorKind::TestExecution);
            assert_eq!(attached.message(), "--> src/lib.rs:10:5\n    |\n    | assertion failed\n    |");
        }
        other => panic!("unexpected: {:?}", other),
    }
    assert!(session.state.pending_error("mymod::add").is_none());
    let suite = session.finish_at("bin", None, None, 3, id);
    assert_eq!(suite.total_tests, 1);
    assert_eq!(suite.failed_tests, 1);
}

#[test]
fn failed_result_gets_the_detail_that_arrived_after_it_when_the_binary_ends() {
    let mut session = ExecutableSession::new();
    let id = Uuid::new_v4();
    session.on_stdout_line_at("test mymod::add", 1, id);
    let events: Vec<ProcessOutput> =
        session.on_stdout_line_at("test mymod::add ... FAILED", 2, id).into_iter().collect();
    assert_eq!(events.len(), 1);
    match &events[0] {
        ProcessOutput::TestFailed { result, error, location, .. } => {
            assert_eq!(result.name, "mymod::add");
            assert_eq!(error, "");
            assert!(location.is_none());
            assert!(result.error.is_none());
        }
        other => panic!("unexpected: {:?}", other),
    }
    session.on_stderr_group("thread 'mymod::add' panicked at src/lib.rs:10:5:\nassertion failed");
    let suite = session.finish_at("bin", None, None, 3, id);
    assert_eq!(suite.test_results.len(), 1);
    let attached = suite.test_results[0].error.as_ref().expect("the detail is attached");
    assert_eq!(attached.message(), "--> src/lib.rs:10:5\n    |\n    | assertion failed\n    |");
    assert_eq!(suite.failed_tests, 1);
    assert!(!suite.all_passed());
}

#[test]
fn what_is_left_of_the_streams_is_read_when_the_binary_ends() {
    let mut session = ExecutableSession::for_suite("bin");
    let id = Uuid::new_v4();
    session.on_stdout_line_at("test a", 1, id);
    let suite = session.finish_at(
        "bin",
        Some("test a ... FAILED"),
        Some("thread 'a' panicked at x.rs:1:1:\nlate"),
        9,
        id,
    );
    assert_eq!(suite.name, "bin");
    assert_eq!(suite.test_results.len(), 1);
    assert_eq!(suite.test_results[0].duration, Some(8));
    assert_eq!(suite.test_results[0].error.as_ref().unwrap().message(), "--> x.rs:1:1\n    |\n    | late\n    |");
}

#[test]
fn detail_is_given_to_the_first_result_of_its_name_only() {
    let mut state = TestRunState::new();
    let id = Uuid::new_v4();
    state.handle_line_at(panic_event("a", "boom", None), 1, id);
    let mut results = vec![
        sheila::outcome::create_test_result("a", TestStatus::Passed),
        sheila::outcome::create_test_result("a", TestStatus::Passed),
        sheila::outcome::create_test_result("b", TestStatus::Failed),
    ];
    state.finalize_pending_errors(&mut results);
    assert_eq!(results[0].error.as_ref().unwrap().message(), "boom");
    assert!(results[1].error.is_none());
    assert_eq!(results[2].error.as_ref().unwrap().message(), "Test failed");
    assert!(state.pending_error("a").is_none());
}

#[test]
fn handle_line_reads_the_clock_itself() {
    let mut state = TestRunState::new();
    assert!(matches!(state.handle_line(start("a")), Some(ProcessOutput::TestStarted { .. })));
    assert!(matches!(state.state_of("a"), TestState::Running { .. }));
    assert!(matches!(
        state.handle_line(result("a", TestStatus::Passed, Some(3))),
        Some(ProcessOutput::TestPassed { duration_ms: 3, .. })
    ));
}
