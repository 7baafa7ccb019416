use sheila::error::{Error, ErrorKind};
use sheila::types::ErrorInfo;

#[test]
fn error_text_starts_with_the_words_of_its_kind() {
    let e = Error::fixture("no such fixture");
    assert_eq!(e.kind(), ErrorKind::Fixture);
    assert_eq!(e.to_string(), "Fixture error: no such fixture");
    let h = Error::hook("before_all", "boom");
    assert_eq!(h.to_string(), "Hook execution failed: before_all: boom");
    let g = Error::generic("plain");
    assert_eq!(g.to_string(), "plain");
}

#[test]
fn every_kind_has_its_constructor_and_its_words() {
    let cases: Vec<(Error, ErrorKind, &str)> = vec![
        (Error::test_execution("m"), ErrorKind::TestExecution, "Test execution failed: m"),
        (Error::test_setup("m"), ErrorKind::TestSetup, "Test setup failed: m"),
        (Error::test_teardown("m"), ErrorKind::TestTeardown, "Test teardown failed: m"),
        (Error::fixture("m"), ErrorKind::Fixture, "Fixture error: m"),
        (Error::hook("after_each", "m"), ErrorKind::Hook, "Hook execution failed: after_each: m"),
        (Error::assertion("m"), ErrorKind::Assertion, "Assertion failed: m"),
        (Error::mock("m"), ErrorKind::Mock, "Mock error: m"),
        (Error::intended_failure("m"), ErrorKind::IntendedFailure, "Intended failure: m"),
        (Error::runner_config("m"), ErrorKind::RunnerConfig, "Runner configuration error: m"),
        (Error::reporter("m"), ErrorKind::Reporter, "Reporter error: m"),
        (Error::parameterization("m"), ErrorKind::Parameterization, "Parameterization error: m"),
        (Error::timeout("m"), ErrorKind::Timeout, "Operation timed out: m"),
        (Error::io("m"), ErrorKind::Io, "IO error: m"),
        (Error::serialization("m"), ErrorKind::Serialization, "Serialization error: m"),
        (Error::invalid_config("m"), ErrorKind::InvalidConfig, "Invalid configuration: m"),
        (Error::generic("m"), ErrorKind::Generic, "m"),
    ];
    for (error, kind, text) in cases {
        assert_eq!(error.kind(), kind);
        assert_eq!(error.message(), "m");
        assert_eq!(error.to_string(), text);
        let copy = error.clone();
        assert_eq!(copy.kind(), kind);
        assert_eq!(copy.to_string(), text);
    }
}

#[test]
fn failure_detail_is_written_as_a_pointer() {
    let mut info = ErrorInfo::new();
    assert_eq!(info.format_error(), "Unknown error");
    info.set_message("boom".to_string());
    assert_eq!(info.format_error(), "boom");
    info.set_location("src/lib.rs".to_string(), 42, 15);
    assert_eq!(info.format_error(), "--> src/lib.rs:42:15\n    |\n    | boom\n    |");
    assert_eq!(info.to_string(), info.format_error());
    let mut only_location = ErrorInfo::new();
    only_location.set_location("a.rs".to_string(), 0, u32::MAX);
    assert_eq!(only_location.format_error(), "--> a.rs:0:4294967295");
    assert!(only_location.message.is_none());
    assert!(only_location.backtrace.is_empty());
}
