use sheila::error::{Error, ErrorKind};
use sheila::fixtures::dependency::FixtureRegistry;
use sheila::fixtures::scope::{
    FixtureDefinition, FixtureScope, FixtureSetup, FixtureTeardown, FixtureValue,
};
use sheila::internal::hook::{hook_failure, Hook, HookAction, HookFn, HookType, Hooks};
use sheila::runners::{
    run_in_order, select_suites, suite_is_selected, DefaultTestRunner, RunnerConfig, TestRunner,
};
use sheila::suite::{
    failed_before_run, settle_after_each, suite_hook_failure, SuiteAttributes, SuiteHooks, TestSuite,
};
use sheila::test::{Test, TestAttributes, TestBody, TestContext, TestMetadata, TestStatus};
use std::sync::{Arc, Mutex};
use uuid::Uuid;

type Log = Arc<Mutex<Vec<String>>>;

struct Step {
    label: String,
    log: Log,
    fail: bool,
}

impl Step {
    fn boxed(label: &str, log: &Log, fail: bool) -> Box<Step> {
        Box::new(Step { label: label.to_string(), log: log.clone(), fail })
    }

    fn go(&self) -> Result<(), Error> {
        self.log.lock().unwrap().push(self.label.clone());
        if self.fail {
            Err(Error::generic(&format!("{} broke", self.label)))
        } else {
            Ok(())
        }
    }
}

impl HookAction for Step {
    fn run(&self, _context: &TestContext) -> Result<(), Error> {
        self.go()
    }
}

impl TestBody for Step {
    fn run(&self, context: &TestContext) -> Result<(), Error> {
        assert!(!context.metadata.name.is_empty());
        self.go()
    }
}

impl FixtureSetup for Step {
    fn setup(&self, _context: &TestContext) -> Result<FixtureValue, Error> {
        self.go().map(|_| FixtureValue::Unit)
    }
}

impl FixtureTeardown for Step {
    fn teardown(&self, _value: FixtureValue, _context: &TestContext) -> Result<(), Error> {
        self.go()
    }
}

fn log() -> Log {
    Arc::new(Mutex::new(Vec::new()))
}

fn steps(log: &Log) -> Vec<String> {
    log.lock().unwrap().clone()
}

fn context() -> TestContext {
    TestContext::new(Uuid::new_v4(), TestMetadata::new("ctx"))
}

fn test(name: &str, log: &Log, fail: bool) -> Test {
    Test::new(name, Step::boxed(name, log, fail))
}

fn marked(name: &str, log: &Log, only: bool, ignore: bool) -> Test {
    let mut attributes = TestAttributes::default();
    attributes.only = only;
    attributes.ignore = ignore;
    test(name, log, false).with_attributes(attributes)
}

fn ran(suite: &mut TestSuite) -> Vec<(String, TestStatus)> {
    let result = suite.execute().unwrap();
    result.test_results.iter().map(|r| (r.name.clone(), r.status)).collect()
}

#[test]
fn hooks_run_in_order_and_stop_at_the_first_failure() {
    let l = log();
    let hooks = Hooks::new()
        .before_each("first", Step::boxed("first", &l, false))
        .before_each("second", Step::boxed("second", &l, true))
        .before_each("third", Step::boxed("third", &l, false))
        .after_all("last", Step::boxed("last", &l, false));
    assert_eq!(hooks.total_hooks(), 4);
    assert!(hooks.has_hooks(HookType::BeforeEach));
    assert!(!hooks.has_hooks(HookType::BeforeAll));
    assert_eq!(hooks.get_hooks(HookType::BeforeEach).len(), 3);
    assert_eq!(hooks.get_hooks(HookType::BeforeEach)[1].name, "second");
    assert!(hooks.get_hooks(HookType::BeforeSetup).is_empty());

    let e = hooks.execute(HookType::BeforeEach, &context()).unwrap_err();
    assert_eq!(e.kind(), ErrorKind::Hook);
    assert_eq!(e.to_string(), "Hook execution failed: before_each: Hook 'second' failed: second broke");
    assert_eq!(steps(&l), ["first", "second"]);
    assert!(hooks.execute(HookType::AfterAll, &context()).is_ok());
    assert!(hooks.execute(HookType::AfterTeardown, &context()).is_ok());
}

#[test]
fn hook_builders_bind_the_stage() {
    let l = log();
    let hooks = Hooks::new()
        .before_all("a", Step::boxed("a", &l, false))
        .after_each("b", Step::boxed("b", &l, false));
    assert_eq!(hooks.before_all[0].hook_type, HookType::BeforeAll);
    assert_eq!(hooks.after_each[0].hook_type, HookType::AfterEach);
    assert!(hooks.before_all[0].required);
    let hook = Hook::new(HookType::BeforeSetup, "h", Step::boxed("h", &l, false)).required(false);
    assert!(!hook.required);
    assert_eq!(hook.name, "h");
    assert_eq!(hook.function.name, "h");
    assert!(hook.execute(&context()).is_ok());
    let f = HookFn::new("f", Step::boxed("f", &l, true));
    assert_eq!(f.execute(&context()).unwrap_err().message(), "f broke");
    assert_eq!(steps(&l), ["h", "f"]);
}

#[test]
fn stage_words() {
    assert_eq!(HookType::BeforeAll.to_string(), "before_all");
    assert_eq!(HookType::AfterAll.to_string(), "after_all");
    assert_eq!(HookType::BeforeEach.to_string(), "before_each");
    assert_eq!(HookType::AfterEach.to_string(), "after_each");
    assert_eq!(HookType::BeforeSetup.to_string(), "before_setup");
    assert_eq!(HookType::AfterTeardown.to_string(), "after_teardown");
}

#[test]
fn hook_errors_name_stage_hook_and_cause() {
    let e = hook_failure(HookType::AfterAll, "cleanup", &Error::io("disk full"));
    assert_eq!(e.to_string(), "Hook execution failed: after_all: Hook 'cleanup' failed: IO error: disk full");
    let s = suite_hook_failure("before_all", "prepare", &Error::generic("x"));
    assert_eq!(s.to_string(), "Hook execution failed: before_all: Hook 'prepare' execution failed: x");
}

#[test]
fn suite_hooks_run_the_list_they_are_given() {
    let l = log();
    let hooks = SuiteHooks::new()
        .before_all("a", Step::boxed("a", &l, false))
        .before_all("b", Step::boxed("b", &l, true))
        .after_all("c", Step::boxed("c", &l, false))
        .before_each("d", Step::boxed("d", &l, false))
        .after_each("e", Step::boxed("e", &l, false));
    let e = hooks.execute_hooks(&hooks.before_all, &context(), "before_all").unwrap_err();
    assert_eq!(e.to_string(), "Hook execution failed: before_all: Hook 'b' execution failed: b broke");
    assert!(hooks.execute_hooks(&hooks.after_all, &context(), "after_all").is_ok());
    assert!(hooks.execute_hooks(&Vec::new(), &context(), "none").is_ok());
    assert_eq!(steps(&l), ["a", "b", "c"]);
}

#[test]
fn the_suite_runs_its_lifecycle_in_order() {
    let l = log();
    let mut registry = FixtureRegistry::new();
    registry.register_fixture(
        FixtureDefinition::new("db", FixtureScope::Suite)
            .with_setup("s", Step::boxed("setup db", &l, false))
            .with_teardown("t", Step::boxed("teardown db", &l, false)),
    );
    registry.register_fixture(
        FixtureDefinition::new("tmp", FixtureScope::Test)
            .with_setup("s", Step::boxed("setup tmp", &l, false))
            .with_teardown("t", Step::boxed("teardown tmp", &l, false)),
    );
    let hooks = SuiteHooks::new()
        .before_all("ba", Step::boxed("before_all", &l, false))
        .after_all("aa", Step::boxed("after_all", &l, false))
        .before_each("be", Step::boxed("before_each", &l, false))
        .after_each("ae", Step::boxed("after_each", &l, false));
    let mut suite = TestSuite::new("math")
        .with_hooks(hooks)
        .with_fixtures(registry)
        .add_test(test("one", &l, false))
        .add_test(test("two", &l, true));
    let result = suite.execute().unwrap();
    assert_eq!(
        steps(&l),
        [
            "setup db", "before_all",
            "setup tmp", "before_each", "one", "after_each", "teardown tmp",
            "setup tmp", "before_each", "two", "after_each", "teardown tmp",
            "after_all", "teardown db",
        ]
    );
    assert_eq!(result.name, "math");
    assert_eq!(result.id, suite.id);
    assert!(result.error.is_none());
    assert!(result.end_time.is_some());
    assert_eq!((result.total_tests, result.passed_tests, result.failed_tests), (2, 1, 1));
    assert_eq!(result.test_results[0].name, "one");
    assert_eq!(result.test_results[0].status, TestStatus::Passed);
    assert_eq!(result.test_results[1].name, "two");
    assert_eq!(result.test_results[1].status, TestStatus::Failed);
    assert_eq!(result.test_results[1].error.as_ref().unwrap().message(), "two broke");
    assert!(!result.all_passed());
}

#[test]
fn a_failing_suite_setup_ends_the_suite_without_tests() {
    let l = log();
    let mut registry = FixtureRegistry::new();
    registry.register_fixture(
        FixtureDefinition::new("db", FixtureScope::Suite).with_setup("s", Step::boxed("setup db", &l, true)),
    );
    let mut suite = TestSuite::new("s").with_fixtures(registry).add_test(test("one", &l, false));
    let result = suite.execute().unwrap();
    assert_eq!(result.error.as_ref().unwrap().message(), "setup db broke");
    assert!(result.test_results.is_empty());
    assert!(!result.all_passed());
    assert_eq!(steps(&l), ["setup db"]);
}

#[test]
fn fixtures_that_cannot_be_ordered_end_the_suite() {
    let l = log();
    let mut registry = FixtureRegistry::new();
    registry.register_fixture(FixtureDefinition::new("a", FixtureScope::Suite).depends_on("missing"));
    let mut suite = TestSuite::new("s").with_fixtures(registry).add_test(test("one", &l, false));
    let result = suite.execute().unwrap();
    assert_eq!(
        result.error.as_ref().unwrap().to_string(),
        "Fixture error: Fixture 'a' depends on undefined fixture 'missing'"
    );
    assert!(result.test_results.is_empty());
    assert!(steps(&l).is_empty());
}

#[test]
fn a_failing_before_all_ends_the_suite_without_tests() {
    let l = log();
    let hooks = SuiteHooks::new().before_all("ba", Step::boxed("before_all", &l, true));
    let mut suite = TestSuite::new_with_hooks("s", hooks).add_test(test("one", &l, false));
    let result = suite.execute().unwrap();
    let e = result.error.as_ref().unwrap();
    assert_eq!(e.kind(), ErrorKind::Hook);
    assert_eq!(e.to_string(), "Hook execution failed: before_all: Hook 'ba' execution failed: before_all broke");
    assert!(result.test_results.is_empty());
    assert_eq!(steps(&l), ["before_all"]);
}

#[test]
fn a_failing_before_each_fails_the_test_and_the_next_test_still_runs() {
    let l = log();
    let mut registry = FixtureRegistry::new();
    registry.register_fixture(
        FixtureDefinition::new("tmp", FixtureScope::Test)
            .with_setup("s", Step::boxed("setup tmp", &l, false))
            .with_teardown("t", Step::boxed("teardown tmp", &l, false)),
    );
    let hooks = SuiteHooks::new().before_each("be", Step::boxed("before_each", &l, true));
    let mut suite = TestSuite::new("s")
        .with_hooks(hooks)
        .with_fixtures(registry)
        .add_test(test("one", &l, false))
        .add_test(test("two", &l, false));
    let result = suite.execute().unwrap();
    assert_eq!(
        steps(&l),
        [
            "setup tmp", "before_each", "teardown tmp",
            "setup tmp", "before_each", "teardown tmp",
        ]
    );
    assert!(result.error.is_none());
    assert_eq!((result.total_tests, result.failed_tests), (2, 2));
    assert_eq!(result.test_results[0].error.as_ref().unwrap().kind(), ErrorKind::Hook);
    assert_eq!(result.test_results[0].name, "one");
}

#[test]
fn a_failing_test_fixture_fails_the_test_before_its_hooks_run() {
    let l = log();
    let mut registry = FixtureRegistry::new();
    registry.register_fixture(
        FixtureDefinition::new("tmp", FixtureScope::Test).with_setup("s", Step::boxed("setup tmp", &l, true)),
    );
    let hooks = SuiteHooks::new()
        .before_each("be", Step::boxed("before_each", &l, false))
        .after_all("aa", Step::boxed("after_all", &l, false));
    let mut suite = TestSuite::new("s").with_hooks(hooks).with_fixtures(registry).add_test(test("one", &l, false));
    let result = suite.execute().unwrap();
    assert_eq!(steps(&l), ["setup tmp", "after_all"]);
    assert_eq!(result.test_results[0].status, TestStatus::Failed);
    assert_eq!(result.test_results[0].error.as_ref().unwrap().message(), "setup tmp broke");
    assert!(result.error.is_none());
}

#[test]
fn a_failing_after_each_fails_a_passed_test_only() {
    let l = log();
    let hooks = SuiteHooks::new().after_each("ae", Step::boxed("after_each", &l, true));
    let mut suite = TestSuite::new("s")
        .with_hooks(hooks)
        .add_test(test("good", &l, false))
        .add_test(test("bad", &l, true));
    let result = suite.execute().unwrap();
    assert_eq!(result.test_results[0].status, TestStatus::Failed);
    assert_eq!(result.test_results[0].error.as_ref().unwrap().kind(), ErrorKind::Hook);
    assert_eq!(result.test_results[1].status, TestStatus::Failed);
    assert_eq!(result.test_results[1].error.as_ref().unwrap().message(), "bad broke");
}

#[test]
fn settling_after_the_hooks() {
    let l = log();
    let t = test("t", &l, false);
    let passed = t.result_of(Ok(()), 10, 20);
    assert_eq!(passed.status, TestStatus::Passed);
    assert_eq!(passed.duration, Some(10));
    let kept = settle_after_each(t.result_of(Ok(()), 10, 20), Ok(()), 30);
    assert_eq!(kept.status, TestStatus::Passed);
    assert_eq!(kept.end_time, Some(20));
    let failed = settle_after_each(t.result_of(Ok(()), 10, 20), Err(Error::hook("after_each", "x")), 30);
    assert_eq!(failed.status, TestStatus::Failed);
    assert_eq!(failed.end_time, Some(30));
    assert_eq!(failed.duration, Some(20));
    assert_eq!(failed.error.as_ref().unwrap().kind(), ErrorKind::Hook);
    let already = settle_after_each(
        t.result_of(Err(Error::assertion("first")), 10, 20),
        Err(Error::hook("after_each", "x")),
        30,
    );
    assert_eq!(already.error.as_ref().unwrap().message(), "first");
    assert_eq!(already.end_time, Some(20));
    let before = failed_before_run(&t, Error::fixture("f"), 5);
    assert_eq!(before.status, TestStatus::Failed);
    assert_eq!(before.name, "t");
    assert_eq!(before.id, t.id);
    assert_eq!(before.duration, Some(0));
}

#[test]
fn a_failing_test_teardown_does_not_change_the_result() {
    let l = log();
    let mut registry = FixtureRegistry::new();
    registry.register_fixture(
        FixtureDefinition::new("tmp", FixtureScope::Test)
            .with_setup("s", Step::boxed("setup tmp", &l, false))
            .with_teardown("t", Step::boxed("teardown tmp", &l, true)),
    );
    let mut suite = TestSuite::new("s").with_fixtures(registry).add_test(test("one", &l, false));
    let result = suite.execute().unwrap();
    assert_eq!(result.test_results[0].status, TestStatus::Passed);
    assert!(result.error.is_none());
    assert!(result.all_passed());
}

#[test]
fn a_failing_after_all_keeps_the_recorded_tests() {
    let l = log();
    let mut registry = FixtureRegistry::new();
    registry.register_fixture(
        FixtureDefinition::new("db", FixtureScope::Suite)
            .with_setup("s", Step::boxed("setup db", &l, false))
            .with_teardown("t", Step::boxed("teardown db", &l, false)),
    );
    let hooks = SuiteHooks::new().after_all("aa", Step::boxed("after_all", &l, true));
    let mut suite = TestSuite::new("s").with_hooks(hooks).with_fixtures(registry).add_test(test("one", &l, false));
    let result = suite.execute().unwrap();
    assert_eq!(result.total_tests, 1);
    assert_eq!(result.error.as_ref().unwrap().kind(), ErrorKind::Hook);
    assert_eq!(steps(&l), ["setup db", "one", "after_all"]);
}

#[test]
fn a_failing_suite_teardown_is_the_suites_error() {
    let l = log();
    let mut registry = FixtureRegistry::new();
    registry.register_fixture(
        FixtureDefinition::new("db", FixtureScope::Suite)
            .with_setup("s", Step::boxed("setup db", &l, false))
            .with_teardown("t", Step::boxed("teardown db", &l, true)),
    );
    let mut suite = TestSuite::new("s").with_fixtures(registry).add_test(test("one", &l, false));
    let result = suite.execute().unwrap();
    assert_eq!(result.error.as_ref().unwrap().message(), "teardown db broke");
    assert_eq!(result.passed_tests, 1);
    assert!(!result.all_passed());
}

#[test]
fn the_runnable_tests_follow_the_marks() {
    let l = log();
    let mut plain = TestSuite::new("s")
        .add_test(marked("a", &l, false, false))
        .add_test(marked("b", &l, false, true))
        .add_test(marked("c", &l, false, false));
    assert_eq!(plain.runnable_indices(), [0, 2]);
    assert_eq!(plain.get_runnable_tests().len(), 2);
    assert_eq!(plain.get_runnable_tests()[1].meta.name, "c");
    assert_eq!(ran(&mut plain), [("a".to_string(), TestStatus::Passed), ("c".to_string(), TestStatus::Passed)]);

    let mut with_only = TestSuite::new("s")
        .add_test(marked("a", &l, false, false))
        .add_test(marked("b", &l, true, true))
        .add_test(marked("c", &l, true, false));
    assert_eq!(with_only.runnable_indices(), [1, 2]);
    assert_eq!(ran(&mut with_only).len(), 2);

    let all = TestSuite::new("s")
        .only()
        .add_test(marked("a", &l, false, true))
        .add_test(marked("b", &l, true, false));
    assert!(all.is_only());
    assert_eq!(all.runnable_indices(), [0, 1]);

    let none = TestSuite::new("s").add_test(marked("a", &l, false, true));
    assert!(none.runnable_indices().is_empty());
    assert!(TestSuite::new("empty").runnable_indices().is_empty());
}

#[test]
fn a_test_declared_again_takes_the_place_of_the_first() {
    let l = log();
    let suite = TestSuite::new("s")
        .add_test(test("a", &l, false))
        .add_test(test("b", &l, false))
        .add_test(test("a", &l, true));
    assert_eq!(suite.get_tests().len(), 2);
    assert_eq!(suite.get_tests()[0].meta.name, "a");
    let mut suite = suite;
    assert_eq!(ran(&mut suite), [("a".to_string(), TestStatus::Failed), ("b".to_string(), TestStatus::Passed)]);
}

#[test]
fn suite_builders_set_what_they_name() {
    let suite = TestSuite::new_with_module("s", "crate::math")
        .ignore()
        .retries(3)
        .timeout(1_500)
        .tag("slow")
        .tag("db")
        .category("integration");
    assert_eq!(suite.name, "s");
    assert_eq!(suite.meta.name, "s");
    assert_eq!(suite.mod_path(), "crate::math");
    assert!(suite.is_in_module("crate"));
    assert!(suite.is_in_module("crate::math"));
    assert!(!suite.is_in_module("math"));
    assert!(suite.should_ignore());
    assert!(!suite.is_only());
    assert_eq!(suite.attributes.retries, 3);
    assert_eq!(suite.get_timeout(), Some(1_500));
    assert_eq!(suite.attributes.tags, ["slow", "db"]);
    assert_eq!(suite.attributes.category.as_deref(), Some("integration"));
    let other = TestSuite::new("t")
        .with_metadata(TestMetadata::new("shown"))
        .with_attributes(SuiteAttributes::default());
    assert_eq!(other.meta.name, "shown");
    assert!(!other.attributes.ignore && other.get_timeout().is_none());
    assert!(TestSuite::new("u").mod_path().is_empty());
}

fn tagged(name: &str, tags: &[&str], category: Option<&str>) -> TestSuite {
    let mut suite = TestSuite::new(name);
    for tag in tags {
        suite = suite.tag(tag);
    }
    if let Some(c) = category {
        suite = suite.category(c);
    }
    suite
}

#[test]
fn suites_are_selected_by_patterns_tags_and_categories() {
    let any = RunnerConfig::new();
    assert!(suite_is_selected(&any, &tagged("math", &[], None)));
    assert!(!suite_is_selected(&any, &tagged("math", &[], None).ignore()));

    let wanted = RunnerConfig::new().include_pattern("ma").include_pattern("zz");
    assert!(suite_is_selected(&wanted, &tagged("math", &[], None)));
    assert!(!suite_is_selected(&wanted, &tagged("text", &[], None)));
    assert!(suite_is_selected(&wanted, &tagged("text", &[], None).with_metadata(TestMetadata::new("format"))));

    let exclude = RunnerConfig::new().exclude_pattern("th");
    assert!(!suite_is_selected(&exclude, &tagged("math", &[], None)));
    assert!(suite_is_selected(&exclude, &tagged("text", &[], None)));

    let tags = RunnerConfig::new().include_tag("fast").exclude_tag("db");
    assert!(suite_is_selected(&tags, &tagged("a", &["fast"], None)));
    assert!(!suite_is_selected(&tags, &tagged("a", &["fast", "db"], None)));
    assert!(!suite_is_selected(&tags, &tagged("a", &[], None)));

    let mut categories = RunnerConfig::new();
    categories.include_categories.push("unit".to_string());
    assert!(suite_is_selected(&categories, &tagged("a", &[], Some("unit"))));
    assert!(!suite_is_selected(&categories, &tagged("a", &[], Some("e2e"))));
    assert!(!suite_is_selected(&categories, &tagged("a", &[], None)));
    let mut excluded = RunnerConfig::new();
    excluded.exclude_categories.push("e2e".to_string());
    assert!(!suite_is_selected(&excluded, &tagged("a", &[], Some("e2e"))));
    assert!(suite_is_selected(&excluded, &tagged("a", &[], None)));

    let chosen = select_suites(
        &wanted,
        vec![tagged("text", &[], None), tagged("math", &[], None), tagged("zz top", &[], None)],
    );
    assert_eq!(chosen.iter().map(|s| s.name.as_str()).collect::<Vec<_>>(), ["math", "zz top"]);
    let runner = DefaultTestRunner::new(exclude);
    let kept = runner.filter_suites(vec![tagged("math", &[], None), tagged("text", &[], None)]);
    assert_eq!(kept.len(), 1);
    assert_eq!(kept[0].name, "text");
}

fn suite_with(name: &str, log: &Log, fail: bool) -> TestSuite {
    TestSuite::new(name).add_test(test(&format!("{} test", name), log, fail))
}

#[test]
fn the_runner_runs_every_selected_suite() {
    let l = log();
    let runner = DefaultTestRunner::new(RunnerConfig::new().exclude_pattern("skip"));
    let result = runner
        .run(vec![suite_with("a", &l, true), suite_with("skip me", &l, false), suite_with("c", &l, false)])
        .unwrap();
    assert_eq!(steps(&l), ["a test", "c test"]);
    assert_eq!(result.suite_results.iter().map(|s| s.name.as_str()).collect::<Vec<_>>(), ["a", "c"]);
    assert!(result.error.is_none());
    assert!(result.end_time.is_some());
    assert_eq!((result.total_suites, result.passed_suites, result.failed_suites), (2, 1, 1));
    assert_eq!((result.total_tests, result.passed_tests, result.failed_tests), (2, 1, 1));
    assert!(!result.all_passed());
}

#[test]
fn with_fail_fast_the_runner_stops_after_the_first_suite_that_did_not_pass() {
    let l = log();
    let config = RunnerConfig::new().fail_fast(true);
    let result = run_in_order(
        &config,
        vec![suite_with("a", &l, false), suite_with("b", &l, true), suite_with("c", &l, false)],
    );
    assert_eq!(steps(&l), ["a test", "b test"]);
    assert_eq!(result.suite_results.len(), 2);
    assert_eq!(result.error.as_ref().unwrap().to_string(), "Test execution failed: Failing fast due to test failure");
    assert!(result.end_time.is_some());
    assert!(!result.all_passed());
}

#[test]
fn a_run_without_suites_passes() {
    let runner = DefaultTestRunner::default();
    let result = runner.run(Vec::new()).unwrap();
    assert!(result.all_passed());
    assert!(result.end_time.is_some());
    assert_eq!(result.total_suites, 0);
}

#[test]
fn the_runner_hands_out_the_configuration_it_was_given() {
    let l = log();
    let mut runner = DefaultTestRunner::default();
    assert!(!runner.config().fail_fast);
    assert_eq!(runner.config().max_concurrent_suites, Some(4));
    assert_eq!(runner.config().default_test_timeout, Some(30_000));
    runner.set_config(
        RunnerConfig::new().fail_fast(true).parallel(false).max_concurrent_suites(1).output_dir("out")
            .default_test_timeout(5).default_suite_timeout(6),
    );
    assert!(runner.config().fail_fast);
    assert!(!runner.config().parallel);
    assert_eq!(runner.config().max_concurrent_suites, Some(1));
    assert_eq!(runner.config().output_dir.as_deref(), Some("out"));
    assert_eq!(runner.config().default_test_timeout, Some(5));
    assert_eq!(runner.config().default_suite_timeout, Some(6));
    let copy = runner.config().clone();
    assert!(copy.fail_fast && !copy.parallel);
    let one = runner.run_suite(suite_with("solo", &l, false)).unwrap();
    assert_eq!(one.name, "solo");
    assert!(one.all_passed());
}

#[test]
fn a_test_reports_what_its_body_returned() {
    let l = log();
    let ctx = context();
    let good = test("good", &l, false).execute(&ctx);
    assert_eq!(good.status, TestStatus::Passed);
    assert!(good.error.is_none());
    assert!(good.passed());
    let t = test("bad", &l, true);
    let bad = t.execute(&ctx);
    assert_eq!(bad.status, TestStatus::Failed);
    assert_eq!(bad.name, "bad");
    assert_eq!(bad.id, t.id);
    assert_eq!(bad.error.as_ref().unwrap().message(), "bad broke");
    assert!(!t.is_only() && !t.should_ignore());
    let again = ctx.clone();
    assert_eq!(again.test_id, ctx.test_id);
    assert_eq!(again.metadata.name, "ctx");
}

#[test]
fn every_hook_of_a_stage_has_that_stage() {
    let l = log();
    let hooks = Hooks::new()
        .before_all("a", Step::boxed("a", &l, false))
        .before_all("b", Step::boxed("b", &l, false))
        .after_all("c", Step::boxed("c", &l, false))
        .before_each("d", Step::boxed("d", &l, false))
        .after_each("e", Step::boxed("e", &l, false))
        .before_all("f", Step::boxed("f", &l, false));
    for stage in [
        HookType::BeforeAll,
        HookType::AfterAll,
        HookType::BeforeEach,
        HookType::AfterEach,
        HookType::BeforeSetup,
        HookType::AfterTeardown,
    ] {
        assert!(hooks.get_hooks(stage).iter().all(|h| h.hook_type == stage));
    }
    let added: Vec<&str> =
        hooks.get_hooks(HookType::BeforeAll).iter().map(|h| h.name.as_str()).collect();
    assert_eq!(added, ["a", "b", "f"]);
    assert!(hooks.get_hooks(HookType::BeforeSetup).is_empty());
    assert!(hooks.get_hooks(HookType::AfterTeardown).is_empty());
    hooks.execute(HookType::BeforeAll, &context()).unwrap();
    assert_eq!(steps(&l), ["a", "b", "f"]);
}

#[test]
fn a_suite_without_hooks_and_fixture_callbacks_holds_no_error() {
    let l = log();
    let mut suite = TestSuite::new("bare")
        .add_test(test("one", &l, false))
        .add_test(test("two", &l, true));
    suite.fixtures.register_fixture(FixtureDefinition::new("plain", FixtureScope::Suite));
    let result = suite.execute().unwrap();
    assert!(result.error.is_none());
    assert!(result.end_time.is_some());
    assert_eq!(result.test_results.len(), 2);
    assert_eq!((result.passed_tests, result.failed_tests), (1, 1));
}

#[test]
fn a_run_of_the_suite_leaves_no_fixture_value_behind() {
    let l = log();
    let mut registry = FixtureRegistry::new();
    registry.register_fixture(
        FixtureDefinition::new("db", FixtureScope::Suite)
            .with_setup("s", Step::boxed("setup db", &l, false))
            .with_teardown("t", Step::boxed("teardown db", &l, false)),
    );
    registry.register_fixture(
        FixtureDefinition::new("tmp", FixtureScope::Test)
            .with_setup("s", Step::boxed("setup tmp", &l, false)),
    );
    let mut suite = TestSuite::new("math")
        .with_fixtures(registry)
        .add_test(test("one", &l, false))
        .add_test(test("two", &l, true));
    let result = suite.execute().unwrap();
    assert!(result.error.is_none());
    assert!(suite.fixtures.get_fixture_instance("db").is_none());
    assert!(suite.fixtures.get_fixture_instance("tmp").is_none());
    assert_eq!(suite.name, "math");
    assert_eq!(suite.get_tests().len(), 2);
}

#[test]
fn a_failing_before_all_leaves_the_suite_fixtures_set_up() {
    let l = log();
    let mut registry = FixtureRegistry::new();
    registry.register_fixture(
        FixtureDefinition::new("db", FixtureScope::Suite)
            .with_setup("s", Step::boxed("setup db", &l, false))
            .with_teardown("t", Step::boxed("teardown db", &l, false)),
    );
    let mut suite = TestSuite::new("math")
        .with_hooks(SuiteHooks::new().before_all("ba", Step::boxed("before_all", &l, true)))
        .with_fixtures(registry)
        .add_test(test("one", &l, false));
    let result = suite.execute().unwrap();
    assert!(result.error.is_some());
    assert!(result.test_results.is_empty());
    assert!(suite.fixtures.get_fixture_instance("db").is_some());
    assert_eq!(steps(&l), ["setup db", "before_all"]);
}

#[test]
fn the_runnable_tests_are_handed_out_as_they_stand() {
    let l = log();
    let suite = TestSuite::new("marks")
        .add_test(marked("a", &l, false, true))
        .add_test(marked("b", &l, false, false))
        .add_test(marked("c", &l, false, false));
    let names: Vec<&str> = suite.get_runnable_tests().iter().map(|t| t.meta.name.as_str()).collect();
    assert_eq!(names, ["b", "c"]);
    let all: Vec<&str> = suite.get_tests().iter().map(|t| t.meta.name.as_str()).collect();
    assert_eq!(all, ["a", "b", "c"]);
    let ids: Vec<Uuid> = suite.get_runnable_tests().iter().map(|t| t.id).collect();
    assert_eq!(ids, [suite.tests[1].id, suite.tests[2].id]);
}

#[test]
fn suite_builders_keep_what_they_do_not_name() {
    let l = log();
    let hooks = SuiteHooks::new().before_each("be", Step::boxed("before_each", &l, false));
    let mut registry = FixtureRegistry::new();
    registry.register_fixture(FixtureDefinition::new("db", FixtureScope::Suite));
    let suite = TestSuite::new_with_hooks("kept", hooks).with_fixtures(registry);
    let id = suite.id;
    let suite = suite
        .add_test(test("one", &l, false))
        .tag("slow")
        .category("db")
        .retries(2)
        .timeout(50)
        .ignore()
        .only()
        .add_test(test("one", &l, true));
    assert_eq!(suite.id, id);
    assert_eq!(suite.hooks.before_each.len(), 1);
    assert_eq!(suite.hooks.before_each[0].name, "be");
    assert_eq!(suite.get_tests().len(), 1);
    assert_eq!(suite.attributes.tags, ["slow"]);
    assert_eq!(suite.attributes.category.as_deref(), Some("db"));
    assert_eq!(suite.attributes.retries, 2);
    assert_eq!(suite.attributes.timeout, Some(50));
    assert!(suite.attributes.ignore && suite.attributes.only);
    let mut suite = suite;
    let result = suite.execute().unwrap();
    assert_eq!(steps(&l), ["before_each", "one"]);
    assert_eq!(result.test_results[0].status, TestStatus::Failed);
}

#[test]
fn the_default_configuration_is_the_new_one() {
    let made = RunnerConfig::new();
    let default = RunnerConfig::default();
    assert_eq!(made.max_concurrent_suites, default.max_concurrent_suites);
    assert_eq!(made.max_concurrent_suites, Some(4));
    assert_eq!(made.default_test_timeout, Some(30_000));
    assert_eq!(made.default_suite_timeout, Some(300_000));
    assert!(!made.fail_fast && made.parallel && made.capture_output);
    assert!(made.output_dir.is_none());
    assert!(made.include_patterns.is_empty() && made.exclude_patterns.is_empty());
    assert!(made.include_tags.is_empty() && made.exclude_tags.is_empty());
    assert!(made.include_categories.is_empty() && made.exclude_categories.is_empty());
    assert!(made.env.is_empty() && made.custom.is_empty());
}
