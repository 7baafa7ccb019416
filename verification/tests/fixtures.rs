use sheila::error::{Error, ErrorKind};
use sheila::fixtures::dependency::{reversed, FixtureDependencyGraph, FixtureRegistry};
use sheila::fixtures::lifecycle::FixtureManager;
use sheila::fixtures::scope::{
    FixtureDefinition, FixtureScope, FixtureSetup, FixtureTeardown, FixtureValue,
};
use sheila::test::{TestContext, TestMetadata};
use std::sync::{Arc, Mutex};
use uuid::Uuid;

fn names(list: &[&str]) -> Vec<String> {
    list.iter().map(|s| s.to_string()).collect()
}

fn context() -> TestContext {
    TestContext::new(Uuid::new_v4(), TestMetadata::new("ctx"))
}

struct Log(Arc<Mutex<Vec<String>>>);

struct Make {
    name: &'static str,
    log: Arc<Mutex<Vec<String>>>,
    fail: bool,
}

impl FixtureSetup for Make {
    fn setup(&self, _context: &TestContext) -> Result<FixtureValue, Error> {
        self.log.lock().unwrap().push(format!("setup {}", self.name));
        if self.fail {
            Err(Error::fixture("no room"))
        } else {
            Ok(FixtureValue::Text(self.name.to_string()))
        }
    }
}

struct Release {
    name: &'static str,
    log: Arc<Mutex<Vec<String>>>,
    fail: bool,
}

impl FixtureTeardown for Release {
    fn teardown(&self, value: FixtureValue, _context: &TestContext) -> Result<(), Error> {
        assert_eq!(value.as_text(), Some(self.name));
        self.log.lock().unwrap().push(format!("teardown {}", self.name));
        if self.fail {
            Err(Error::test_teardown(self.name))
        } else {
            Ok(())
        }
    }
}

fn logged(name: &'static str, scope: FixtureScope, deps: &[&str], log: &Log) -> FixtureDefinition {
    FixtureDefinition::new(name, scope)
        .with_dependencies(names(deps))
        .with_setup("make", Box::new(Make { name, log: log.0.clone(), fail: false }))
        .with_teardown("release", Box::new(Release { name, log: log.0.clone(), fail: false }))
}

#[test]
fn test_dep_resolution() {
    let mut graph = FixtureDependencyGraph::new();

    // dependencies: C -> B -> A
    graph.add_fixture(FixtureDefinition::new("A", FixtureScope::Test));
    graph.add_fixture(
        FixtureDefinition::new("B", FixtureScope::Test).with_dependencies(vec!["A".to_string()]),
    );
    graph.add_fixture(
        FixtureDefinition::new("C", FixtureScope::Test).with_dependencies(vec!["B".to_string()]),
    );

    let order = graph.resolve_order().unwrap();

    // A should come before B -- B should come before C
    let a_pos = order.iter().position(|x| x == "A").unwrap();
    let b_pos = order.iter().position(|x| x == "B").unwrap();
    let c_pos = order.iter().position(|x| x == "C").unwrap();

    assert!(a_pos < b_pos);
    assert!(b_pos < c_pos);
}

#[test]
fn test_circular_deps() {
    let mut graph = FixtureDependencyGraph::new();

    // circular dependency: A -> B -> A
    graph.add_fixture(
        FixtureDefinition::new("A", FixtureScope::Test).with_dependencies(vec!["B".to_string()]),
    );
    graph.add_fixture(
        FixtureDefinition::new("B", FixtureScope::Test).with_dependencies(vec!["A".to_string()]),
    );

    assert!(graph.has_circular_dependencies());
    assert!(graph.resolve_order().is_err());
}

#[test]
fn every_fixture_stands_after_what_it_depends_on() {
    let mut graph = FixtureDependencyGraph::new();
    graph.add_fixture(FixtureDefinition::new("d", FixtureScope::Test).with_dependencies(names(&["b", "c"])));
    graph.add_fixture(FixtureDefinition::new("b", FixtureScope::Test).depends_on("a"));
    graph.add_fixture(FixtureDefinition::new("c", FixtureScope::Test).depends_on("a"));
    graph.add_fixture(FixtureDefinition::new("a", FixtureScope::Test));
    graph.add_fixture(FixtureDefinition::new("e", FixtureScope::Test));
    let order = graph.resolve_order().unwrap();
    assert_eq!(order, names(&["a", "b", "c", "d", "e"]));
    assert!(!graph.has_circular_dependencies());
}

#[test]
fn resolution_of_an_empty_graph_is_empty() {
    let graph = FixtureDependencyGraph::new();
    assert_eq!(graph.resolve_order().unwrap(), Vec::<String>::new());
    assert!(graph.all_names().is_empty());
}

#[test]
fn a_cycle_is_an_error_that_names_a_fixture_on_it() {
    let mut graph = FixtureDependencyGraph::new();
    graph.add_fixture(FixtureDefinition::new("x", FixtureScope::Test));
    graph.add_fixture(FixtureDefinition::new("a", FixtureScope::Test).depends_on("b"));
    graph.add_fixture(FixtureDefinition::new("b", FixtureScope::Test).depends_on("c"));
    graph.add_fixture(FixtureDefinition::new("c", FixtureScope::Test).depends_on("a"));
    let e = graph.resolve_order().unwrap_err();
    assert_eq!(e.kind(), ErrorKind::Fixture);
    assert_eq!(e.message(), "Circular dependency detected involving fixture 'a'");
    assert_eq!(e.to_string(), "Fixture error: Circular dependency detected involving fixture 'a'");
}

#[test]
fn a_fixture_that_depends_on_itself_is_a_cycle() {
    let mut graph = FixtureDependencyGraph::new();
    graph.add_fixture(FixtureDefinition::new("a", FixtureScope::Test).depends_on("a"));
    let e = graph.resolve_order().unwrap_err();
    assert_eq!(e.message(), "Circular dependency detected involving fixture 'a'");
}

#[test]
fn an_unregistered_dependency_fails_at_resolution_only() {
    let mut graph = FixtureDependencyGraph::new();
    graph.add_fixture(FixtureDefinition::new("B", FixtureScope::Test).depends_on("Z"));
    assert_eq!(graph.all_names(), names(&["B"]));
    assert!(graph.get_fixture("B").is_some());
    assert!(graph.get_fixture("Z").is_none());
    let e = graph.resolve_order().unwrap_err();
    assert_eq!(e.kind(), ErrorKind::Fixture);
    assert_eq!(e.message(), "Fixture 'B' depends on undefined fixture 'Z'");
    assert!(graph.has_circular_dependencies());
}

#[test]
fn registering_a_name_again_replaces_the_fixture_in_its_place() {
    let mut graph = FixtureDependencyGraph::new();
    graph.add_fixture(FixtureDefinition::new("a", FixtureScope::Test).depends_on("zzz"));
    graph.add_fixture(FixtureDefinition::new("b", FixtureScope::Test));
    graph.add_fixture(FixtureDefinition::new("a", FixtureScope::Suite));
    assert_eq!(graph.all_names(), names(&["a", "b"]));
    assert_eq!(graph.get_fixture("a").unwrap().scope, FixtureScope::Suite);
    assert_eq!(graph.resolve_order().unwrap(), names(&["a", "b"]));
}

#[test]
fn dependents_are_listed_in_registration_order() {
    let mut graph = FixtureDependencyGraph::new();
    graph.add_fixture(FixtureDefinition::new("c", FixtureScope::Test).depends_on("a"));
    graph.add_fixture(FixtureDefinition::new("a", FixtureScope::Test));
    graph.add_fixture(FixtureDefinition::new("b", FixtureScope::Test).with_dependencies(names(&["x", "a"])));
    assert_eq!(graph.get_dependents("a"), names(&["c", "b"]));
    assert!(graph.get_dependents("c").is_empty());
}

#[test]
fn definition_builders_set_what_they_name() {
    let d = FixtureDefinition::new("db", FixtureScope::Suite);
    assert_eq!(d.name, "db");
    assert_eq!(d.scope, FixtureScope::Suite);
    assert!(d.required);
    assert!(!d.is_async);
    assert!(d.dependencies.is_empty());
    assert!(d.setup.is_none() && d.teardown.is_none());
    let d = d.depends_on("a").depends_on("b").required(false).with_async(true);
    assert_eq!(d.dependencies, names(&["a", "b"]));
    assert!(!d.required);
    assert!(d.is_async);
    let d = d.with_dependencies(names(&["z"]));
    assert_eq!(d.dependencies, names(&["z"]));
}

#[test]
fn scopes_have_names_and_tables() {
    assert_eq!(FixtureScope::from_name("session"), Some(FixtureScope::Session));
    assert_eq!(FixtureScope::from_name("suite"), Some(FixtureScope::Suite));
    assert_eq!(FixtureScope::from_name("test"), Some(FixtureScope::Test));
    assert_eq!(FixtureScope::from_name("invocation"), Some(FixtureScope::Invocation));
    assert_eq!(FixtureScope::from_name("Suite"), None);
    assert_eq!(FixtureScope::default(), FixtureScope::Test);
    assert_eq!(FixtureScope::Invocation.storage(), FixtureScope::Test);
    assert_eq!(FixtureScope::Session.storage(), FixtureScope::Session);
}

#[test]
fn a_value_read_as_another_kind_is_not_found() {
    let v = FixtureValue::Unsigned(7);
    assert_eq!(v.as_unsigned(), Some(7));
    assert_eq!(v.as_integer(), None);
    assert_eq!(v.as_flag(), None);
    assert_eq!(v.as_text(), None);
    assert!(v.as_bytes().is_none());
    assert_eq!(FixtureValue::Text("x".to_string()).as_text(), Some("x"));
    assert_eq!(FixtureValue::Flag(true).as_flag(), Some(true));
    assert_eq!(FixtureValue::Integer(-3).as_integer(), Some(-3));
    assert_eq!(FixtureValue::Bytes(vec![1, 2]).as_bytes(), Some(&vec![1, 2]));
    assert_eq!(FixtureValue::Unit.as_unsigned(), None);
}

#[test]
fn teardown_plan_is_the_reverse_of_the_setup_plan() {
    let log = Log(Arc::new(Mutex::new(Vec::new())));
    let mut registry = FixtureRegistry::new();
    registry.register_fixture(logged("c", FixtureScope::Suite, &["b"], &log));
    registry.register_fixture(logged("t", FixtureScope::Test, &["c"], &log));
    registry.register_fixture(logged("b", FixtureScope::Suite, &["a"], &log));
    registry.register_fixture(logged("a", FixtureScope::Suite, &[], &log));
    let setup = registry.setup_plan(FixtureScope::Suite).unwrap();
    let teardown = registry.teardown_plan(FixtureScope::Suite).unwrap();
    assert_eq!(setup, names(&["a", "b", "c"]));
    assert_eq!(teardown, names(&["c", "b", "a"]));
    assert_eq!(registry.setup_plan(FixtureScope::Test).unwrap(), names(&["t"]));
    assert!(registry.setup_plan(FixtureScope::Session).unwrap().is_empty());
    assert_eq!(reversed(&names(&["x", "y", "z"])), names(&["z", "y", "x"]));
}

#[test]
fn registry_sets_up_and_tears_down_in_opposite_orders() {
    let log = Log(Arc::new(Mutex::new(Vec::new())));
    let mut registry = FixtureRegistry::new();
    registry.register_fixture(logged("b", FixtureScope::Suite, &["a"], &log));
    registry.register_fixture(logged("a", FixtureScope::Suite, &[], &log));
    registry.register_fixture(logged("t", FixtureScope::Test, &["b"], &log));
    let ctx = context();
    registry.setup_suite_fixtures(&ctx).unwrap();
    assert_eq!(registry.get_fixture_instance("a").and_then(|v| v.as_text()), Some("a"));
    assert!(registry.get_fixture_instance("t").is_none());
    registry.setup_test_fixtures(&ctx).unwrap();
    assert_eq!(registry.get_fixture_instance("t").and_then(|v| v.as_text()), Some("t"));
    registry.teardown_test_fixtures(&ctx).unwrap();
    assert!(registry.get_fixture_instance("t").is_none());
    registry.teardown_suite_fixtures(&ctx).unwrap();
    assert!(registry.get_fixture_instance("a").is_none());
    assert_eq!(
        *log.0.lock().unwrap(),
        names(&["setup a", "setup b", "setup t", "teardown t", "teardown b", "teardown a"])
    );
}

#[test]
fn registry_with_a_cycle_fails_before_any_callback_runs() {
    let log = Log(Arc::new(Mutex::new(Vec::new())));
    let mut registry = FixtureRegistry::new();
    registry.register_fixture(logged("a", FixtureScope::Suite, &["b"], &log));
    registry.register_fixture(logged("b", FixtureScope::Suite, &["a"], &log));
    let e = registry.setup_suite_fixtures(&context()).unwrap_err();
    assert_eq!(e.kind(), ErrorKind::Fixture);
    assert!(registry.teardown_plan(FixtureScope::Suite).is_err());
    assert!(log.0.lock().unwrap().is_empty());
}

#[test]
fn manager_sets_up_dependencies_first_and_tears_down_in_reverse() {
    let log = Log(Arc::new(Mutex::new(Vec::new())));
    let mut manager = FixtureManager::new();
    manager.register(logged("c", FixtureScope::Test, &["b"], &log)).unwrap();
    manager.register(logged("b", FixtureScope::Test, &["a"], &log)).unwrap();
    manager.register(logged("a", FixtureScope::Invocation, &[], &log)).unwrap();
    manager.register(logged("s", FixtureScope::Suite, &[], &log)).unwrap();
    assert!(manager.has_fixture("a"));
    assert!(!manager.has_fixture("z"));
    assert_eq!(manager.all_names(), names(&["c", "b", "a", "s"]));

    manager.setup_fixture("c", &context()).unwrap();
    manager.setup_fixture("s", &context()).unwrap();
    assert!(manager.get_fixture("c", FixtureScope::Test).is_some());
    assert!(manager.get_fixture("a", FixtureScope::Invocation).is_some());
    assert!(manager.get_fixture("a", FixtureScope::Suite).is_none());
    assert_eq!(
        manager.get_fixture("b", FixtureScope::Test).unwrap().get().as_text(),
        Some("b")
    );
    assert_eq!(manager.teardown_order(FixtureScope::Test), names(&["c", "b", "a"]));
    assert_eq!(manager.teardown_order(FixtureScope::Suite), names(&["s"]));

    manager.teardown_by_scope(FixtureScope::Test).unwrap();
    assert!(manager.get_fixture("c", FixtureScope::Test).is_none());
    assert!(manager.get_fixture("s", FixtureScope::Suite).is_some());
    assert!(manager.teardown_order(FixtureScope::Test).is_empty());
    assert_eq!(
        *log.0.lock().unwrap(),
        names(&["setup a", "setup b", "setup c", "setup s", "teardown c", "teardown b", "teardown a"])
    );
}

#[test]
fn manager_reports_unknown_and_circular_fixtures() {
    let mut manager = FixtureManager::new();
    let e = manager.setup_fixture("nope", &context()).unwrap_err();
    assert_eq!(e.kind(), ErrorKind::Fixture);
    assert_eq!(e.message(), "Fixture 'nope' not found");
    manager.register(FixtureDefinition::new("a", FixtureScope::Test).depends_on("b")).unwrap();
    manager.register(FixtureDefinition::new("b", FixtureScope::Test).depends_on("a")).unwrap();
    let e = manager.setup_fixture("a", &context()).unwrap_err();
    assert_eq!(e.message(), "Circular dependency detected involving fixture 'a'");
    manager.register(FixtureDefinition::new("c", FixtureScope::Test).depends_on("zz")).unwrap();
    let e = manager.setup_fixture("c", &context()).unwrap_err();
    assert_eq!(e.message(), "Fixture 'zz' not found");
}

#[test]
fn manager_without_a_setup_callback_keeps_the_unit_value() {
    let mut manager = FixtureManager::new();
    manager.register(FixtureDefinition::new("plain", FixtureScope::Session)).unwrap();
    manager.setup_fixture("plain", &context()).unwrap();
    let instance = manager.get_fixture("plain", FixtureScope::Session).unwrap();
    assert!(matches!(instance.get(), FixtureValue::Unit));
    assert_eq!(instance.name, "plain");
    assert_eq!(instance.scope, FixtureScope::Session);
    assert!(manager.teardown_by_scope(FixtureScope::Session).is_ok());
    assert!(manager.teardown_by_scope(FixtureScope::Session).is_ok());
}

#[test]
fn a_failing_teardown_does_not_keep_the_others_from_running() {
    let log = Log(Arc::new(Mutex::new(Vec::new())));
    let mut manager = FixtureManager::new();
    for (name, fail) in [("a", false), ("b", true), ("c", true)] {
        manager
            .register(
                FixtureDefinition::new(name, FixtureScope::Suite)
                    .with_setup("make", Box::new(Make { name, log: log.0.clone(), fail: false }))
                    .with_teardown("release", Box::new(Release { name, log: log.0.clone(), fail })),
            )
            .unwrap();
        manager.setup_fixture(name, &context()).unwrap();
    }
    let e = manager.teardown_by_scope(FixtureScope::Suite).unwrap_err();
    assert_eq!(e.kind(), ErrorKind::TestTeardown);
    assert_eq!(e.message(), "c");
    assert_eq!(
        log.0.lock().unwrap()[3..],
        names(&["teardown c", "teardown b", "teardown a"])[..]
    );
    assert!(manager.teardown_order(FixtureScope::Suite).is_empty());
}

#[test]
fn a_failing_setup_is_handed_on() {
    let log = Log(Arc::new(Mutex::new(Vec::new())));
    let mut manager = FixtureManager::new();
    manager
        .register(
            FixtureDefinition::new("a", FixtureScope::Test)
                .with_setup("make", Box::new(Make { name: "a", log: log.0.clone(), fail: true })),
        )
        .unwrap();
    manager.register(FixtureDefinition::new("b", FixtureScope::Test).depends_on("a")).unwrap();
    let e = manager.setup_fixture("b", &context()).unwrap_err();
    assert_eq!(e.message(), "no room");
    assert!(manager.get_fixture("a", FixtureScope::Test).is_none());
    assert!(manager.get_fixture("b", FixtureScope::Test).is_none());
}

#[test]
fn the_value_of_a_test_fixture_is_found_before_that_of_the_suite() {
    let log = Log(Arc::new(Mutex::new(Vec::new())));
    let mut registry = FixtureRegistry::new();
    registry.register_fixture(logged("s", FixtureScope::Suite, &[], &log));
    registry.register_fixture(logged("t", FixtureScope::Test, &[], &log));
    registry.setup_suite_fixtures(&context()).unwrap();
    registry.setup_test_fixtures(&context()).unwrap();
    assert_eq!(registry.get_fixture_instance("s").and_then(|v| v.as_text()), Some("s"));
    assert_eq!(registry.get_fixture_instance("t").and_then(|v| v.as_text()), Some("t"));
    assert!(registry.get_fixture_instance("u").is_none());
    registry.teardown_test_fixtures(&context()).unwrap();
    assert!(registry.get_fixture_instance("t").is_none());
    assert_eq!(registry.get_fixture_instance("s").and_then(|v| v.as_text()), Some("s"));
}

#[test]
fn a_failing_setup_of_the_registry_keeps_what_was_set_up_before_it() {
    let log = Log(Arc::new(Mutex::new(Vec::new())));
    let mut registry = FixtureRegistry::new();
    registry.register_fixture(logged("a", FixtureScope::Suite, &[], &log));
    registry.register_fixture(
        FixtureDefinition::new("b", FixtureScope::Suite)
            .depends_on("a")
            .with_setup("make", Box::new(Make { name: "b", log: log.0.clone(), fail: true })),
    );
    registry.register_fixture(logged("c", FixtureScope::Suite, &["b"], &log));
    let e = registry.setup_suite_fixtures(&context()).unwrap_err();
    assert_eq!(e.message(), "no room");
    assert_eq!(registry.get_fixture_instance("a").and_then(|v| v.as_text()), Some("a"));
    assert!(registry.get_fixture_instance("b").is_none());
    assert!(registry.get_fixture_instance("c").is_none());
    assert_eq!(*log.0.lock().unwrap(), names(&["setup a", "setup b"]));
}

#[test]
fn a_failing_teardown_of_the_registry_stops_the_teardown() {
    let log = Log(Arc::new(Mutex::new(Vec::new())));
    let mut registry = FixtureRegistry::new();
    registry.register_fixture(logged("a", FixtureScope::Test, &[], &log));
    registry.register_fixture(
        FixtureDefinition::new("b", FixtureScope::Test)
            .depends_on("a")
            .with_setup("make", Box::new(Make { name: "b", log: log.0.clone(), fail: false }))
            .with_teardown("release", Box::new(Release { name: "b", log: log.0.clone(), fail: true })),
    );
    registry.setup_test_fixtures(&context()).unwrap();
    let e = registry.teardown_test_fixtures(&context()).unwrap_err();
    assert_eq!(e.kind(), ErrorKind::TestTeardown);
    assert_eq!(e.message(), "b");
    assert!(registry.get_fixture_instance("b").is_none());
    assert_eq!(registry.get_fixture_instance("a").and_then(|v| v.as_text()), Some("a"));
    assert_eq!(*log.0.lock().unwrap(), names(&["setup a", "setup b", "teardown b"]));
}

#[test]
fn setting_up_again_puts_the_new_instance_in_the_place_of_the_old() {
    let log = Log(Arc::new(Mutex::new(Vec::new())));
    let mut manager = FixtureManager::new();
    manager.register(logged("a", FixtureScope::Suite, &[], &log)).unwrap();
    manager.register(logged("b", FixtureScope::Suite, &["a"], &log)).unwrap();
    manager.setup_fixture("b", &context()).unwrap();
    manager.setup_fixture("a", &context()).unwrap();
    assert_eq!(manager.teardown_order(FixtureScope::Suite), names(&["b", "a"]));
    assert_eq!(
        manager.get_fixture("a", FixtureScope::Suite).unwrap().get().as_text(),
        Some("a")
    );
    assert_eq!(*log.0.lock().unwrap(), names(&["setup a", "setup b", "setup a"]));
}

#[test]
fn a_fixture_is_set_up_whatever_stands_beside_it() {
    let mut manager = FixtureManager::new();
    manager.register(FixtureDefinition::new("x", FixtureScope::Test).depends_on("x")).unwrap();
    manager.register(FixtureDefinition::new("y", FixtureScope::Test).depends_on("zz")).unwrap();
    manager.register(FixtureDefinition::new("plain", FixtureScope::Test).depends_on("base")).unwrap();
    manager.register(FixtureDefinition::new("base", FixtureScope::Suite)).unwrap();
    assert!(manager.setup_fixture("plain", &context()).is_ok());
    assert!(matches!(
        manager.get_fixture("base", FixtureScope::Suite).unwrap().get(),
        FixtureValue::Unit
    ));
    assert!(manager.get_fixture("plain", FixtureScope::Test).is_some());
    let e = manager.setup_fixture("x", &context()).unwrap_err();
    assert_eq!(e.message(), "Circular dependency detected involving fixture 'x'");
    let e = manager.setup_fixture("y", &context()).unwrap_err();
    assert_eq!(e.message(), "Fixture 'zz' not found");
}
