//! What a fixture is: its scope, its callbacks and its definition.

use vstd::prelude::*;
use vstd::string::StringExecFns;
use crate::error::{Error, failure_of};
use crate::ids::new_id;
use crate::test::TestContext;
use crate::text::{str_eq, texts};

verus! {

/// When a fixture is created and destroyed.
#[derive(Debug, Clone, Copy, PartialEq, Eq, Structural)]
pub enum FixtureScope {
    /// Once per run, shared by all tests.
    Session,
    /// Once per suite, shared by the tests of that suite.
    Suite,
    /// Once per test.
    Test,
    /// Once per invocation of a test. Such a fixture is kept and torn down
    /// with the fixtures of the test.
    Invocation,
}

impl Default for FixtureScope {
    fn default() -> (r: Self)
        ensures
            r == FixtureScope::Test,
    {
        FixtureScope::Test
    }
}

impl FixtureScope {
    /// The scope that the word `name` stands for.
    pub open spec fn named(name: Seq<char>) -> Option<FixtureScope> {
        if name == "session"@ {
            Some(FixtureScope::Session)
        } else if name == "suite"@ {
            Some(FixtureScope::Suite)
        } else if name == "test"@ {
            Some(FixtureScope::Test)
        } else if name == "invocation"@ {
            Some(FixtureScope::Invocation)
        } else {
            None
        }
    }

    /// The scope that the word `name` stands for: `session`, `suite`,
    /// `test` or `invocation`.
    pub fn from_name(name: &str) -> (r: Option<FixtureScope>)
        ensures
            r == Self::named(name@),
    {
        if str_eq(name, "session") {
            Some(FixtureScope::Session)
        } else if str_eq(name, "suite") {
            Some(FixtureScope::Suite)
        } else if str_eq(name, "test") {
            Some(FixtureScope::Test)
        } else if str_eq(name, "invocation") {
            Some(FixtureScope::Invocation)
        } else {
            None
        }
    }

    /// The table in which the instances of this scope are kept: fixtures of
    /// an invocation are kept with those of the test.
    pub open spec fn table(self) -> FixtureScope {
        match self {
            FixtureScope::Invocation => FixtureScope::Test,
            other => other,
        }
    }

    /// The table in which the instances of this scope are kept.
    pub fn storage(&self) -> (r: FixtureScope)
        ensures
            r == self.table(),
    {
        match self {
            FixtureScope::Invocation => FixtureScope::Test,
            FixtureScope::Session => FixtureScope::Session,
            FixtureScope::Suite => FixtureScope::Suite,
            FixtureScope::Test => FixtureScope::Test,
        }
    }
}

/// What a fixture hands to the tests that use it. A reader asks for the
/// kind of value it expects and gets nothing where the fixture holds
/// another kind.
#[derive(Debug)]
pub enum FixtureValue {
    Unit,
    Flag(bool),
    Integer(i64),
    Unsigned(u64),
    Text(String),
    Bytes(Vec<u8>),
}

impl FixtureValue {
    /// The flag this value holds, where it holds one.
    pub fn as_flag(&self) -> (r: Option<bool>)
        ensures
            r == match self {
                FixtureValue::Flag(b) => Some(*b),
                _ => None,
            },
    {
        match self {
            FixtureValue::Flag(b) => Some(*b),
            _ => None,
        }
    }

    /// The signed number this value holds, where it holds one.
    pub fn as_integer(&self) -> (r: Option<i64>)
        ensures
            r == match self {
                FixtureValue::Integer(n) => Some(*n),
                _ => None,
            },
    {
        match self {
            FixtureValue::Integer(n) => Some(*n),
            _ => None,
        }
    }

    /// The unsigned number this value holds, where it holds one.
    pub fn as_unsigned(&self) -> (r: Option<u64>)
        ensures
            r == match self {
                FixtureValue::Unsigned(n) => Some(*n),
                _ => None,
            },
    {
        match self {
            FixtureValue::Unsigned(n) => Some(*n),
            _ => None,
        }
    }

    /// The text this value holds, where it holds one.
    pub fn as_text(&self) -> (r: Option<&str>)
        ensures
            match self {
                FixtureValue::Text(s) => r is Some && r->0@ == s@,
                _ => r is None,
            },
    {
        match self {
            FixtureValue::Text(s) => Some(s.as_str()),
            _ => None,
        }
    }

    /// The bytes this value holds, where it holds some.
    pub fn as_bytes(&self) -> (r: Option<&Vec<u8>>)
        ensures
            match self {
                FixtureValue::Bytes(b) => r == Some(b),
                _ => r is None,
            },
    {
        match self {
            FixtureValue::Bytes(b) => Some(b),
            _ => None,
        }
    }
}

/// The code that creates a fixture's value. Whatever it returns is
/// accepted.
pub trait FixtureSetup {
    /// Whether the callback may give `outcome` when it is run for
    /// `context`: a value, or an error. This is the callback's own word
    /// about itself; a callback that gives none may give anything.
    open spec fn may_give(
        &self,
        context: TestContext,
        outcome: Result<FixtureValue, Error>,
    ) -> bool {
        true
    }

    /// Makes the fixture's value for `context`.
    fn setup(&self, context: &TestContext) -> (r: Result<FixtureValue, Error>)
        ensures
            self.may_give(*context, r),
    ;
}

/// The code that releases a fixture's value. Whatever it returns is
/// accepted.
pub trait FixtureTeardown {
    /// Whether the callback may end so when it is given `value` for
    /// `context`: without a failure, or with the failure `failure`. This is
    /// the callback's own word about itself; a callback that gives none may
    /// end in any way.
    open spec fn may_end(
        &self,
        value: FixtureValue,
        context: TestContext,
        failure: Option<Error>,
    ) -> bool {
        true
    }

    /// Releases `value`, which was made for `context`.
    fn teardown(&self, value: FixtureValue, context: &TestContext) -> (r: Result<(), Error>)
        ensures
            self.may_end(value, *context, failure_of(r)),
    ;
}

/// A callback that makes and releases nothing. It holds the place of a
/// callback until the callback is moved in: of a swap Verus knows that
/// both values are kept.
struct Unfilled;

impl FixtureSetup for Unfilled {
    fn setup(&self, context: &TestContext) -> (r: Result<FixtureValue, Error>) {
        Ok(FixtureValue::Unit)
    }
}

impl FixtureTeardown for Unfilled {
    fn teardown(&self, value: FixtureValue, context: &TestContext) -> (r: Result<(), Error>) {
        Ok(())
    }
}

/// A named setup callback.
pub struct FixtureSetupFn {
    pub name: String,
    pub function: Box<dyn FixtureSetup>,
}

impl FixtureSetupFn {
    /// The callback `function` under the name `name`.
    pub fn new(name: &str, function: Box<dyn FixtureSetup>) -> (r: Self)
        ensures
            r.name@ == name@,
            r.function == function,
    {
        let mut given = function;
        let mut r = FixtureSetupFn::unfilled(name);
        std::mem::swap(&mut r.function, &mut given);
        r
    }

    /// A callback under the name `name` whose place is still to be filled.
    fn unfilled(name: &str) -> (r: Self)
        ensures
            r.name@ == name@,
    {
        FixtureSetupFn { name: String::from_str(name), function: Box::new(Unfilled) }
    }

    /// Whether the callback may give `outcome` when it is run for `context`.
    pub open spec fn may_give(&self, context: TestContext, outcome: Result<FixtureValue, Error>) ->
        bool {
        self.function.may_give(context, outcome)
    }

    /// Calls the callback with `context` and hands on what it returned.
    pub fn exec(&self, context: &TestContext) -> (r: Result<FixtureValue, Error>)
        ensures
            self.may_give(*context, r),
    {
        self.function.setup(context)
    }
}

/// A named teardown callback.
pub struct FixtureTeardownFn {
    pub name: String,
    pub function: Box<dyn FixtureTeardown>,
}

impl FixtureTeardownFn {
    /// The callback `function` under the name `name`.
    pub fn new(name: &str, function: Box<dyn FixtureTeardown>) -> (r: Self)
        ensures
            r.name@ == name@,
            r.function == function,
    {
        let mut given = function;
        let mut r = FixtureTeardownFn::unfilled(name);
        std::mem::swap(&mut r.function, &mut given);
        r
    }

    /// A callback under the name `name` whose place is still to be filled.
    fn unfilled(name: &str) -> (r: Self)
        ensures
            r.name@ == name@,
    {
        FixtureTeardownFn { name: String::from_str(name), function: Box::new(Unfilled) }
    }

    /// Whether the callback may end so when it is given `value` for
    /// `context`.
    pub open spec fn may_end(
        &self,
        value: FixtureValue,
        context: TestContext,
        failure: Option<Error>,
    ) -> bool {
        self.function.may_end(value, context, failure)
    }

    /// Calls the callback with `value` and `context` and hands on what it
    /// returned.
    pub fn exec(&self, value: FixtureValue, context: &TestContext) -> (r: Result<(), Error>)
        ensures
            self.may_end(value, *context, failure_of(r)),
    {
        self.function.teardown(value, context)
    }
}

/// A fixture as it is registered: its name, its scope, the fixtures it
/// depends on and its callbacks.
pub struct FixtureDefinition {
    pub id: uuid::Uuid,
    pub name: String,
    pub scope: FixtureScope,
    pub required: bool,
    pub is_async: bool,
    /// The names of the fixtures that must be set up before this one.
    pub dependencies: Vec<String>,
    pub setup: Option<FixtureSetupFn>,
    pub teardown: Option<FixtureTeardownFn>,
}

/// The mathematical content of a [`FixtureDefinition`], but for its
/// callbacks.
pub ghost struct FixtureDefinitionView {
    pub id: uuid::Uuid,
    pub name: Seq<char>,
    pub scope: FixtureScope,
    pub required: bool,
    pub is_async: bool,
    pub dependencies: Seq<Seq<char>>,
    pub has_setup: bool,
    pub has_teardown: bool,
}

impl View for FixtureDefinition {
    type V = FixtureDefinitionView;

    open spec fn view(&self) -> FixtureDefinitionView {
        FixtureDefinitionView {
            id: self.id,
            name: self.name@,
            scope: self.scope,
            required: self.required,
            is_async: self.is_async,
            dependencies: texts(self.dependencies@),
            has_setup: self.setup is Some,
            has_teardown: self.teardown is Some,
        }
    }
}

impl FixtureDefinition {
    /// A required fixture without dependencies and callbacks.
    pub fn new(name: &str, scope: FixtureScope) -> (r: Self)
        ensures
            r@ == (FixtureDefinitionView {
                id: r.id,
                name: name@,
                scope,
                required: true,
                is_async: false,
                dependencies: Seq::empty(),
                has_setup: false,
                has_teardown: false,
            }),
    {
        let r = FixtureDefinition {
            id: new_id(),
            name: String::from_str(name),
            scope,
            setup: None,
            teardown: None,
            dependencies: Vec::new(),
            required: true,
            is_async: false,
        };
        assert(texts(r.dependencies@) =~= Seq::empty());
        r
    }

    /// This fixture with `setup` as its setup callback.
    pub fn with_setup(self, name: &str, setup: Box<dyn FixtureSetup>) -> (r: Self)
        ensures
            r@ == (FixtureDefinitionView { has_setup: true, ..self@ }),
            r == (FixtureDefinition { setup: r.setup, ..self }),
            r.setup is Some,
            r.setup->0.name@ == name@,
            r.setup->0.function == setup,
    {
        let mut r = self;
        let mut given = setup;
        let mut callback = FixtureSetupFn::unfilled(name);
        std::mem::swap(&mut callback.function, &mut given);
        r.setup = Some(callback);
        r
    }

    /// This fixture with `teardown` as its teardown callback.
    pub fn with_teardown(self, name: &str, teardown: Box<dyn FixtureTeardown>) -> (r: Self)
        ensures
            r@ == (FixtureDefinitionView { has_teardown: true, ..self@ }),
            r == (FixtureDefinition { teardown: r.teardown, ..self }),
            r.teardown is Some,
            r.teardown->0.name@ == name@,
            r.teardown->0.function == teardown,
    {
        let mut r = self;
        let mut given = teardown;
        let mut callback = FixtureTeardownFn::unfilled(name);
        std::mem::swap(&mut callback.function, &mut given);
        r.teardown = Some(callback);
        r
    }

    /// This fixture with `deps` as the fixtures it depends on.
    pub fn with_dependencies(self, deps: Vec<String>) -> (r: Self)
        ensures
            r@ == (FixtureDefinitionView { dependencies: texts(deps@), ..self@ }),
            r == (FixtureDefinition { dependencies: deps, ..self }),
    {
        let mut r = self;
        r.dependencies = deps;
        r
    }

    /// This fixture with one more fixture that it depends on.
    pub fn depends_on(self, fixture_name: &str) -> (r: Self)
        ensures
            r@ == (FixtureDefinitionView {
                dependencies: self@.dependencies.push(fixture_name@),
                ..self@
            }),
            r == (FixtureDefinition { dependencies: r.dependencies, ..self }),
            r.dependencies@.drop_last() == self.dependencies@,
    {
        let mut r = self;
        r.dependencies.push(String::from_str(fixture_name));
        assert(texts(r.dependencies@) =~= texts(self.dependencies@).push(fixture_name@));
        assert(r.dependencies@.drop_last() =~= self.dependencies@);
        r
    }

    /// This fixture, required or not.
    pub fn required(self, required: bool) -> (r: Self)
        ensures
            r@ == (FixtureDefinitionView { required, ..self@ }),
            r == (FixtureDefinition { required, ..self }),
    {
        let mut r = self;
        r.required = required;
        r
    }

    /// This fixture, marked as asynchronous or not.
    pub fn with_async(self, is_async: bool) -> (r: Self)
        ensures
            r@ == (FixtureDefinitionView { is_async, ..self@ }),
            r == (FixtureDefinition { is_async, ..self }),
    {
        let mut r = self;
        r.is_async = is_async;
        r
    }
}

} // verus!
