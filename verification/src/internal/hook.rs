//! Lifecycle hooks: named callbacks that run before and after the tests of
//! a suite.

use vstd::prelude::*;
use vstd::string::StringExecFns;
use crate::error::{Error, ErrorKind, ErrorView, failure_of};
use crate::test::TestContext;

verus! {

/// The stage of the lifecycle at which a hook runs.
#[derive(Debug, Clone, Copy, PartialEq, Eq, Structural)]
pub enum HookType {
    /// Before all tests of a suite.
    BeforeAll,
    /// After all tests of a suite.
    AfterAll,
    /// Before each test.
    BeforeEach,
    /// After each test.
    AfterEach,
    /// Before fixtures are set up.
    BeforeSetup,
    /// After fixtures are torn down.
    AfterTeardown,
}

impl HookType {
    /// The word for this stage.
    pub open spec fn label(&self) -> Seq<char> {
        match self {
            HookType::BeforeAll => "before_all"@,
            HookType::AfterAll => "after_all"@,
            HookType::BeforeEach => "before_each"@,
            HookType::AfterEach => "after_each"@,
            HookType::BeforeSetup => "before_setup"@,
            HookType::AfterTeardown => "after_teardown"@,
        }
    }

    /// The word for this stage.
    pub fn to_string(&self) -> (s: String)
        ensures
            s@ == self.label(),
    {
        match self {
            HookType::BeforeAll => String::from_str("before_all"),
            HookType::AfterAll => String::from_str("after_all"),
            HookType::BeforeEach => String::from_str("before_each"),
            HookType::AfterEach => String::from_str("after_each"),
            HookType::BeforeSetup => String::from_str("before_setup"),
            HookType::AfterTeardown => String::from_str("after_teardown"),
        }
    }
}

/// The code of a hook. Whatever it returns is accepted: `Err` makes the
/// hook fail.
pub trait HookAction {
    /// Whether the hook may end so when it is run for `context`: without a
    /// failure, or with the failure `failure`. This is the hook's own word
    /// about itself; a hook that gives none may end in any way.
    open spec fn may_end(&self, context: TestContext, failure: Option<Error>) -> bool {
        true
    }

    /// Runs the hook for `context`.
    fn run(&self, context: &TestContext) -> (r: Result<(), Error>)
        ensures
            self.may_end(*context, failure_of(r)),
    ;
}

/// A hook that does nothing. It holds the place of a callback until the
/// callback is moved in: of a swap Verus knows that both values are kept.
struct Unfilled;

impl HookAction for Unfilled {
    fn run(&self, context: &TestContext) -> (r: Result<(), Error>) {
        Ok(())
    }
}

/// A callback with the name it is known by in error messages.
pub struct HookFn {
    pub name: String,
    pub function: Box<dyn HookAction>,
}

impl HookFn {
    /// The callback `function` under the name `name`.
    pub fn new(name: &str, function: Box<dyn HookAction>) -> (r: Self)
        ensures
            r.name@ == name@,
            r.function == function,
    {
        let mut given = function;
        let mut r = HookFn::unfilled(name);
        std::mem::swap(&mut r.function, &mut given);
        r
    }

    /// A callback under the name `name` whose place is still to be filled.
    pub(crate) fn unfilled(name: &str) -> (r: Self)
        ensures
            r.name@ == name@,
    {
        HookFn { name: String::from_str(name), function: Box::new(Unfilled) }
    }

    /// Whether the callback may end so when it is run for `context`.
    pub open spec fn may_end(&self, context: TestContext, failure: Option<Error>) -> bool {
        self.function.may_end(context, failure)
    }

    /// Calls the callback with `context` and hands on what it returned.
    pub fn execute(&self, context: &TestContext) -> (r: Result<(), Error>)
        ensures
            self.may_end(*context, failure_of(r)),
    {
        self.function.run(context)
    }
}

/// A hook: a callback bound to a stage.
pub struct Hook {
    pub hook_type: HookType,
    pub function: HookFn,
    pub name: String,
    /// Whether the hook has to succeed.
    pub required: bool,
}

impl Hook {
    /// A required hook for the stage `hook_type`.
    pub fn new(hook_type: HookType, name: &str, function: Box<dyn HookAction>) -> (r: Self)
        ensures
            r.hook_type == hook_type,
            r.name@ == name@,
            r.function.name@ == name@,
            r.function.function == function,
            r.required,
    {
        let mut given = function;
        let mut r = Hook {
            hook_type,
            function: HookFn::unfilled(name),
            name: String::from_str(name),
            required: true,
        };
        std::mem::swap(&mut r.function.function, &mut given);
        r
    }

    /// This hook, required or not.
    pub fn required(self, required: bool) -> (r: Self)
        ensures
            r == (Hook { required, ..self }),
            r.required == required,
            r.hook_type == self.hook_type,
            r.name == self.name,
    {
        let mut r = self;
        r.required = required;
        r
    }

    /// Whether the hook's callback may end so when it is run for `context`.
    pub open spec fn may_end(&self, context: TestContext, failure: Option<Error>) -> bool {
        self.function.may_end(context, failure)
    }

    /// Calls the hook's callback with `context` and hands on what it
    /// returned.
    pub fn execute(&self, context: &TestContext) -> (r: Result<(), Error>)
        ensures
            self.may_end(*context, failure_of(r)),
    {
        self.function.execute(context)
    }
}

/// The names of the hooks of `hooks`, in their order.
pub open spec fn hook_names(hooks: Seq<Hook>) -> Seq<Seq<char>> {
    hooks.map_values(|h: Hook| h.name@)
}

/// The message of the error for the hook `name` that failed with `cause`.
pub open spec fn hook_failure_message(name: Seq<char>, cause: ErrorView) -> Seq<char> {
    "Hook '"@ + name + "' failed: "@ + cause.text()
}

/// The error for the hook `name` of the stage `hook_type` that failed with
/// `cause`: a hook error that names the stage, the hook and the cause.
pub fn hook_failure(hook_type: HookType, name: &str, cause: &Error) -> (e: Error)
    ensures
        e@ == (ErrorView {
            kind: ErrorKind::Hook,
            stage: hook_type.label(),
            message: hook_failure_message(name@, cause@),
        }),
{
    let mut message = String::from_str("Hook '");
    message.append(name);
    message.append("' failed: ");
    let words = cause.to_string();
    message.append(words.as_str());
    let stage = hook_type.to_string();
    Error::hook(stage.as_str(), message.as_str())
}

/// Whether `e` is the error of one of the hooks `names` of the stage
/// `hook_type`, for some cause.
pub open spec fn is_hook_failure(e: ErrorView, hook_type: HookType, names: Seq<Seq<char>>) -> bool {
    exists|i: int, cause: ErrorView|
        0 <= i < names.len() && e == (ErrorView {
            kind: ErrorKind::Hook,
            stage: hook_type.label(),
            message: #[trigger] hook_failure_message(names[i], cause),
        })
}

/// Whether each of the first `n` hooks of `hooks` may end without a failure
/// when it is run for `context`.
pub open spec fn hooks_pass(hooks: Seq<Hook>, context: TestContext, n: int) -> bool {
    forall|k: int| 0 <= k < n && k < hooks.len() ==> (#[trigger] hooks[k]).may_end(context, None)
}

/// Whether `e` is the error of a run of `hooks` for the stage `hook_type`
/// that stopped at the hook at index `at`: the hooks before it ended
/// without a failure, the hook itself ended with `cause`, and `e` names the
/// stage, the hook and `cause`.
pub open spec fn stopped_at(
    hooks: Seq<Hook>,
    hook_type: HookType,
    context: TestContext,
    at: int,
    cause: Error,
    e: ErrorView,
) -> bool {
    &&& 0 <= at < hooks.len()
    &&& hooks_pass(hooks, context, at)
    &&& hooks[at].may_end(context, Some(cause))
    &&& e == (ErrorView {
        kind: ErrorKind::Hook,
        stage: hook_type.label(),
        message: hook_failure_message(hooks[at].name@, cause@),
    })
}

/// The hooks of a suite, stage by stage, each list in the order in which
/// the hooks were added.
pub struct Hooks {
    pub before_all: Vec<Hook>,
    pub after_all: Vec<Hook>,
    pub before_each: Vec<Hook>,
    pub after_each: Vec<Hook>,
    pub before_setup: Vec<Hook>,
    pub after_teardown: Vec<Hook>,
}

impl Hooks {
    /// The hooks of the stage `hook_type`.
    pub open spec fn of(&self, hook_type: HookType) -> Seq<Hook> {
        match hook_type {
            HookType::BeforeAll => self.before_all@,
            HookType::AfterAll => self.after_all@,
            HookType::BeforeEach => self.before_each@,
            HookType::AfterEach => self.after_each@,
            HookType::BeforeSetup => self.before_setup@,
            HookType::AfterTeardown => self.after_teardown@,
        }
    }

    /// The number of hooks of all stages.
    pub open spec fn total(&self) -> nat {
        self.before_all@.len() + self.after_all@.len() + self.before_each@.len()
            + self.after_each@.len() + self.before_setup@.len() + self.after_teardown@.len()
    }

    /// Whether every hook stands in the list of its own stage.
    pub open spec fn staged(&self) -> bool {
        forall|t: HookType, k: int|
            0 <= k < self.of(t).len() ==> (#[trigger] self.of(t)[k]).hook_type == t
    }

    /// Whether the hooks are such as [`Self::new`] and the four builders
    /// make them: every hook stands in the list of its own stage, and the
    /// two stages that have no builder have no hook.
    pub open spec fn built(&self) -> bool {
        self.staged() && self.before_setup@.len() == 0 && self.after_teardown@.len() == 0
    }

    /// No hooks.
    pub fn new() -> (r: Self)
        ensures
            r.total() == 0,
            r.built(),
    {
        Hooks {
            before_all: Vec::new(),
            after_all: Vec::new(),
            before_each: Vec::new(),
            after_each: Vec::new(),
            before_setup: Vec::new(),
            after_teardown: Vec::new(),
        }
    }

    /// These hooks with one more that runs before all tests.
    pub fn before_all(self, name: &str, function: Box<dyn HookAction>) -> (r: Self)
        ensures
            hook_names(r.before_all@) == hook_names(self.before_all@).push(name@),
            r.before_all@.len() == self.before_all@.len() + 1,
            r.before_all@.drop_last() == self.before_all@,
            r.before_all@.last().hook_type == HookType::BeforeAll,
            r.before_all@.last().name@ == name@,
            r.before_all@.last().function.name@ == name@,
            r.before_all@.last().function.function == function,
            r.before_all@.last().required,
            self.staged() ==> r.staged(),
            self.built() ==> r.built(),
            r.after_all == self.after_all,
            r.before_each == self.before_each,
            r.after_each == self.after_each,
            r.before_setup == self.before_setup,
            r.after_teardown == self.after_teardown,
    {
        let mut r = self;
        let mut given = function;
        let mut hook = Hook {
            hook_type: HookType::BeforeAll,
            function: HookFn::unfilled(name),
            name: String::from_str(name),
            required: true,
        };
        std::mem::swap(&mut hook.function.function, &mut given);
        r.before_all.push(hook);
        assert(hook_names(r.before_all@) =~= hook_names(self.before_all@).push(name@));
        assert(r.before_all@.drop_last() =~= self.before_all@);
        assert(self.staged() ==> r.staged()) by {
            if self.staged() {
                assert forall|t: HookType, k: int| 0 <= k < r.of(t).len() implies (#[trigger] r.of(
                    t,
                )[k]).hook_type == t by {
                    if t == HookType::BeforeAll {
                        if k < self.before_all@.len() {
                            assert(r.before_all@[k] == self.before_all@[k]);
                            assert(self.of(t)[k].hook_type == t);
                        }
                    } else {
                        assert(r.of(t) == self.of(t));
                        assert(self.of(t)[k].hook_type == t);
                    }
                }
            }
        }
        r
    }

    /// These hooks with one more that runs after all tests.
    pub fn after_all(self, name: &str, function: Box<dyn HookAction>) -> (r: Self)
        ensures
            hook_names(r.after_all@) == hook_names(self.after_all@).push(name@),
            r.after_all@.len() == self.after_all@.len() + 1,
            r.after_all@.drop_last() == self.after_all@,
            r.after_all@.last().hook_type == HookType::AfterAll,
            r.after_all@.last().name@ == name@,
            r.after_all@.last().function.name@ == name@,
            r.after_all@.last().function.function == function,
            r.after_all@.last().required,
            self.staged() ==> r.staged(),
            self.built() ==> r.built(),
            r.before_all == self.before_all,
            r.before_each == self.before_each,
            r.after_each == self.after_each,
            r.before_setup == self.before_setup,
            r.after_teardown == self.after_teardown,
    {
        let mut r = self;
        let mut given = function;
        let mut hook = Hook {
            hook_type: HookType::AfterAll,
            function: HookFn::unfilled(name),
            name: String::from_str(name),
            required: true,
        };
        std::mem::swap(&mut hook.function.function, &mut given);
        r.after_all.push(hook);
        assert(hook_names(r.after_all@) =~= hook_names(self.after_all@).push(name@));
        assert(r.after_all@.drop_last() =~= self.after_all@);
        assert(self.staged() ==> r.staged()) by {
            if self.staged() {
                assert forall|t: HookType, k: int| 0 <= k < r.of(t).len() implies (#[trigger] r.of(
                    t,
                )[k]).hook_type == t by {
                    if t == HookType::AfterAll {
                        if k < self.after_all@.len() {
                            assert(r.after_all@[k] == self.after_all@[k]);
                            assert(self.of(t)[k].hook_type == t);
                        }
                    } else {
                        assert(r.of(t) == self.of(t));
                        assert(self.of(t)[k].hook_type == t);
                    }
                }
            }
        }
        r
    }

    /// These hooks with one more that runs before each test.
    pub fn before_each(self, name: &str, function: Box<dyn HookAction>) -> (r: Self)
        ensures
            hook_names(r.before_each@) == hook_names(self.before_each@).push(name@),
            r.before_each@.len() == self.before_each@.len() + 1,
            r.before_each@.drop_last() == self.before_each@,
            r.before_each@.last().hook_type == HookType::BeforeEach,
            r.before_each@.last().name@ == name@,
            r.before_each@.last().function.name@ == name@,
            r.before_each@.last().function.function == function,
            r.before_each@.last().required,
            self.staged() ==> r.staged(),
            self.built() ==> r.built(),
            r.before_all == self.before_all,
            r.after_all == self.after_all,
            r.after_each == self.after_each,
            r.before_setup == self.before_setup,
            r.after_teardown == self.after_teardown,
    {
        let mut r = self;
        let mut given = function;
        let mut hook = Hook {
            hook_type: HookType::BeforeEach,
            function: HookFn::unfilled(name),
            name: String::from_str(name),
            required: true,
        };
        std::mem::swap(&mut hook.function.function, &mut given);
        r.before_each.push(hook);
        assert(hook_names(r.before_each@) =~= hook_names(self.before_each@).push(name@));
        assert(r.before_each@.drop_last() =~= self.before_each@);
        assert(self.staged() ==> r.staged()) by {
            if self.staged() {
                assert forall|t: HookType, k: int| 0 <= k < r.of(t).len() implies (#[trigger] r.of(
                    t,
                )[k]).hook_type == t by {
                    if t == HookType::BeforeEach {
                        if k < self.before_each@.len() {
                            assert(r.before_each@[k] == self.before_each@[k]);
                            assert(self.of(t)[k].hook_type == t);
                        }
                    } else {
                        assert(r.of(t) == self.of(t));
                        assert(self.of(t)[k].hook_type == t);
                    }
                }
            }
        }
        r
    }

    /// These hooks with one more that runs after each test.
    pub fn after_each(self, name: &str, function: Box<dyn HookAction>) -> (r: Self)
        ensures
            hook_names(r.after_each@) == hook_names(self.after_each@).push(name@),
            r.after_each@.len() == self.after_each@.len() + 1,
            r.after_each@.drop_last() == self.after_each@,
            r.after_each@.last().hook_type == HookType::AfterEach,
            r.after_each@.last().name@ == name@,
            r.after_each@.last().function.name@ == name@,
            r.after_each@.last().function.function == function,
            r.after_each@.last().required,
            self.staged() ==> r.staged(),
            self.built() ==> r.built(),
            r.before_all == self.before_all,
            r.after_all == self.after_all,
            r.before_each == self.before_each,
            r.before_setup == self.before_setup,
            r.after_teardown == self.after_teardown,
    {
        let mut r = self;
        let mut given = function;
        let mut hook = Hook {
            hook_type: HookType::AfterEach,
            function: HookFn::unfilled(name),
            name: String::from_str(name),
            required: true,
        };
        std::mem::swap(&mut hook.function.function, &mut given);
        r.after_each.push(hook);
        assert(hook_names(r.after_each@) =~= hook_names(self.after_each@).push(name@));
        assert(r.after_each@.drop_last() =~= self.after_each@);
        assert(self.staged() ==> r.staged()) by {
            if self.staged() {
                assert forall|t: HookType, k: int| 0 <= k < r.of(t).len() implies (#[trigger] r.of(
                    t,
                )[k]).hook_type == t by {
                    if t == HookType::AfterEach {
                        if k < self.after_each@.len() {
                            assert(r.after_each@[k] == self.after_each@[k]);
                            assert(self.of(t)[k].hook_type == t);
                        }
                    } else {
                        assert(r.of(t) == self.of(t));
                        assert(self.of(t)[k].hook_type == t);
                    }
                }
            }
        }
        r
    }

    /// The hooks of the stage `hook_type`, in the order in which they were
    /// added. Where every hook stands in the list of its own stage, as the
    /// builders put it, each of them has the stage `hook_type`.
    pub fn get_hooks(&self, hook_type: HookType) -> (r: &Vec<Hook>)
        ensures
            r@ == self.of(hook_type),
            self.staged() ==> forall|k: int|
                0 <= k < r@.len() ==> (#[trigger] r@[k]).hook_type == hook_type,
            self.built() && (hook_type == HookType::BeforeSetup || hook_type
                == HookType::AfterTeardown) ==> r@.len() == 0,
    {
        proof {
            if self.staged() {
                assert forall|k: int| 0 <= k < self.of(hook_type).len() implies (
                #[trigger] self.of(hook_type)[k]).hook_type == hook_type by {}
            }
        }
        match hook_type {
            HookType::BeforeAll => &self.before_all,
            HookType::AfterAll => &self.after_all,
            HookType::BeforeEach => &self.before_each,
            HookType::AfterEach => &self.after_each,
            HookType::BeforeSetup => &self.before_setup,
            HookType::AfterTeardown => &self.after_teardown,
        }
    }

    /// Whether the stage `hook_type` has any hook.
    pub fn has_hooks(&self, hook_type: HookType) -> (r: bool)
        ensures
            r == (self.of(hook_type).len() > 0),
    {
        self.get_hooks(hook_type).len() > 0
    }

    /// The number of hooks of all stages.
    pub fn total_hooks(&self) -> (r: usize)
        requires
            self.total() <= usize::MAX,
        ensures
            r == self.total(),
    {
        self.before_all.len() + self.after_all.len() + self.before_each.len()
            + self.after_each.len() + self.before_setup.len() + self.after_teardown.len()
    }

    /// Runs the hooks of the stage `hook_type` in their order, and stops at
    /// the first that fails: the hooks after it do not run, and the error
    /// names the stage, the hook and what the hook returned. A stage
    /// without hooks succeeds.
    pub fn execute(&self, hook_type: HookType, context: &TestContext) -> (r: Result<(), Error>)
        ensures
            self.of(hook_type).len() == 0 ==> r is Ok,
            r is Ok ==> hooks_pass(
                self.of(hook_type),
                *context,
                self.of(hook_type).len() as int,
            ),
            r is Err ==> exists|at: int, cause: Error| #[trigger]
                stopped_at(self.of(hook_type), hook_type, *context, at, cause, r->Err_0@),
            r is Err ==> is_hook_failure(r->Err_0@, hook_type, hook_names(self.of(hook_type))),
    {
        let hooks = self.get_hooks(hook_type);
        let mut i: usize = 0;
        while i < hooks.len()
            invariant
                i <= hooks.len(),
                hooks@ == self.of(hook_type),
                hooks_pass(hooks@, *context, i as int),
            decreases hooks.len() - i,
        {
            match hooks[i].execute(context) {
                Ok(()) => {},
                Err(cause) => {
                    let e = hook_failure(hook_type, hooks[i].name.as_str(), &cause);
                    assert(hook_names(hooks@)[i as int] == hooks@[i as int].name@);
                    assert(e@.message == hook_failure_message(
                        hook_names(hooks@)[i as int],
                        cause@,
                    ));
                    let r: Result<(), Error> = Err(e);
                    assert(stopped_at(
                        self.of(hook_type),
                        hook_type,
                        *context,
                        i as int,
                        cause,
                        r->Err_0@,
                    ));
                    return r;
                },
            }
            i += 1;
        }
        Ok(())
    }
}

} // verus!
