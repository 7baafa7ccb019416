//! The fixture lifecycle manager: it creates the fixtures that tests ask
//! for, their dependencies first, and tears them down scope by scope.

use vstd::prelude::*;
use vstd::string::StringExecFns;
use crate::clock::now_millis;
use crate::error::{Error, ErrorKind, ErrorView};
use crate::error::failure_of;
use crate::fixtures::dependency::{
    FixtureDependencyGraph, GraphView, cycle_message, fixture_error, lemma_distinct_names_bounded,
    lemma_reaches_itself, lemma_reaches_through, lemma_revisit_is_cycle, reaches,
};
use crate::fixtures::scope::{FixtureDefinition, FixtureScope, FixtureValue};
use crate::ordered::{set_contains, set_insert_full, set_items, set_new, set_swap_remove};
use crate::test::TestContext;
use crate::text::{clone_strings, str_eq, texts};

verus! {

/// A fixture that was set up: its value and the context it was made in.
#[derive(Debug)]
pub struct FixtureInstance {
    /// The name of the fixture's definition.
    pub name: String,
    /// The scope of the fixture's definition.
    pub scope: FixtureScope,
    pub value: FixtureValue,
    /// When the instance was made, in milliseconds since the Unix epoch.
    pub created_at: i64,
    pub context: TestContext,
}

impl FixtureInstance {
    /// An instance of `definition` made now.
    pub fn new(definition: &FixtureDefinition, value: FixtureValue, context: TestContext) -> (r:
        Self)
        ensures
            r.name@ == definition.name@,
            r.scope == definition.scope,
            r.value == value,
            r.context == context,
    {
        FixtureInstance {
            name: definition.name.clone(),
            scope: definition.scope,
            value,
            created_at: now_millis(),
            context,
        }
    }

    /// The value of the fixture.
    pub fn get(&self) -> (r: &FixtureValue)
        ensures
            *r == self.value,
    {
        &self.value
    }
}

/// The names of the instances of `table`, in the order of the table.
pub open spec fn instance_names(table: Seq<FixtureInstance>) -> Seq<Seq<char>> {
    table.map_values(|i: FixtureInstance| i.name@)
}

/// The mathematical content of a [`FixtureManager`]: the registered
/// fixtures and, for each table, the names of the fixtures that are set
/// up, in the order in which they were set up.
pub ghost struct ManagerView {
    pub graph: GraphView,
    pub session: Seq<Seq<char>>,
    pub suite: Seq<Seq<char>>,
    pub test: Seq<Seq<char>>,
}

impl ManagerView {
    /// The names of the fixtures that are set up in the table of `scope`,
    /// in the order in which they were set up.
    pub open spec fn setup_order(self, scope: FixtureScope) -> Seq<Seq<char>> {
        match scope.table() {
            FixtureScope::Session => self.session,
            FixtureScope::Suite => self.suite,
            _ => self.test,
        }
    }

    /// Whether the fixture `name` is registered and set up in the table of
    /// its scope.
    pub open spec fn is_set_up(self, name: Seq<char>) -> bool {
        self.graph.defined(name) && self.setup_order(
            self.graph.definitions[self.graph.names.index_of(name)].scope,
        ).contains(name)
    }

    /// The scope of the registered fixture `name`.
    pub open spec fn scope_of(self, name: Seq<char>) -> FixtureScope {
        self.graph.definitions[self.graph.names.index_of(name)].scope
    }

    /// This content with the fixture `name` set up in the table of `scope`:
    /// in its place where it was set up there, else after all others.
    pub open spec fn with_instance(self, scope: FixtureScope, name: Seq<char>) -> ManagerView {
        match scope.table() {
            FixtureScope::Session => ManagerView {
                session: crate::fixtures::dependency::names_with(self.session, name),
                ..self
            },
            FixtureScope::Suite => ManagerView {
                suite: crate::fixtures::dependency::names_with(self.suite, name),
                ..self
            },
            _ => ManagerView {
                test: crate::fixtures::dependency::names_with(self.test, name),
                ..self
            },
        }
    }

    /// What is set up once the fixture `name` is set up while the fixtures
    /// `visiting` are being set up, where no callback fails: nothing where
    /// the name is not registered or is being set up itself; else what is
    /// set up once its dependencies are, and then the fixture itself.
    /// `fuel` bounds how deep the dependencies may go, and is never used up
    /// where it is one more than the number of fixtures that are not being
    /// set up.
    pub open spec fn after_setup(
        self,
        name: Seq<char>,
        visiting: Seq<Seq<char>>,
        fuel: nat,
    ) -> Option<ManagerView>
        decreases fuel, 0int,
    {
        if fuel == 0 || !self.graph.defined(name) || visiting.contains(name) {
            None
        } else {
            match self.after_deps(
                self.graph.deps_of(name),
                self.graph.deps_of(name).len() as int,
                visiting.push(name),
                (fuel - 1) as nat,
            ) {
                None => None,
                Some(then) => Some(then.with_instance(self.scope_of(name), name)),
            }
        }
    }

    /// What is set up once the first `n` of the dependencies `deps` are,
    /// one after the other: a dependency that is set up in the table of
    /// its scope is left as it is, every other one is set up.
    pub open spec fn after_deps(
        self,
        deps: Seq<Seq<char>>,
        n: int,
        visiting: Seq<Seq<char>>,
        fuel: nat,
    ) -> Option<ManagerView>
        decreases fuel, n + 1,
    {
        if n <= 0 || n > deps.len() {
            Some(self)
        } else {
            match self.after_deps(deps, n - 1, visiting, fuel) {
                None => None,
                Some(then) => if then.is_set_up(deps[n - 1]) {
                    Some(then)
                } else {
                    then.after_setup(deps[n - 1], visiting, fuel)
                },
            }
        }
    }

    /// Whether what is set up in `self` is still set up in `later`, table by
    /// table.
    pub open spec fn kept_in(self, later: ManagerView) -> bool {
        &&& forall|n: Seq<char>| self.session.contains(n) ==> later.session.contains(n)
        &&& forall|n: Seq<char>| self.suite.contains(n) ==> later.suite.contains(n)
        &&& forall|n: Seq<char>| self.test.contains(n) ==> later.test.contains(n)
    }
}

/// A fixture that is set up stays set up where everything that is set up
/// stays so.
pub proof fn lemma_stays_set_up(before: ManagerView, after: ManagerView, name: Seq<char>)
    requires
        before.graph == after.graph,
        before.kept_in(after),
        before.is_set_up(name),
    ensures
        after.is_set_up(name),
{
}

/// The message of the error for a name under which no fixture is registered.
pub open spec fn not_found_message(name: Seq<char>) -> Seq<char> {
    "Fixture '"@ + name + "' not found"@
}

/// Whether the instance at `i` is the first in `table` of the fixture
/// `name`.
pub open spec fn first_named(table: Seq<FixtureInstance>, name: Seq<char>, i: int) -> bool {
    &&& 0 <= i < table.len()
    &&& table[i].name@ == name
    &&& forall|k: int| 0 <= k < i ==> (#[trigger] table[k]).name@ != name
}

/// Whether `after` is `before` with `instance` kept in it: in the place of
/// the first instance of the same fixture, or at the end where there is
/// none.
pub open spec fn kept(
    before: Seq<FixtureInstance>,
    instance: FixtureInstance,
    after: Seq<FixtureInstance>,
) -> bool {
    ||| !instance_names(before).contains(instance.name@) && after == before.push(instance)
    ||| exists|i: int| #[trigger]
            first_named(before, instance.name@, i) && after == before.update(i, instance)
}

/// Whether `instance` is what setting up `definition` for `context` may
/// give: it has the fixture's name and scope and a copy of the context, and
/// its value is one that the setup callback may give for `context`, or the
/// unit value where the fixture has no setup callback.
pub open spec fn made_by(
    definition: FixtureDefinition,
    context: TestContext,
    instance: FixtureInstance,
) -> bool {
    &&& instance.name@ == definition.name@
    &&& instance.scope == definition.scope
    &&& instance.context.test_id == context.test_id
    &&& instance.context.metadata@ == context.metadata@
    &&& match definition.setup {
        Some(setup) => setup.may_give(context, Ok(instance.value)),
        None => instance.value == FixtureValue::Unit,
    }
}

/// Whether `table` holds an instance that setting up `definition` for
/// `context` may give.
pub open spec fn holds_made(
    table: Seq<FixtureInstance>,
    definition: FixtureDefinition,
    context: TestContext,
) -> bool {
    exists|i: int| 0 <= i < table.len() && made_by(definition, context, #[trigger] table[i])
}

/// Whether `table` holds `instance`.
pub open spec fn held_in(table: Seq<FixtureInstance>, instance: FixtureInstance) -> bool {
    exists|j: int| 0 <= j < table.len() && #[trigger] table[j] == instance
}

/// Whether every instance of `after` was in `before` already or is what
/// setting up its fixture for `context` may give.
pub open spec fn kept_or_made(
    definitions: FixtureDependencyGraph,
    before: Seq<FixtureInstance>,
    after: Seq<FixtureInstance>,
    context: TestContext,
) -> bool {
    forall|i: int|
        0 <= i < after.len() ==> held_in(before, #[trigger] after[i]) || (definitions@.defined(
            after[i].name@,
        ) && made_by(definitions.fixture(after[i].name@), context, after[i]))
}

/// A table that grew by setups, and then again, grew by setups.
pub proof fn lemma_kept_or_made_twice(
    definitions: FixtureDependencyGraph,
    first: Seq<FixtureInstance>,
    second: Seq<FixtureInstance>,
    third: Seq<FixtureInstance>,
    context: TestContext,
)
    requires
        kept_or_made(definitions, first, second, context),
        kept_or_made(definitions, second, third, context),
    ensures
        kept_or_made(definitions, first, third, context),
{
    assert forall|i: int| 0 <= i < third.len() implies held_in(first, #[trigger] third[i]) || (
    definitions@.defined(third[i].name@) && made_by(
        definitions.fixture(third[i].name@),
        context,
        third[i],
    )) by {
        if held_in(second, third[i]) {
            let j = choose|j: int| 0 <= j < second.len() && #[trigger] second[j] == third[i];
            assert(held_in(first, second[j]) || (definitions@.defined(second[j].name@) && made_by(
                definitions.fixture(second[j].name@),
                context,
                second[j],
            )));
        }
    }
}

/// Every table holds what it holds.
pub proof fn lemma_kept_or_made_same(
    definitions: FixtureDependencyGraph,
    table: Seq<FixtureInstance>,
    context: TestContext,
)
    ensures
        kept_or_made(definitions, table, table, context),
{
    assert forall|i: int| 0 <= i < table.len() implies held_in(table, #[trigger] table[i]) by {
        assert(table[i] == table[i]);
    }
}

/// Whether no registered fixture has a setup callback.
pub open spec fn without_setups(definitions: FixtureDependencyGraph) -> bool {
    forall|n: Seq<char>|
        definitions@.defined(n) ==> (#[trigger] definitions.fixture(n)).setup is None
}

/// Whether `after` is `before` with more instances at its end; where `own`
/// holds, an instance of the fixture `name` may have made way for another.
pub open spec fn grown_from(
    before: Seq<FixtureInstance>,
    after: Seq<FixtureInstance>,
    name: Seq<char>,
    own: bool,
) -> bool {
    &&& before.len() <= after.len()
    &&& forall|i: int|
        0 <= i < before.len() ==> (#[trigger] after[i]) == before[i] || (own && before[i].name@
            == name)
}

/// Whether none of the instances that `after` holds beyond those of
/// `before` is of a fixture of `held`.
pub open spec fn fresh_outside(
    before: Seq<FixtureInstance>,
    after: Seq<FixtureInstance>,
    held: Seq<Seq<char>>,
) -> bool {
    forall|i: int| before.len() <= i < after.len() ==> !held.contains((#[trigger] after[i]).name@)
}

/// Whether the instance that setting up `definition` for `context` may
/// give stands in its place in `after`: where `before` held an instance of
/// the fixture, in the place of the first of them; else at the end.
pub open spec fn placed(
    before: Seq<FixtureInstance>,
    after: Seq<FixtureInstance>,
    definition: FixtureDefinition,
    context: TestContext,
) -> bool {
    if instance_names(before).contains(definition.name@) {
        exists|i: int| #[trigger]
            first_named(before, definition.name@, i) && i < after.len() && made_by(
                definition,
                context,
                after[i],
            )
    } else {
        after.len() > before.len() && made_by(definition, context, after.last())
    }
}

/// A table that grew at its end, and then again, grew at its end.
pub proof fn lemma_grown_twice(
    before: Seq<FixtureInstance>,
    mid: Seq<FixtureInstance>,
    after: Seq<FixtureInstance>,
    name: Seq<char>,
    own: bool,
)
    requires
        grown_from(before, mid, name, false),
        grown_from(mid, after, name, own),
    ensures
        grown_from(before, after, name, own),
{
    assert forall|i: int| 0 <= i < before.len() implies (#[trigger] after[i]) == before[i] || (own
        && before[i].name@ == name) by {
        assert(mid[i] == before[i]);
        assert(after[i] == mid[i] || (own && mid[i].name@ == name));
    }
}

/// New instances of a table that grew twice are those of the two steps.
pub proof fn lemma_fresh_twice(
    before: Seq<FixtureInstance>,
    mid: Seq<FixtureInstance>,
    after: Seq<FixtureInstance>,
    held: Seq<Seq<char>>,
    name: Seq<char>,
)
    requires
        before.len() <= mid.len(),
        fresh_outside(before, mid, held),
        grown_from(mid, after, name, false),
        fresh_outside(mid, after, held),
    ensures
        fresh_outside(before, after, held),
{
    assert forall|i: int| before.len() <= i < after.len() implies !held.contains(
        (#[trigger] after[i]).name@,
    ) by {
        if i < mid.len() {
            assert(after[i] == mid[i]);
            assert(!held.contains(mid[i].name@));
        }
    }
}

/// A table that holds no instance of a fixture grew at its end where it
/// grew but for the instances of that fixture.
pub proof fn lemma_grown_without(
    before: Seq<FixtureInstance>,
    after: Seq<FixtureInstance>,
    name: Seq<char>,
    own: bool,
    other: Seq<char>,
)
    requires
        grown_from(before, after, name, own),
        own ==> !instance_names(before).contains(name),
    ensures
        grown_from(before, after, other, false),
{
    assert forall|i: int| 0 <= i < before.len() implies (#[trigger] after[i]) == before[i] by {
        if own {
            assert(instance_names(before)[i] == before[i].name@);
        }
    }
}

/// What keeping an instance that a setup may give does to a table that
/// grew at its end since `before`.
pub proof fn lemma_kept_grows(
    before: Seq<FixtureInstance>,
    mid: Seq<FixtureInstance>,
    after: Seq<FixtureInstance>,
    instance: FixtureInstance,
    definition: FixtureDefinition,
    context: TestContext,
    held: Seq<Seq<char>>,
    deeper: Seq<Seq<char>>,
)
    requires
        grown_from(before, mid, definition.name@, false),
        fresh_outside(before, mid, deeper),
        deeper == held.push(definition.name@),
        !held.contains(definition.name@),
        kept(mid, instance, after),
        instance.name@ == definition.name@,
        made_by(definition, context, instance),
    ensures
        grown_from(before, after, definition.name@, true),
        fresh_outside(before, after, held),
        placed(before, after, definition, context),
{
    let name = definition.name@;
    assert(deeper.last() == name);
    assert forall|n: Seq<char>| held.contains(n) implies deeper.contains(n) by {
        let k = choose|k: int| 0 <= k < held.len() && held[k] == n;
        assert(deeper[k] == n);
    }
    assert forall|i: int| before.len() <= i < mid.len() implies (#[trigger] mid[i]).name@
        != name by {
        assert(!deeper.contains(mid[i].name@));
    }
    if instance_names(mid).contains(name) {
        let i = choose|i: int| #[trigger]
            first_named(mid, name, i) && after == mid.update(i, instance);
        assert(i < before.len());
        assert forall|k: int| 0 <= k < i implies (#[trigger] before[k]).name@ != name by {
            assert(mid[k] == before[k]);
        }
        assert(mid[i] == before[i]);
        assert(first_named(before, name, i));
        assert(instance_names(before)[i] == name);
        assert(after[i] == instance);
        assert forall|k: int| 0 <= k < before.len() implies (#[trigger] after[k]) == before[k]
            || before[k].name@ == name by {
            assert(mid[k] == before[k]);
        }
        assert forall|k: int| before.len() <= k < after.len() implies !held.contains(
            (#[trigger] after[k]).name@,
        ) by {
            assert(after[k] == mid[k]);
            assert(!deeper.contains(mid[k].name@));
        }
    } else {
        assert(after == mid.push(instance)) by {
            if exists|i: int| #[trigger]
                first_named(mid, name, i) && after == mid.update(i, instance) {
                let i = choose|i: int| #[trigger]
                    first_named(mid, name, i) && after == mid.update(i, instance);
                assert(instance_names(mid)[i] == name);
            }
        }
        assert(!instance_names(before).contains(name)) by {
            if instance_names(before).contains(name) {
                let k = choose|k: int|
                    0 <= k < instance_names(before).len() && instance_names(before)[k] == name;
                assert(mid[k] == before[k]);
                assert(instance_names(mid)[k] == name);
            }
        }
        assert(after.last() == instance);
        assert forall|k: int| 0 <= k < before.len() implies (#[trigger] after[k]) == before[k]
            || before[k].name@ == name by {
            assert(mid[k] == before[k]);
            assert(after[k] == mid[k]);
        }
        assert forall|k: int| before.len() <= k < after.len() implies !held.contains(
            (#[trigger] after[k]).name@,
        ) by {
            if k < mid.len() {
                assert(after[k] == mid[k]);
                assert(!deeper.contains(mid[k].name@));
            }
        }
    }
}

/// Whether nothing stands in the way of setting up the fixture `name`:
/// every fixture that it reaches through its dependencies, itself
/// included, is registered, does not depend on itself and has no setup
/// callback.
pub open spec fn sets_up_freely(definitions: FixtureDependencyGraph, name: Seq<char>) -> bool {
    forall|n: Seq<char>| #[trigger]
        reaches(definitions@, name, n) ==> definitions@.defined(n) && !definitions@.on_cycle(n)
            && definitions.fixture(n).setup is None
}

/// Whether `e` is an error with which setting up the fixture `n` itself
/// may fail for `context`: nothing is registered under the name, the
/// fixture depends on itself, or its setup callback may give the error.
pub open spec fn fails_at(
    definitions: FixtureDependencyGraph,
    n: Seq<char>,
    context: TestContext,
    e: Error,
) -> bool {
    ||| !definitions@.defined(n) && e@ == fixture_error(not_found_message(n))
    ||| definitions@.on_cycle(n) && e@ == fixture_error(cycle_message(n))
    ||| definitions@.defined(n) && definitions.fixture(n).setup is Some && definitions.fixture(
        n,
    ).setup->0.may_give(context, Err(e))
}

/// Whether `e` is an error with which setting up the fixture `name` for
/// `context` may fail: an error with which setting up `name` itself may
/// fail, or a fixture that it reaches through its dependencies.
pub open spec fn is_setup_failure(
    definitions: FixtureDependencyGraph,
    name: Seq<char>,
    context: TestContext,
    e: Error,
) -> bool {
    exists|n: Seq<char>| #[trigger]
        reaches(definitions@, name, n) && fails_at(definitions, n, context, e)
}

/// Whether the teardown of `instance` may end with `failure`: as its
/// fixture's teardown callback may end when it is given the instance's
/// value and context, and without a failure where the fixture has no
/// teardown callback or is no longer registered.
pub open spec fn teardown_ends(
    definitions: FixtureDependencyGraph,
    instance: FixtureInstance,
    failure: Option<Error>,
) -> bool {
    if definitions@.defined(instance.name@) && definitions.fixture(instance.name@).teardown is Some {
        definitions.fixture(instance.name@).teardown->0.may_end(
            instance.value,
            instance.context,
            failure,
        )
    } else {
        failure is None
    }
}

/// Whether every teardown after the one at `k` ended without a failure.
pub open spec fn quiet_after(failures: Seq<Option<Error>>, k: int) -> bool {
    forall|j: int| k < j < failures.len() ==> (#[trigger] failures[j]) is None
}

/// Whether `first` is the failure that came first where the teardowns ran
/// from the last instance to the first and ended with `failures`: the
/// failure of the last instance that has one.
pub open spec fn is_first_failure(failures: Seq<Option<Error>>, first: Option<Error>) -> bool {
    match first {
        None => quiet_after(failures, -1),
        Some(e) => exists|k: int|
            0 <= k < failures.len() && #[trigger] failures[k] == Some(e) && quiet_after(
                failures,
                k,
            ),
    }
}

/// Whether tearing down the instances of `table`, each by the teardown
/// callback of its fixture, may end with `failures`, one for each
/// instance, and hand on `first`.
pub open spec fn torn_down_with(
    definitions: FixtureDependencyGraph,
    table: Seq<FixtureInstance>,
    failures: Seq<Option<Error>>,
    first: Option<Error>,
) -> bool {
    &&& failures.len() == table.len()
    &&& forall|k: int|
        0 <= k < table.len() ==> teardown_ends(definitions, table[k], #[trigger] failures[k])
    &&& is_first_failure(failures, first)
}

/// Whether no instance of `table` has a fixture with a teardown callback.
pub open spec fn without_teardowns(
    definitions: FixtureDependencyGraph,
    table: Seq<FixtureInstance>,
) -> bool {
    forall|k: int|
        0 <= k < table.len() && definitions@.defined((#[trigger] table[k]).name@)
            ==> definitions.fixture(table[k].name@).teardown is None
}

/// Where no instance has a teardown callback, tearing down hands on no
/// failure.
pub proof fn lemma_no_teardown_no_failure(
    definitions: FixtureDependencyGraph,
    table: Seq<FixtureInstance>,
    failures: Seq<Option<Error>>,
    first: Option<Error>,
)
    requires
        torn_down_with(definitions, table, failures, first),
        without_teardowns(definitions, table),
    ensures
        first is None,
{
    if first is Some {
        let k = choose|k: int|
            0 <= k < failures.len() && #[trigger] failures[k] == first && quiet_after(failures, k);
        assert(teardown_ends(definitions, table[k], failures[k]));
    }
}

/// The index in `table` of the first instance of the fixture `name`.
pub fn instance_index(table: &Vec<FixtureInstance>, name: &str) -> (r: Option<usize>)
    ensures
        match r {
            Some(i) => first_named(table@, name@, i as int),
            None => !instance_names(table@).contains(name@),
        },
{
    let mut i: usize = 0;
    while i < table.len()
        invariant
            i <= table.len(),
            forall|k: int| 0 <= k < i ==> instance_names(table@)[k] != name@,
            forall|k: int| 0 <= k < i ==> (#[trigger] table@[k]).name@ != name@,
        decreases table.len() - i,
    {
        if str_eq(table[i].name.as_str(), name) {
            return Some(i);
        }
        i += 1;
    }
    None
}

/// The fixtures that are registered and those that are set up.
pub struct FixtureManager {
    definitions: FixtureDependencyGraph,
    session_fixtures: Vec<FixtureInstance>,
    suite_fixtures: Vec<FixtureInstance>,
    test_fixtures: Vec<FixtureInstance>,
}

impl View for FixtureManager {
    type V = ManagerView;

    closed spec fn view(&self) -> ManagerView {
        ManagerView {
            graph: self.definitions@,
            session: instance_names(self.session_fixtures@),
            suite: instance_names(self.suite_fixtures@),
            test: instance_names(self.test_fixtures@),
        }
    }
}

impl FixtureManager {
    /// The registered fixtures are well formed.
    pub closed spec fn wf(&self) -> bool {
        self.definitions.wf()
    }

    /// The registered fixtures, with their callbacks.
    pub closed spec fn registered(&self) -> FixtureDependencyGraph {
        self.definitions
    }

    /// The instances in the table of `scope`, in the order in which they
    /// were set up.
    pub closed spec fn instances(&self, scope: FixtureScope) -> Seq<FixtureInstance> {
        match scope.table() {
            FixtureScope::Session => self.session_fixtures@,
            FixtureScope::Suite => self.suite_fixtures@,
            _ => self.test_fixtures@,
        }
    }

    /// Whether every instance of this manager was in `before` already, in
    /// the same table, or is what setting up its fixture for `context` may
    /// give.
    pub open spec fn grew_by_setups(&self, before: FixtureManager, context: TestContext) -> bool {
        &&& kept_or_made(
            before.registered(),
            before.instances(FixtureScope::Session),
            self.instances(FixtureScope::Session),
            context,
        )
        &&& kept_or_made(
            before.registered(),
            before.instances(FixtureScope::Suite),
            self.instances(FixtureScope::Suite),
            context,
        )
        &&& kept_or_made(
            before.registered(),
            before.instances(FixtureScope::Test),
            self.instances(FixtureScope::Test),
            context,
        )
    }

    /// Whether the fixture `name` is registered and its instances are kept
    /// in the table of `scope`.
    pub open spec fn keeps_in(&self, name: Seq<char>, scope: FixtureScope) -> bool {
        self@.graph.defined(name) && self.registered().fixture(name).scope.table() == scope
    }

    /// Whether each table of this manager is that of `before` with more
    /// instances at its end, but for the instance of the fixture `name` in
    /// the table of its scope, which may have made way for another.
    pub open spec fn grown_by(&self, before: FixtureManager, name: Seq<char>) -> bool {
        &&& grown_from(
            before.instances(FixtureScope::Session),
            self.instances(FixtureScope::Session),
            name,
            before.keeps_in(name, FixtureScope::Session),
        )
        &&& grown_from(
            before.instances(FixtureScope::Suite),
            self.instances(FixtureScope::Suite),
            name,
            before.keeps_in(name, FixtureScope::Suite),
        )
        &&& grown_from(
            before.instances(FixtureScope::Test),
            self.instances(FixtureScope::Test),
            name,
            before.keeps_in(name, FixtureScope::Test),
        )
    }

    /// Whether none of the instances that this manager holds beyond those
    /// of `before` is of a fixture of `held`.
    pub open spec fn fresh_since(&self, before: FixtureManager, held: Seq<Seq<char>>) -> bool {
        &&& fresh_outside(
            before.instances(FixtureScope::Session),
            self.instances(FixtureScope::Session),
            held,
        )
        &&& fresh_outside(
            before.instances(FixtureScope::Suite),
            self.instances(FixtureScope::Suite),
            held,
        )
        &&& fresh_outside(
            before.instances(FixtureScope::Test),
            self.instances(FixtureScope::Test),
            held,
        )
    }

    /// The content of the manager names the registered fixtures and the
    /// instances of each table.
    pub proof fn lemma_view(&self, scope: FixtureScope)
        ensures
            self.registered()@ == self@.graph,
            self.registered().wf() == self.wf(),
            instance_names(self.instances(scope)) == self@.setup_order(scope),
    {
    }

    /// A manager without fixtures.
    pub fn new() -> (r: Self)
        ensures
            r.wf(),
            r@ == (ManagerView {
                graph: GraphView {
                    names: Seq::empty(),
                    deps: Seq::empty(),
                    definitions: Seq::empty(),
                },
                session: Seq::empty(),
                suite: Seq::empty(),
                test: Seq::empty(),
            }),
    {
        let r = FixtureManager {
            definitions: FixtureDependencyGraph::new(),
            session_fixtures: Vec::new(),
            suite_fixtures: Vec::new(),
            test_fixtures: Vec::new(),
        };
        assert(instance_names(r.session_fixtures@) =~= Seq::empty());
        assert(instance_names(r.suite_fixtures@) =~= Seq::empty());
        assert(instance_names(r.test_fixtures@) =~= Seq::empty());
        r
    }

    /// Registers a fixture, in the place of the one that had its name where
    /// there was one. Registering never fails.
    pub fn register(&mut self, definition: FixtureDefinition) -> (r: Result<(), Error>)
        requires
            old(self).wf(),
        ensures
            r is Ok,
            final(self).wf(),
            final(self)@ == (ManagerView {
                graph: old(self)@.graph.with_fixture(definition@),
                ..old(self)@
            }),
            final(self).registered().fixture(definition.name@) == definition,
            forall|n: Seq<char>|
                old(self)@.graph.defined(n) && n != definition.name@
                    ==> #[trigger] final(self).registered().fixture(n)
                    == old(self).registered().fixture(n),
            forall|scope: FixtureScope| #[trigger]
                final(self).instances(scope) == old(self).instances(scope),
    {
        self.definitions.add_fixture(definition);
        Ok(())
    }

    /// The names of the registered fixtures, in the order of their
    /// registration.
    pub fn all_names(&self) -> (r: Vec<String>)
        requires
            self.wf(),
        ensures
            texts(r@) == self@.graph.names,
    {
        self.definitions.all_names()
    }

    /// Whether a fixture is registered under `name`.
    pub fn has_fixture(&self, name: &str) -> (r: bool)
        requires
            self.wf(),
        ensures
            r == self@.graph.defined(name@),
    {
        self.definitions.get_fixture(name).is_some()
    }

    /// The instance of the fixture `name` in the table of `scope`: the
    /// first that the table holds under the name.
    pub fn get_fixture(&self, name: &str, scope: FixtureScope) -> (r: Option<&FixtureInstance>)
        ensures
            r is Some <==> self@.setup_order(scope).contains(name@),
            r is Some ==> r->0.name@ == name@,
            r is Some ==> exists|i: int| #[trigger]
                    first_named(self.instances(scope), name@, i) && *r->0 == self.instances(
                        scope,
                    )[i],
    {
        proof {
            assert forall|table: Seq<FixtureInstance>, i: int|
                first_named(table, name@, i) implies instance_names(table).contains(name@) by {
                assert(instance_names(table)[i] == name@);
            }
        }
        match scope {
            FixtureScope::Session => match instance_index(&self.session_fixtures, name) {
                Some(i) => {
                    assert(first_named(self.instances(scope), name@, i as int));
                    assert(self.session_fixtures@[i as int] == self.instances(scope)[i as int]);
                    Some(&self.session_fixtures[i])
                },
                None => None,
            },
            FixtureScope::Suite => match instance_index(&self.suite_fixtures, name) {
                Some(i) => {
                    assert(first_named(self.instances(scope), name@, i as int));
                    assert(self.suite_fixtures@[i as int] == self.instances(scope)[i as int]);
                    Some(&self.suite_fixtures[i])
                },
                None => None,
            },
            FixtureScope::Test | FixtureScope::Invocation => match instance_index(
                &self.test_fixtures,
                name,
            ) {
                Some(i) => {
                    assert(first_named(self.instances(scope), name@, i as int));
                    assert(self.test_fixtures@[i as int] == self.instances(scope)[i as int]);
                    Some(&self.test_fixtures[i])
                },
                None => None,
            },
        }
    }

    fn not_found(name: &str) -> (e: Error)
        ensures
            e@ == (ErrorView {
                kind: ErrorKind::Fixture,
                stage: Seq::empty(),
                message: not_found_message(name@),
            }),
    {
        let mut message = String::from_str("Fixture '");
        message.append(name);
        message.append("' not found");
        Error::fixture(message.as_str())
    }

    fn circular(name: &str) -> (e: Error)
        ensures
            e@ == (ErrorView {
                kind: ErrorKind::Fixture,
                stage: Seq::empty(),
                message: crate::fixtures::dependency::cycle_message(name@),
            }),
    {
        let mut message = String::from_str("Circular dependency detected involving fixture '");
        message.append(name);
        message.append("'");
        Error::fixture(message.as_str())
    }

    /// Puts `instance` into `table`: in the place of the instance of the
    /// same fixture, or at the end.
    fn keep(table: &mut Vec<FixtureInstance>, instance: FixtureInstance)
        ensures
            kept(old(table)@, instance, final(table)@),
            instance_names(final(table)@) == crate::fixtures::dependency::names_with(
                instance_names(old(table)@),
                instance.name@,
            ),
            exists|i: int| 0 <= i < final(table)@.len() && #[trigger] final(table)@[i] == instance,
    {
        let ghost before = instance_names(table@);
        match instance_index(table, instance.name.as_str()) {
            Some(i) => {
                assert(before[i as int] == instance.name@);
                table.set(i, instance);
                assert(instance_names(table@) =~= before);
                assert(first_named(old(table)@, instance.name@, i as int));
                assert(table@[i as int] == instance);
            },
            None => {
                table.push(instance);
                assert(instance_names(table@) =~= before.push(instance.name@));
                assert(table@[table@.len() - 1] == instance);
            },
        }
    }

    /// A table in which an instance that a setup may give was kept, or that
    /// did not change, grew by setups.
    proof fn lemma_kept_is_made(
        definitions: FixtureDependencyGraph,
        before: Seq<FixtureInstance>,
        after: Seq<FixtureInstance>,
        instance: FixtureInstance,
        context: TestContext,
        changed: bool,
    )
        requires
            changed ==> kept(before, instance, after),
            !changed ==> after == before,
            definitions@.defined(instance.name@),
            made_by(definitions.fixture(instance.name@), context, instance),
        ensures
            kept_or_made(definitions, before, after, context),
    {
        if changed {
            assert forall|i: int| 0 <= i < after.len() implies held_in(before, #[trigger] after[i])
                || (definitions@.defined(after[i].name@) && made_by(
                definitions.fixture(after[i].name@),
                context,
                after[i],
            )) by {
                if after[i] != instance {
                    assert(i < before.len());
                    assert(before[i] == after[i]);
                }
            }
        } else {
            lemma_kept_or_made_same(definitions, before, context);
        }
    }

    fn setup_within(
        &mut self,
        name: &str,
        context: &TestContext,
        visiting: &mut indexmap::IndexSet<String>,
    ) -> (r: Result<(), Error>)
        requires
            old(self).wf(),
            set_items(*old(visiting)).no_duplicates(),
            forall|k: int|
                0 <= k < set_items(*old(visiting)).len() ==> old(self)@.graph.defined(
                    #[trigger] set_items(*old(visiting))[k],
                ),
            old(self)@.graph.is_path(set_items(*old(visiting))),
            set_items(*old(visiting)).len() > 0 ==> old(self)@.graph.depends(
                set_items(*old(visiting)).last(),
                name@,
            ),
        ensures
            final(self).wf(),
            final(self)@.graph == old(self)@.graph,
            final(self).registered() == old(self).registered(),
            old(self)@.kept_in(final(self)@),
            final(self).grew_by_setups(*old(self), *context),
            final(self).grown_by(*old(self), name@),
            r is Ok ==> placed(
                old(self).instances(old(self).registered().fixture(name@).scope),
                final(self).instances(old(self).registered().fixture(name@).scope),
                old(self).registered().fixture(name@),
                *context,
            ),
            r is Ok ==> holds_made(
                final(self).instances(old(self).registered().fixture(name@).scope),
                old(self).registered().fixture(name@),
                *context,
            ),
            r is Err ==> is_setup_failure(old(self).registered(), name@, *context, r->Err_0),
            old(self)@.graph.defined(name@) && !old(self)@.graph.has_cycle()
                && !old(self)@.graph.has_undefined() && without_setups(old(self).registered())
                ==> r is Ok,
            sets_up_freely(old(self).registered(), name@) ==> r is Ok,
            !old(self)@.graph.defined(name@) ==> r is Err && r->Err_0@ == (ErrorView {
                kind: ErrorKind::Fixture,
                stage: Seq::empty(),
                message: not_found_message(name@),
            }),
            r is Ok ==> set_items(*final(visiting)) == set_items(*old(visiting)),
            r is Ok ==> final(self).fresh_since(*old(self), set_items(*old(visiting))),
            r is Ok ==> old(self)@.after_setup(
                name@,
                set_items(*old(visiting)),
                (old(self)@.graph.names.len() - set_items(*old(visiting)).len() + 1) as nat,
            ) == Some(final(self)@),
            old(self)@.after_setup(
                name@,
                set_items(*old(visiting)),
                (old(self)@.graph.names.len() - set_items(*old(visiting)).len() + 1) as nat,
            ) is None ==> r is Err,
            r is Ok ==> final(self)@.is_set_up(name@) && forall|k: int|
                0 <= k < old(self)@.graph.deps_of(name@).len() ==> final(self)@.is_set_up(
                    #[trigger] old(self)@.graph.deps_of(name@)[k],
                ),
        decreases old(self)@.graph.names.len() - set_items(*old(visiting)).len(),
    {
        let ghost graph = self@.graph;
        let ghost stack = set_items(*visiting);
        let ghost registered = self.definitions;
        let ghost sound = graph.defined(name@) && !graph.has_cycle() && !graph.has_undefined()
            && without_setups(registered);
        let ghost free = sets_up_freely(registered, name@);
        proof {
            lemma_reaches_itself(graph, name@);
        }
        proof {
            lemma_kept_or_made_same(registered, self.session_fixtures@, *context);
            lemma_kept_or_made_same(registered, self.suite_fixtures@, *context);
            lemma_kept_or_made_same(registered, self.test_fixtures@, *context);
        }
        let ghost session0 = self.session_fixtures@;
        let ghost suite0 = self.suite_fixtures@;
        let ghost test0 = self.test_fixtures@;
        let ghost start = self@;
        proof {
            self.definitions.lemma_wf_view();
            lemma_distinct_names_bounded(graph, stack);
        }
        let ghost fuel = (graph.names.len() - stack.len() + 1) as nat;
        let (scope, deps) = match self.definitions.get_fixture(name) {
            Some(definition) => (definition.scope, clone_strings(&definition.dependencies)),
            None => {
                let e = Self::not_found(name);
                proof {
                    lemma_reaches_itself(graph, name@);
                    assert(fails_at(registered, name@, *context, e));
                }
                return Err(e);
            },
        };
        proof {
            self.definitions.lemma_wf_view();
            assert(graph.definitions[graph.names.index_of(name@)].scope == scope);
            assert(texts(deps@) == graph.deps_of(name@));
            assert(registered.fixture(name@).scope == scope);
        }
        if set_contains(visiting, name) {
            let e = Self::circular(name);
            proof {
                lemma_revisit_is_cycle(graph, stack, name@);
                lemma_reaches_itself(graph, name@);
                assert(fails_at(registered, name@, *context, e));
            }
            return Err(e);
        }
        let (_, _) = set_insert_full(visiting, name.to_owned());
        let ghost deeper = stack.push(name@);
        proof {
            self.definitions.lemma_wf_view();
            assert forall|k: int| 0 <= k < deeper.len() implies graph.defined(
                #[trigger] deeper[k],
            ) by {
                if k < stack.len() {
                    assert(graph.defined(stack[k]));
                }
            }
            lemma_distinct_names_bounded(graph, deeper);
            assert forall|k: int| 0 <= k < deeper.len() - 1 implies #[trigger] graph.depends(
                deeper[k],
                deeper[k + 1],
            ) by {
                if k < stack.len() - 1 {
                    assert(graph.depends(stack[k], stack[k + 1]));
                } else {
                    assert(deeper[k] == stack.last());
                }
            }
        }
        let mut j: usize = 0;
        while j < deps.len()
            invariant
                self.wf(),
                graph == self@.graph,
                graph == old(self)@.graph,
                registered == self.definitions,
                registered == old(self).definitions,
                self.grew_by_setups(*old(self), *context),
                session0 == old(self).session_fixtures@,
                suite0 == old(self).suite_fixtures@,
                test0 == old(self).test_fixtures@,
                grown_from(session0, self.session_fixtures@, name@, false),
                grown_from(suite0, self.suite_fixtures@, name@, false),
                grown_from(test0, self.test_fixtures@, name@, false),
                fresh_outside(session0, self.session_fixtures@, deeper),
                fresh_outside(suite0, self.suite_fixtures@, deeper),
                fresh_outside(test0, self.test_fixtures@, deeper),
                !stack.contains(name@),
                start == old(self)@,
                fuel == (graph.names.len() - stack.len() + 1) as nat,
                fuel >= 1,
                start.after_deps(texts(deps@), j as int, deeper, (fuel - 1) as nat) == Some(self@),
                registered@ == graph,
                sound == (graph.defined(name@) && !graph.has_cycle() && !graph.has_undefined()
                    && without_setups(registered)),
                free == sets_up_freely(registered, name@),
                graph.is_path(deeper),
                graph.defined(name@),
                old(self)@.kept_in(self@),
                j <= deps.len(),
                stack == set_items(*old(visiting)),
                deeper == stack.push(name@),
                set_items(*visiting) == deeper,
                deeper.no_duplicates(),
                deeper.len() <= graph.names.len(),
                forall|k: int| 0 <= k < deeper.len() ==> graph.defined(#[trigger] deeper[k]),
                texts(deps@) == graph.deps_of(name@),
                forall|k: int| 0 <= k < j ==> self@.is_set_up(#[trigger] texts(deps@)[k]),
            decreases deps.len() - j,
        {
            let dep = deps[j].as_str();
            let ghost entered = self@;
            let ghost entered_session = self.session_fixtures@;
            let ghost entered_suite = self.suite_fixtures@;
            let ghost entered_test = self.test_fixtures@;
            assert(texts(deps@)[j as int] == dep@);
            proof {
                self.definitions.lemma_wf_view();
                let at = graph.names.index_of(name@);
                assert(graph.names.contains(name@));
                assert(0 <= at < graph.names.len() && graph.names[at] == name@);
                assert(graph.deps_of(name@)[j as int] == dep@);
                assert(graph.deps[at].contains(dep@));
                assert(graph.depends(name@, dep@));
                assert(deeper.last() == name@);
                if free {
                    assert forall|n: Seq<char>| #[trigger]
                        reaches(graph, dep@, n) implies graph.defined(n) && !graph.on_cycle(n)
                        && registered.fixture(n).setup is None by {
                        lemma_reaches_through(graph, name@, dep@, n);
                    }
                    assert(sets_up_freely(registered, dep@));
                }
            }
            let ready = match self.definitions.get_fixture(dep) {
                Some(definition) => self.get_fixture(dep, definition.scope).is_some(),
                None => false,
            };
            assert(ready == entered.is_set_up(dep@));
            if !ready {
                let ghost entered_all = *self;
                proof {
                    if graph.defined(dep@) {
                        let own = registered.fixture(dep@).scope;
                        assert(!instance_names(self.instances(own)).contains(dep@));
                    }
                }
                let outcome = self.setup_within(dep, context, visiting);
                proof {
                    let in_session = entered_all.keeps_in(dep@, FixtureScope::Session);
                    let in_suite = entered_all.keeps_in(dep@, FixtureScope::Suite);
                    let in_test = entered_all.keeps_in(dep@, FixtureScope::Test);
                    lemma_grown_without(
                        entered_session,
                        self.session_fixtures@,
                        dep@,
                        in_session,
                        name@,
                    );
                    lemma_grown_without(entered_suite, self.suite_fixtures@, dep@, in_suite, name@);
                    lemma_grown_without(entered_test, self.test_fixtures@, dep@, in_test, name@);
                    if outcome is Ok {
                        lemma_fresh_twice(
                            session0,
                            entered_session,
                            self.session_fixtures@,
                            deeper,
                            name@,
                        );
                        lemma_fresh_twice(
                            suite0,
                            entered_suite,
                            self.suite_fixtures@,
                            deeper,
                            name@,
                        );
                        lemma_fresh_twice(test0, entered_test, self.test_fixtures@, deeper, name@);
                    }
                    lemma_grown_twice(
                        session0,
                        entered_session,
                        self.session_fixtures@,
                        name@,
                        false,
                    );
                    lemma_grown_twice(suite0, entered_suite, self.suite_fixtures@, name@, false);
                    lemma_grown_twice(test0, entered_test, self.test_fixtures@, name@, false);
                }
                proof {
                    lemma_kept_or_made_twice(
                        registered,
                        old(self).session_fixtures@,
                        entered_session,
                        self.session_fixtures@,
                        *context,
                    );
                    lemma_kept_or_made_twice(
                        registered,
                        old(self).suite_fixtures@,
                        entered_suite,
                        self.suite_fixtures@,
                        *context,
                    );
                    lemma_kept_or_made_twice(
                        registered,
                        old(self).test_fixtures@,
                        entered_test,
                        self.test_fixtures@,
                        *context,
                    );
                }
                match outcome {
                    Ok(()) => {},
                    Err(e) => {
                        proof {
                            let n = choose|n: Seq<char>| #[trigger]
                                reaches(graph, dep@, n) && fails_at(registered, n, *context, e);
                            lemma_reaches_through(graph, name@, dep@, n);
                        }
                        return Err(e);
                    },
                }
            }
            proof {
                assert(start.after_deps(texts(deps@), j + 1, deeper, (fuel - 1) as nat) == Some(
                    self@,
                ));
            }
            proof {
                assert forall|k: int| 0 <= k < j + 1 implies self@.is_set_up(
                    #[trigger] texts(deps@)[k],
                ) by {
                    if k < j {
                        lemma_stays_set_up(entered, self@, texts(deps@)[k]);
                    }
                }
            }
            j += 1;
        }
        let ghost mid = self@;
        let ghost mid_session = self.session_fixtures@;
        let ghost mid_suite = self.suite_fixtures@;
        let ghost mid_test = self.test_fixtures@;
        let instance = match self.definitions.get_fixture(name) {
            Some(definition) => {
                let value = match &definition.setup {
                    Some(setup_fn) => match setup_fn.exec(context) {
                        Ok(value) => value,
                        Err(e) => {
                            proof {
                                lemma_reaches_itself(graph, name@);
                                assert(fails_at(registered, name@, *context, e));
                            }
                            return Err(e);
                        },
                    },
                    None => FixtureValue::Unit,
                };
                let instance = FixtureInstance::new(definition, value, context.clone());
                assert(made_by(registered.fixture(name@), *context, instance));
                instance
            },
            None => {
                return Err(Self::not_found(name));
            },
        };
        match scope {
            FixtureScope::Session => Self::keep(&mut self.session_fixtures, instance),
            FixtureScope::Suite => Self::keep(&mut self.suite_fixtures, instance),
            FixtureScope::Test | FixtureScope::Invocation => Self::keep(
                &mut self.test_fixtures,
                instance,
            ),
        }
        let removed = set_swap_remove(visiting, name);
        proof {
            assert(mid.scope_of(name@) == scope);
            assert(start.scope_of(name@) == scope);
            assert(self@ == mid.with_instance(scope, name@));
            assert(start.after_deps(
                graph.deps_of(name@),
                graph.deps_of(name@).len() as int,
                stack.push(name@),
                (fuel - 1) as nat,
            ) == Some(mid));
            assert(start.after_setup(name@, stack, fuel) == Some(self@));
        }
        proof {
            let definition = registered.fixture(name@);
            self.definitions.lemma_fixture_view(name@);
            assert(definition.name@ == name@);
            if scope.table() == FixtureScope::Session {
                lemma_kept_grows(
                    session0,
                    mid_session,
                    self.session_fixtures@,
                    instance,
                    definition,
                    *context,
                    stack,
                    deeper,
                );
            } else {
                lemma_grown_twice(session0, mid_session, self.session_fixtures@, name@, false);
                assert(fresh_outside(session0, self.session_fixtures@, stack)) by {
                    assert forall|i: int|
                        session0.len() <= i < mid_session.len() implies !stack.contains(
                        (#[trigger] mid_session[i]).name@,
                    ) by {
                        if stack.contains(mid_session[i].name@) {
                            let k = choose|k: int|
                                0 <= k < stack.len() && stack[k] == mid_session[i].name@;
                            assert(deeper[k] == mid_session[i].name@);
                        }
                    }
                }
            }
            if scope.table() == FixtureScope::Suite {
                lemma_kept_grows(
                    suite0,
                    mid_suite,
                    self.suite_fixtures@,
                    instance,
                    definition,
                    *context,
                    stack,
                    deeper,
                );
            } else {
                lemma_grown_twice(suite0, mid_suite, self.suite_fixtures@, name@, false);
                assert(fresh_outside(suite0, self.suite_fixtures@, stack)) by {
                    assert forall|i: int|
                        suite0.len() <= i < mid_suite.len() implies !stack.contains(
                        (#[trigger] mid_suite[i]).name@,
                    ) by {
                        if stack.contains(mid_suite[i].name@) {
                            let k = choose|k: int|
                                0 <= k < stack.len() && stack[k] == mid_suite[i].name@;
                            assert(deeper[k] == mid_suite[i].name@);
                        }
                    }
                }
            }
            if scope.table() == FixtureScope::Test {
                lemma_kept_grows(
                    test0,
                    mid_test,
                    self.test_fixtures@,
                    instance,
                    definition,
                    *context,
                    stack,
                    deeper,
                );
            } else {
                lemma_grown_twice(test0, mid_test, self.test_fixtures@, name@, false);
                assert(fresh_outside(test0, self.test_fixtures@, stack)) by {
                    assert forall|i: int|
                        test0.len() <= i < mid_test.len() implies !stack.contains(
                        (#[trigger] mid_test[i]).name@,
                    ) by {
                        if stack.contains(mid_test[i].name@) {
                            let k = choose|k: int|
                                0 <= k < stack.len() && stack[k] == mid_test[i].name@;
                            assert(deeper[k] == mid_test[i].name@);
                        }
                    }
                }
            }
        }
        proof {
            Self::lemma_kept_is_made(
                registered,
                mid_session,
                self.session_fixtures@,
                instance,
                *context,
                scope == FixtureScope::Session,
            );
            Self::lemma_kept_is_made(
                registered,
                mid_suite,
                self.suite_fixtures@,
                instance,
                *context,
                scope == FixtureScope::Suite,
            );
            Self::lemma_kept_is_made(
                registered,
                mid_test,
                self.test_fixtures@,
                instance,
                *context,
                scope == FixtureScope::Test || scope == FixtureScope::Invocation,
            );
            lemma_kept_or_made_twice(
                registered,
                old(self).session_fixtures@,
                mid_session,
                self.session_fixtures@,
                *context,
            );
            lemma_kept_or_made_twice(
                registered,
                old(self).suite_fixtures@,
                mid_suite,
                self.suite_fixtures@,
                *context,
            );
            lemma_kept_or_made_twice(
                registered,
                old(self).test_fixtures@,
                mid_test,
                self.test_fixtures@,
                *context,
            );
        }
        proof {
            let table = self.instances(scope);
            let i = choose|i: int| 0 <= i < table.len() && #[trigger] table[i] == instance;
            assert(made_by(registered.fixture(name@), *context, table[i]));
            assert(holds_made(table, registered.fixture(name@), *context));
        }
        proof {
            assert(deeper[stack.len() as int] == name@);
            let i = choose|i: int|
                0 <= i < deeper.len() && #[trigger] deeper[i] == name@ && set_items(*visiting)
                    == deeper.update(i, deeper.last()).drop_last();
            assert(i == stack.len()) by {
                if i < stack.len() {
                    assert(stack[i] == name@);
                    assert(stack.contains(name@));
                }
            }
            assert(deeper.update(i, deeper.last()).drop_last() =~= stack);
            let at = graph.names.index_of(name@);
            assert(graph.names.contains(name@));
            assert(0 <= at < graph.names.len() && graph.names[at] == name@);
            assert(graph.definitions[at].scope == scope);
            assert(self@.setup_order(graph.definitions[at].scope).contains(name@)) by {
                let names = self@.setup_order(scope);
                let before = mid.setup_order(scope);
                if before.contains(name@) {
                } else {
                    assert(names == before.push(name@));
                    assert(names[before.len() as int] == name@);
                }
            }
            assert(self@.is_set_up(name@));
            assert(mid.kept_in(self@)) by {
                assert forall|n: Seq<char>| mid.session.contains(n) implies self@.session.contains(
                    n,
                ) by {
                    let k = choose|k: int| 0 <= k < mid.session.len() && mid.session[k] == n;
                    assert(self@.session[k] == n);
                }
                assert forall|n: Seq<char>| mid.suite.contains(n) implies self@.suite.contains(
                    n,
                ) by {
                    let k = choose|k: int| 0 <= k < mid.suite.len() && mid.suite[k] == n;
                    assert(self@.suite[k] == n);
                }
                assert forall|n: Seq<char>| mid.test.contains(n) implies self@.test.contains(n) by {
                    let k = choose|k: int| 0 <= k < mid.test.len() && mid.test[k] == n;
                    assert(self@.test[k] == n);
                }
            }
        }
        proof {
            assert forall|k: int| 0 <= k < graph.deps_of(name@).len() implies self@.is_set_up(
                #[trigger] graph.deps_of(name@)[k],
            ) by {
                lemma_stays_set_up(mid, self@, graph.deps_of(name@)[k]);
            }
        }
        Ok(())
    }

    /// Sets up the fixture `name`: first every fixture it depends on that
    /// is not set up in its own scope, then the fixture itself, by its
    /// setup callback, or with the unit value where it has none. The
    /// instance is kept in the table of the fixture's scope.
    ///
    /// A name under which nothing is registered is an error, and so is a
    /// dependency that is not registered and a fixture that depends on
    /// itself; an error of a callback is handed on.
    /// Where every fixture that `name` reaches through its dependencies,
    /// itself included, is registered, does not depend on itself and has no
    /// setup callback, the result is `Ok`. What was set up
    /// before stays set up, and every instance that is new in a table is
    /// what setting up its fixture for `context` may give. Each table is
    /// as it was with the new instances at its end, in the order in which
    /// they were set up; only an instance of `name` itself makes way for
    /// the new one, in its place. On success the fixtures that are set up
    /// are those of [`ManagerView::after_setup`], table by table and in
    /// their order; where that walk fails, so does the call.
    pub fn setup_fixture(&mut self, name: &str, context: &TestContext) -> (r: Result<(), Error>)
        requires
            old(self).wf(),
        ensures
            final(self).wf(),
            final(self)@.graph == old(self)@.graph,
            final(self).registered() == old(self).registered(),
            old(self)@.kept_in(final(self)@),
            final(self).grew_by_setups(*old(self), *context),
            final(self).grown_by(*old(self), name@),
            r is Ok ==> placed(
                old(self).instances(old(self).registered().fixture(name@).scope),
                final(self).instances(old(self).registered().fixture(name@).scope),
                old(self).registered().fixture(name@),
                *context,
            ),
            r is Ok ==> holds_made(
                final(self).instances(old(self).registered().fixture(name@).scope),
                old(self).registered().fixture(name@),
                *context,
            ),
            r is Err ==> is_setup_failure(old(self).registered(), name@, *context, r->Err_0),
            old(self)@.graph.defined(name@) && !old(self)@.graph.has_cycle()
                && !old(self)@.graph.has_undefined() && without_setups(old(self).registered())
                ==> r is Ok,
            sets_up_freely(old(self).registered(), name@) ==> r is Ok,
            r is Ok ==> old(self)@.after_setup(
                name@,
                Seq::empty(),
                (old(self)@.graph.names.len() + 1) as nat,
            ) == Some(final(self)@),
            old(self)@.after_setup(name@, Seq::empty(), (old(self)@.graph.names.len() + 1) as nat)
                is None ==> r is Err,
            (exists|k: int|
                0 <= k < old(self)@.graph.deps_of(name@).len() && !old(self)@.graph.defined(
                    #[trigger] old(self)@.graph.deps_of(name@)[k],
                )) ==> r is Err,
            !old(self)@.graph.defined(name@) ==> r is Err && r->Err_0@ == (ErrorView {
                kind: ErrorKind::Fixture,
                stage: Seq::empty(),
                message: not_found_message(name@),
            }),
            r is Ok ==> final(self)@.is_set_up(name@) && forall|k: int|
                0 <= k < old(self)@.graph.deps_of(name@).len() ==> final(self)@.is_set_up(
                    #[trigger] old(self)@.graph.deps_of(name@)[k],
                ),
    {
        let mut visiting = set_new();
        self.setup_within(name, context, &mut visiting)
    }

    /// The names of the fixtures of the table of `scope` in the order in
    /// which [`Self::teardown_by_scope`] tears them down: the reverse of the
    /// order in which they were set up.
    pub fn teardown_order(&self, scope: FixtureScope) -> (r: Vec<String>)
        ensures
            texts(r@) == self@.setup_order(scope).reverse(),
    {
        let table = match scope {
            FixtureScope::Session => &self.session_fixtures,
            FixtureScope::Suite => &self.suite_fixtures,
            FixtureScope::Test | FixtureScope::Invocation => &self.test_fixtures,
        };
        let mut r: Vec<String> = Vec::new();
        let mut i: usize = table.len();
        while i > 0
            invariant
                i <= table.len(),
                r@.len() == table.len() - i,
                forall|k: int|
                    0 <= k < r@.len() ==> (#[trigger] r@[k])@ == table@[table.len() - 1 - k].name@,
            decreases i,
        {
            i -= 1;
            r.push(table[i].name.clone());
        }
        assert(texts(r@) =~= instance_names(table@).reverse());
        r
    }

    fn drain(
        definitions: &FixtureDependencyGraph,
        table: &mut Vec<FixtureInstance>,
    ) -> (r: Result<(), Error>)
        requires
            definitions.wf(),
        ensures
            final(table)@.len() == 0,
            exists|failures: Seq<Option<Error>>| #[trigger]
                torn_down_with(*definitions, old(table)@, failures, failure_of(r)),
    {
        let ghost all = table@;
        let ghost mut failures: Seq<Option<Error>> = Seq::new(all.len(), |k: int| None);
        let mut first: Option<Error> = None;
        while table.len() > 0
            invariant
                definitions.wf(),
                all == old(table)@,
                table@.len() <= all.len(),
                table@ == all.take(table@.len() as int),
                failures.len() == all.len(),
                forall|k: int|
                    table@.len() <= k < all.len() ==> teardown_ends(
                        *definitions,
                        all[k],
                        #[trigger] failures[k],
                    ),
                forall|k: int| 0 <= k < table@.len() ==> (#[trigger] failures[k]) is None,
                is_first_failure(failures, first),
            decreases table.len(),
        {
            let ghost at = table@.len() - 1;
            let ghost before = failures;
            assert(table@[at] == all[at]);
            let mut ended: Option<Error> = None;
            match table.pop() {
                Some(instance) => match definitions.get_fixture(instance.name.as_str()) {
                    Some(definition) => match &definition.teardown {
                        Some(teardown_fn) => match teardown_fn.exec(
                            instance.value,
                            &instance.context,
                        ) {
                            Ok(()) => {},
                            Err(e) => {
                                ended = Some(e);
                            },
                        },
                        None => {},
                    },
                    None => {},
                },
                None => {},
            }
            proof {
                failures = before.update(at, ended);
                assert(teardown_ends(*definitions, all[at], ended));
                assert(table@ =~= all.take(at));
            }
            match ended {
                Some(e) => {
                    if first.is_none() {
                        first = Some(e);
                        proof {
                            assert(forall|j: int| at < j < before.len() ==> before[j] is None);
                            assert(failures[at] == first);
                            assert(quiet_after(failures, at));
                        }
                    } else {
                        proof {
                            let k = choose|k: int|
                                0 <= k < before.len() && #[trigger] before[k] == first
                                    && quiet_after(before, k);
                            assert(k > at);
                            assert(failures[k] == first);
                            assert(quiet_after(failures, k));
                        }
                    }
                },
                None => {
                    proof {
                        if first is Some {
                            let k = choose|k: int|
                                0 <= k < before.len() && #[trigger] before[k] == first
                                    && quiet_after(before, k);
                            assert(k > at);
                            assert(failures[k] == first);
                            assert(quiet_after(failures, k));
                        } else {
                            assert(quiet_after(failures, -1));
                        }
                    }
                },
            }
        }
        let r: Result<(), Error> = match first {
            Some(e) => Err(e),
            None => Ok(()),
        };
        assert(failure_of(r) == first);
        assert(torn_down_with(*definitions, all, failures, failure_of(r)));
        r
    }

    /// Tears down every fixture of the table of `scope`, the last that was
    /// set up first, each by its teardown callback with the value and the
    /// context of its instance. A callback that fails does not keep the
    /// others from running; the first error is handed on when all are done:
    /// that of the instance that was set up last among those whose teardown
    /// failed. Where no callback fails, and so where no instance has one,
    /// the result is `Ok`. The table is empty afterwards; the other tables
    /// are as they were.
    pub fn teardown_by_scope(&mut self, scope: FixtureScope) -> (r: Result<(), Error>)
        requires
            old(self).wf(),
        ensures
            final(self).wf(),
            final(self)@.graph == old(self)@.graph,
            final(self).registered() == old(self).registered(),
            final(self)@.setup_order(scope).len() == 0,
            final(self).instances(scope).len() == 0,
            scope.table() != FixtureScope::Session ==> final(self)@.session == old(self)@.session,
            scope.table() != FixtureScope::Suite ==> final(self)@.suite == old(self)@.suite,
            scope.table() != FixtureScope::Test ==> final(self)@.test == old(self)@.test,
            forall|other: FixtureScope|
                other.table() != scope.table() ==> #[trigger] final(self).instances(other)
                    == old(self).instances(other),
            exists|failures: Seq<Option<Error>>| #[trigger]
                torn_down_with(
                    old(self).registered(),
                    old(self).instances(scope),
                    failures,
                    failure_of(r),
                ),
            without_teardowns(old(self).registered(), old(self).instances(scope)) ==> r is Ok,
            old(self)@.setup_order(scope).len() == 0 ==> r is Ok,
    {
        let r = match scope {
            FixtureScope::Session => Self::drain(&self.definitions, &mut self.session_fixtures),
            FixtureScope::Suite => Self::drain(&self.definitions, &mut self.suite_fixtures),
            FixtureScope::Test | FixtureScope::Invocation => Self::drain(
                &self.definitions,
                &mut self.test_fixtures,
            ),
        };
        proof {
            let failures = choose|failures: Seq<Option<Error>>| #[trigger]
                torn_down_with(
                    old(self).registered(),
                    old(self).instances(scope),
                    failures,
                    failure_of(r),
                );
            if without_teardowns(old(self).registered(), old(self).instances(scope)) {
                lemma_no_teardown_no_failure(
                    old(self).registered(),
                    old(self).instances(scope),
                    failures,
                    failure_of(r),
                );
            }
        }
        r
    }
}

} // verus!
