//! The fixture dependency graph: which fixture needs which, and an order in
//! which all of them can be set up.

use vstd::prelude::*;
use vstd::string::StringExecFns;
use crate::error::{Error, ErrorKind, ErrorView};
use crate::fixtures::scope::{
    FixtureDefinition, FixtureDefinitionView, FixtureScope, FixtureValue,
};
use crate::test::TestContext;
use crate::ordered::{
    set_contains, set_index_of, set_insert_full, set_items, set_new, set_swap_remove,
};
use crate::text::{strings_contain, texts};

verus! {

/// The mathematical content of a [`FixtureDependencyGraph`]: the names of
/// the fixtures in the order of their registration, and for each of them
/// the names it depends on.
pub ghost struct GraphView {
    pub names: Seq<Seq<char>>,
    pub deps: Seq<Seq<Seq<char>>>,
    /// The fixtures themselves, in the order of their registration.
    pub definitions: Seq<FixtureDefinitionView>,
}

/// Whether `name` stands in `order` before the index `k`.
pub open spec fn placed_before(order: Seq<Seq<char>>, name: Seq<char>, k: int) -> bool {
    exists|j: int| 0 <= j < k && j < order.len() && order[j] == name
}

impl GraphView {
    /// Every fixture has its list of dependencies, and no name is
    /// registered twice.
    pub open spec fn wf(self) -> bool {
        &&& self.names.len() == self.deps.len()
        &&& self.names.len() == self.definitions.len()
        &&& self.names.no_duplicates()
        &&& forall|i: int|
            0 <= i < self.definitions.len() ==> (#[trigger] self.definitions[i]).name
                == self.names[i] && self.definitions[i].dependencies == self.deps[i]
    }

    /// Whether a fixture is registered under `name`.
    pub open spec fn defined(self, name: Seq<char>) -> bool {
        self.names.contains(name)
    }

    /// Whether the fixture `a` is registered and names `b` among its
    /// dependencies.
    pub open spec fn depends(self, a: Seq<char>, b: Seq<char>) -> bool {
        exists|i: int|
            0 <= i < self.names.len() && i < self.deps.len() && self.names[i] == a
                && #[trigger] self.deps[i].contains(b)
    }

    /// Whether each name of `path` but the last depends on the one after it.
    pub open spec fn is_path(self, path: Seq<Seq<char>>) -> bool {
        forall|k: int| 0 <= k < path.len() - 1 ==> #[trigger] self.depends(path[k], path[k + 1])
    }

    /// Whether `name` depends on itself, directly or through other fixtures.
    pub open spec fn on_cycle(self, name: Seq<char>) -> bool {
        exists|path: Seq<Seq<char>>|
            #[trigger] self.is_path(path) && path.len() >= 2 && path[0] == name && path.last()
                == name
    }

    /// Whether some fixture depends on itself.
    pub open spec fn has_cycle(self) -> bool {
        exists|name: Seq<char>| #[trigger] self.on_cycle(name)
    }

    /// Whether some fixture depends on a name under which nothing is
    /// registered.
    pub open spec fn has_undefined(self) -> bool {
        exists|a: Seq<char>, b: Seq<char>| #[trigger] self.depends(a, b) && !self.defined(b)
    }

    /// Whether every fixture of `order` stands after all that it depends on.
    pub open spec fn respects_dependencies(self, order: Seq<Seq<char>>) -> bool {
        forall|k: int, d: Seq<char>|
            0 <= k < order.len() && #[trigger] self.depends(order[k], d) ==> placed_before(
                order,
                d,
                k,
            )
    }

    /// Whether `order` is an order in which the fixtures can be set up: it
    /// holds every registered name once and nothing else, and every fixture
    /// stands after all that it depends on.
    pub open spec fn is_resolution(self, order: Seq<Seq<char>>) -> bool {
        &&& order.no_duplicates()
        &&& forall|n: Seq<char>| order.contains(n) <==> self.names.contains(n)
        &&& self.respects_dependencies(order)
    }

    /// This graph with `fixture` registered: in the place of the fixture
    /// that had its name, or at the end where none had it.
    pub open spec fn with_fixture(self, fixture: FixtureDefinitionView) -> GraphView {
        if self.names.contains(fixture.name) {
            GraphView {
                names: self.names,
                deps: self.deps.update(self.names.index_of(fixture.name), fixture.dependencies),
                definitions: self.definitions.update(self.names.index_of(fixture.name), fixture),
            }
        } else {
            GraphView {
                names: self.names.push(fixture.name),
                deps: self.deps.push(fixture.dependencies),
                definitions: self.definitions.push(fixture),
            }
        }
    }

    /// The fixtures among the first `n` that name `name` among their
    /// dependencies, in the order of their registration.
    pub open spec fn dependents_among(self, name: Seq<char>, n: int) -> Seq<Seq<char>>
        decreases n,
    {
        if n <= 0 || n > self.names.len() || n > self.deps.len() {
            Seq::empty()
        } else if self.deps[n - 1].contains(name) {
            self.dependents_among(name, n - 1).push(self.names[n - 1])
        } else {
            self.dependents_among(name, n - 1)
        }
    }
}

/// The message of the error for a fixture that depends on itself.
pub open spec fn cycle_message(name: Seq<char>) -> Seq<char> {
    "Circular dependency detected involving fixture '"@ + name + "'"@
}

/// The message of the error for a dependency under whose name nothing is
/// registered.
pub open spec fn undefined_message(fixture: Seq<char>, dependency: Seq<char>) -> Seq<char> {
    "Fixture '"@ + fixture + "' depends on undefined fixture '"@ + dependency + "'"@
}

/// Whether `e` is an error that resolving `graph` may end in: a fixture
/// error that names a fixture that depends on itself, or one that names a
/// fixture together with a dependency of it that is not registered.
pub open spec fn is_resolution_error(graph: GraphView, e: ErrorView) -> bool {
    &&& e.kind == ErrorKind::Fixture
    &&& e.stage == Seq::<char>::empty()
    &&& {
        ||| exists|x: Seq<char>| #[trigger] graph.on_cycle(x) && e.message == cycle_message(x)
        ||| exists|a: Seq<char>, z: Seq<char>| #[trigger]
            graph.depends(a, z) && !graph.defined(z) && e.message == undefined_message(a, z)
    }
}

/// Along a path, each fixture stands in a resolution after the one that
/// follows it on the path: so the last stands before the first.
pub proof fn lemma_path_descends(graph: GraphView, order: Seq<Seq<char>>, path: Seq<Seq<char>>)
    requires
        graph.is_resolution(order),
        graph.is_path(path),
        path.len() >= 2,
        order.contains(path[0]),
    ensures
        order.contains(path.last()),
        order.index_of(path.last()) < order.index_of(path[0]),
    decreases path.len(),
{
    let first = path[0];
    let k = order.index_of(first);
    assert(graph.depends(path[0], path[0int + 1]));
    assert(placed_before(order, path[1], k));
    let j = choose|j: int| 0 <= j < k && j < order.len() && order[j] == path[1];
    assert(order.contains(path[1]));
    lemma_index_of_unique(order, j);
    if path.len() > 2 {
        let rest = path.drop_first();
        assert forall|i: int| 0 <= i < rest.len() - 1 implies #[trigger] graph.depends(
            rest[i],
            rest[i + 1],
        ) by {
            assert(graph.depends(path[i + 1], path[i + 1 + 1]));
        }
        lemma_path_descends(graph, order, rest);
        assert(rest.last() == path.last());
    }
}

/// In a sequence without duplicates, `index_of` gives back each index.
pub proof fn lemma_index_of_unique(s: Seq<Seq<char>>, i: int)
    requires
        s.no_duplicates(),
        0 <= i < s.len(),
    ensures
        s.index_of(s[i]) == i,
{
    let j = s.index_of(s[i]);
    assert(s.contains(s[i]));
}

/// A graph that has a resolution has no fixture that depends on itself and
/// no dependency that is not registered.
pub proof fn lemma_resolution_means_sound(graph: GraphView, order: Seq<Seq<char>>)
    requires
        graph.is_resolution(order),
    ensures
        !graph.has_cycle(),
        !graph.has_undefined(),
{
    assert forall|name: Seq<char>| !#[trigger] graph.on_cycle(name) by {
        if graph.on_cycle(name) {
            let path = choose|path: Seq<Seq<char>>|
                #[trigger] graph.is_path(path) && path.len() >= 2 && path[0] == name && path.last()
                    == name;
            assert(graph.depends(path[0], path[0int + 1]));
            assert(order.contains(name));
            lemma_path_descends(graph, order, path);
        }
    }
    assert forall|a: Seq<char>, b: Seq<char>| #[trigger] graph.depends(a, b) implies graph.defined(
        b,
    ) by {
        assert(graph.names.contains(a));
        assert(order.contains(a));
        let k = order.index_of(a);
        assert(graph.depends(order[k], b));
        assert(placed_before(order, b, k));
        let j = choose|j: int| 0 <= j < k && j < order.len() && order[j] == b;
        assert(order.contains(b));
    }
}

/// What a walk of the graph has come to: the fixtures put in order so far,
/// and the error it ended in, if it did.
pub ghost struct Walk {
    pub done: Seq<Seq<char>>,
    pub failure: Option<ErrorView>,
}

/// The fixture error with the message `message`.
pub open spec fn fixture_error(message: Seq<char>) -> ErrorView {
    ErrorView { kind: ErrorKind::Fixture, stage: Seq::empty(), message }
}

impl GraphView {
    /// The names that the fixture `name` depends on, in the order in which
    /// it names them.
    pub open spec fn deps_of(self, name: Seq<char>) -> Seq<Seq<char>> {
        self.deps[self.names.index_of(name)]
    }

    /// The walk from the fixture `name`, with `done` put in order already
    /// and `visiting` being visited: a fixture that is being visited is an
    /// error; a fixture that is in order already changes nothing; every
    /// other fixture is put in order after all that it depends on. `depth`
    /// bounds how deep the walk may go, and is never used up where it is
    /// the number of fixtures that are not being visited.
    pub open spec fn visit(
        self,
        name: Seq<char>,
        done: Seq<Seq<char>>,
        visiting: Seq<Seq<char>>,
        depth: nat,
    ) -> Walk
        decreases depth, 0nat,
    {
        if visiting.contains(name) {
            Walk { done, failure: Some(fixture_error(cycle_message(name))) }
        } else if done.contains(name) || depth == 0 {
            Walk { done, failure: None }
        } else {
            let below = self.visit_all(
                name,
                self.deps_of(name),
                0,
                done,
                visiting.push(name),
                (depth - 1) as nat,
            );
            if below.failure is Some {
                below
            } else {
                Walk { done: below.done.push(name), failure: None }
            }
        }
    }

    /// The walk through the dependencies `deps` of the fixture `owner`,
    /// from the one at index `from` on, in their order: a dependency that is
    /// not registered is an error; every other one is walked from.
    pub open spec fn visit_all(
        self,
        owner: Seq<char>,
        deps: Seq<Seq<char>>,
        from: int,
        done: Seq<Seq<char>>,
        visiting: Seq<Seq<char>>,
        depth: nat,
    ) -> Walk
        decreases depth, 1 + deps.len() - from,
    {
        if from < 0 || from >= deps.len() {
            Walk { done, failure: None }
        } else if !self.defined(deps[from]) {
            Walk { done, failure: Some(fixture_error(undefined_message(owner, deps[from]))) }
        } else {
            let first = self.visit(deps[from], done, visiting, depth);
            if first.failure is Some {
                first
            } else {
                self.visit_all(owner, deps, from + 1, first.done, visiting, depth)
            }
        }
    }

    /// The walk from every fixture from the index `from` on, in the order
    /// of registration.
    pub open spec fn walk_from(self, from: int, done: Seq<Seq<char>>) -> Walk
        decreases self.names.len() - from,
    {
        if from < 0 || from >= self.names.len() {
            Walk { done, failure: None }
        } else {
            let first = self.visit(self.names[from], done, Seq::empty(), self.names.len());
            if first.failure is Some {
                first
            } else {
                self.walk_from(from + 1, first.done)
            }
        }
    }

    /// The order in which the fixtures are set up, or the error that
    /// resolving them ends in: the walk from every fixture, in the order of
    /// registration, each fixture after all that it depends on, the
    /// dependencies in the order in which the fixture names them.
    pub open spec fn resolution(self) -> Walk {
        self.walk_from(0, Seq::empty())
    }

    /// The fixtures of the scope `scope` in the order in which they are set
    /// up; empty where the fixtures cannot be put in an order.
    pub open spec fn setup_names(self, scope: FixtureScope) -> Seq<
        Seq<char>,
    > {
        scoped_names(self, self.resolution().done, scope)
    }

    /// The fixtures of the scope `scope` in the order in which they are
    /// torn down.
    pub open spec fn teardown_names(self, scope: FixtureScope) -> Seq<
        Seq<char>,
    > {
        self.setup_names(scope).reverse()
    }
}

/// The fixtures of a scope are torn down in the reverse of the order in
/// which they are set up.
pub proof fn lemma_teardown_reverses_setup(
    graph: GraphView,
    scope: FixtureScope,
)
    ensures
        graph.teardown_names(scope) == graph.setup_names(scope).reverse(),
        graph.teardown_names(scope).len() == graph.setup_names(scope).len(),
        forall|k: int|
            0 <= k < graph.setup_names(scope).len() ==> graph.teardown_names(scope)[k]
                == graph.setup_names(scope)[graph.setup_names(scope).len() - 1 - k],
{
}

/// What a depth-first walk of the graph keeps true: the fixtures visited so
/// far are those of the result, each after all that it depends on; the
/// fixtures being visited form a path of dependencies, and none of them is
/// in the result yet.
pub open spec fn walk_inv(
    graph: GraphView,
    visited: Seq<Seq<char>>,
    visiting: Seq<Seq<char>>,
    result: Seq<Seq<char>>,
) -> bool {
    &&& graph.wf()
    &&& visited == result
    &&& result.no_duplicates()
    &&& forall|k: int| 0 <= k < result.len() ==> graph.defined(#[trigger] result[k])
    &&& graph.respects_dependencies(result)
    &&& visiting.no_duplicates()
    &&& forall|k: int|
        0 <= k < visiting.len() ==> graph.defined(#[trigger] visiting[k]) && !result.contains(
            visiting[k],
        )
    &&& graph.is_path(visiting)
}

/// Names without duplicates that are all registered are no more than the
/// registered names.
pub proof fn lemma_distinct_names_bounded(graph: GraphView, names: Seq<Seq<char>>)
    requires
        graph.wf(),
        names.no_duplicates(),
        forall|k: int| 0 <= k < names.len() ==> graph.defined(#[trigger] names[k]),
    ensures
        names.len() <= graph.names.len(),
{
    names.unique_seq_to_set();
    graph.names.unique_seq_to_set();
    vstd::seq_lib::seq_to_set_is_finite(graph.names);
    assert forall|n: Seq<char>| names.to_set().contains(n) implies graph.names.to_set().contains(
        n,
    ) by {
        let k = choose|k: int| 0 <= k < names.len() && names[k] == n;
        assert(graph.defined(names[k]));
    }
    vstd::set_lib::lemma_len_subset(names.to_set(), graph.names.to_set());
}

/// Whether the name `to` is `from` itself or is reached from it through
/// dependencies.
pub open spec fn reaches(graph: GraphView, from: Seq<char>, to: Seq<char>) -> bool {
    exists|path: Seq<Seq<char>>|
        #[trigger] graph.is_path(path) && path.len() >= 1 && path[0] == from && path.last() == to
}

/// Every name reaches itself.
pub proof fn lemma_reaches_itself(graph: GraphView, name: Seq<char>)
    ensures
        reaches(graph, name, name),
{
    let path = seq![name];
    assert(graph.is_path(path));
    assert(path[0] == name && path.last() == name);
}

/// A fixture reaches what a fixture that it depends on reaches.
pub proof fn lemma_reaches_through(graph: GraphView, a: Seq<char>, b: Seq<char>, to: Seq<char>)
    requires
        graph.depends(a, b),
        reaches(graph, b, to),
    ensures
        reaches(graph, a, to),
{
    let rest = choose|path: Seq<Seq<char>>|
        #[trigger] graph.is_path(path) && path.len() >= 1 && path[0] == b && path.last() == to;
    let path = seq![a] + rest;
    assert forall|k: int| 0 <= k < path.len() - 1 implies #[trigger] graph.depends(
        path[k],
        path[k + 1],
    ) by {
        if k == 0 {
            assert(path[0] == a && path[1] == rest[0]);
        } else {
            assert(path[k] == rest[k - 1] && path[k + 1] == rest[k]);
            assert(graph.depends(rest[k - 1], rest[k - 1 + 1]));
        }
    }
    assert(graph.is_path(path));
    assert(path[0] == a);
    assert(path.last() == rest.last());
}

/// A fixture that is being visited and is reached again depends on itself.
pub proof fn lemma_revisit_is_cycle(graph: GraphView, visiting: Seq<Seq<char>>, name: Seq<char>)
    requires
        graph.is_path(visiting),
        visiting.contains(name),
        graph.depends(visiting.last(), name),
    ensures
        graph.on_cycle(name),
{
    let i = choose|i: int| 0 <= i < visiting.len() && visiting[i] == name;
    let path = visiting.subrange(i, visiting.len() as int).push(name);
    assert forall|k: int| 0 <= k < path.len() - 1 implies #[trigger] graph.depends(
        path[k],
        path[k + 1],
    ) by {
        if k < path.len() - 2 {
            assert(path[k] == visiting[i + k]);
            assert(path[k + 1] == visiting[i + k + 1]);
            assert(graph.depends(visiting[i + k], visiting[i + k + 1]));
        } else {
            assert(path[k] == visiting.last());
            assert(path[k + 1] == name);
        }
    }
    assert(graph.is_path(path));
    assert(path[0] == name);
    assert(path.last() == name);
}

/// The fixtures of a suite or a run and what each of them depends on.
pub struct FixtureDependencyGraph {
    /// The names of the fixtures, in the order of their registration.
    names: indexmap::IndexSet<String>,
    /// The fixtures; the one at index `i` is registered under the name at
    /// index `i`.
    fixtures: Vec<FixtureDefinition>,
}

impl View for FixtureDependencyGraph {
    type V = GraphView;

    closed spec fn view(&self) -> GraphView {
        GraphView {
            names: set_items(self.names),
            deps: Seq::new(self.fixtures@.len(), |i: int| texts(self.fixtures@[i].dependencies@)),
            definitions: Seq::new(self.fixtures@.len(), |i: int| self.fixtures@[i]@),
        }
    }
}

impl FixtureDependencyGraph {
    /// Every fixture is kept under its own name, and no name is kept twice.
    pub closed spec fn wf(&self) -> bool {
        &&& self@.wf()
        &&& forall|i: int|
            0 <= i < self.fixtures@.len() ==> (#[trigger] self.fixtures@[i]).name@ == set_items(
                self.names,
            )[i]
    }

    /// What [`Self::wf`] says of the graph's content.
    pub proof fn lemma_wf_view(&self)
        requires
            self.wf(),
        ensures
            self@.wf(),
    {
    }

    /// The fixture that is registered under `name`, with its callbacks.
    pub closed spec fn fixture(&self, name: Seq<char>) -> FixtureDefinition {
        self.fixtures@[set_items(self.names).index_of(name)]
    }

    /// The fixture that is registered under a name has that name, and its
    /// content is what the graph's content holds under the name.
    pub proof fn lemma_fixture_view(&self, name: Seq<char>)
        requires
            self.wf(),
            self@.defined(name),
        ensures
            self.fixture(name).name@ == name,
            self.fixture(name)@ == self@.definitions[self@.names.index_of(name)],
    {
        let i = set_items(self.names).index_of(name);
        assert(0 <= i < self.fixtures@.len() && set_items(self.names)[i] == name);
        assert(self.fixtures@[i].name@ == name);
    }

    /// A graph without fixtures.
    pub fn new() -> (r: Self)
        ensures
            r.wf(),
            r@ == (GraphView { names: Seq::empty(), deps: Seq::empty(), definitions: Seq::empty() }),
    {
        let r = FixtureDependencyGraph { names: set_new(), fixtures: Vec::new() };
        assert(r@.deps =~= Seq::empty());
        assert(r@.definitions =~= Seq::empty());
        r
    }

    /// Registers a fixture. A fixture that is registered under a name that
    /// is taken replaces the fixture that had the name, in its place. The
    /// names it depends on need not be registered.
    pub fn add_fixture(&mut self, fixture: FixtureDefinition)
        requires
            old(self).wf(),
        ensures
            final(self).wf(),
            final(self)@ == old(self)@.with_fixture(fixture@),
            final(self).fixture(fixture.name@) == fixture,
            forall|n: Seq<char>|
                old(self)@.defined(n) && n != fixture.name@ ==> #[trigger] final(self).fixture(n)
                    == old(self).fixture(n),
    {
        let ghost before = self@;
        let ghost before_names = set_items(self.names);
        let ghost before_fixtures = self.fixtures@;
        let (index, fresh) = set_insert_full(&mut self.names, fixture.name.clone());
        if fresh {
            self.fixtures.push(fixture);
            assert(self@.deps =~= before.deps.push(fixture@.dependencies));
            assert(self@.definitions =~= before.definitions.push(fixture@));
            assert(self@.names.no_duplicates());
        } else {
            proof {
                lemma_index_of_unique(before.names, index as int);
            }
            self.fixtures.set(index, fixture);
            assert(self@.deps =~= before.deps.update(index as int, fixture@.dependencies));
            assert(self@.definitions =~= before.definitions.update(index as int, fixture@));
        }
        proof {
            let names = set_items(self.names);
            assert(names[index as int] == fixture.name@);
            lemma_index_of_unique(names, index as int);
            assert forall|n: Seq<char>| before.defined(n) && n != fixture.name@ implies
                #[trigger] self.fixture(n) == old(self).fixture(n) by {
                let i = before_names.index_of(n);
                assert(0 <= i < before_names.len() && before_names[i] == n);
                assert(names[i] == n);
                lemma_index_of_unique(names, i);
                assert(self.fixtures@[i] == before_fixtures[i]);
            }
        }
    }

    /// The fixture that is registered under `name`.
    pub fn get_fixture(&self, name: &str) -> (r: Option<&FixtureDefinition>)
        requires
            self.wf(),
        ensures
            r is Some <==> self@.defined(name@),
            r is Some ==> r->0.name@ == name@ && r->0@ == self@.definitions[self@.names.index_of(
                name@,
            )],
            r is Some ==> *r->0 == self.fixture(name@),
    {
        match set_index_of(&self.names, name) {
            Some(i) => {
                proof {
                    lemma_index_of_unique(self@.names, i as int);
                }
                Some(&self.fixtures[i])
            },
            None => None,
        }
    }

    /// The names of all fixtures, in the order of their registration.
    pub fn all_names(&self) -> (r: Vec<String>)
        requires
            self.wf(),
        ensures
            texts(r@) == self@.names,
    {
        let mut r: Vec<String> = Vec::new();
        let mut i: usize = 0;
        assert(texts(r@) =~= self@.names.take(0));
        while i < self.fixtures.len()
            invariant
                self.wf(),
                i <= self.fixtures.len(),
                texts(r@) == self@.names.take(i as int),
            decreases self.fixtures.len() - i,
        {
            let ghost had = texts(r@);
            assert(self.fixtures@[i as int].name@ == self@.names[i as int]);
            r.push(self.fixtures[i].name.clone());
            assert(texts(r@) =~= had.push(self@.names[i as int]));
            i += 1;
            assert(texts(r@) =~= self@.names.take(i as int));
        }
        assert(self@.names.take(i as int) =~= self@.names);
        r
    }

    /// The names of the fixtures that name `fixture_name` among their
    /// dependencies, in the order of their registration.
    pub fn get_dependents(&self, fixture_name: &str) -> (r: Vec<String>)
        requires
            self.wf(),
        ensures
            texts(r@) == self@.dependents_among(fixture_name@, self@.names.len() as int),
    {
        let mut r: Vec<String> = Vec::new();
        let mut i: usize = 0;
        assert(texts(r@) =~= Seq::empty());
        while i < self.fixtures.len()
            invariant
                self.wf(),
                i <= self.fixtures.len(),
                texts(r@) == self@.dependents_among(fixture_name@, i as int),
            decreases self.fixtures.len() - i,
        {
            let ghost had = texts(r@);
            if strings_contain(&self.fixtures[i].dependencies, fixture_name) {
                r.push(self.fixtures[i].name.clone());
                assert(texts(r@) =~= had.push(self@.names[i as int]));
            }
            i += 1;
        }
        r
    }

    fn cycle_error(name: &str) -> (e: Error)
        ensures
            e@ == (ErrorView {
                kind: ErrorKind::Fixture,
                stage: Seq::empty(),
                message: cycle_message(name@),
            }),
    {
        let mut message = String::from_str("Circular dependency detected involving fixture '");
        message.append(name);
        message.append("'");
        Error::fixture(message.as_str())
    }

    fn undefined_error(fixture: &str, dependency: &str) -> (e: Error)
        ensures
            e@ == (ErrorView {
                kind: ErrorKind::Fixture,
                stage: Seq::empty(),
                message: undefined_message(fixture@, dependency@),
            }),
    {
        let mut message = String::from_str("Fixture '");
        message.append(fixture);
        message.append("' depends on undefined fixture '");
        message.append(dependency);
        message.append("'");
        Error::fixture(message.as_str())
    }

    /// One step of the depth-first walk: puts the fixture at `index` into
    /// `result` after all that it depends on, unless it is there already.
    fn visit_fixture(
        &self,
        index: usize,
        visited: &mut indexmap::IndexSet<String>,
        temp_visited: &mut indexmap::IndexSet<String>,
        result: &mut Vec<String>,
    ) -> (r: Result<(), Error>)
        requires
            self.wf(),
            walk_inv(
                self@,
                set_items(*old(visited)),
                set_items(*old(temp_visited)),
                texts(old(result)@),
            ),
            index < self@.names.len(),
            set_items(*old(temp_visited)).len() > 0 ==> self@.depends(
                set_items(*old(temp_visited)).last(),
                self@.names[index as int],
            ),
        ensures
            match r {
                Ok(_) => {
                    &&& walk_inv(
                        self@,
                        set_items(*final(visited)),
                        set_items(*final(temp_visited)),
                        texts(final(result)@),
                    )
                    &&& set_items(*final(temp_visited)) == set_items(*old(temp_visited))
                    &&& texts(old(result)@).is_prefix_of(texts(final(result)@))
                    &&& texts(final(result)@).contains(self@.names[index as int])
                    &&& self@.visit(
                        self@.names[index as int],
                        texts(old(result)@),
                        set_items(*old(temp_visited)),
                        (self@.names.len() - set_items(*old(temp_visited)).len()) as nat,
                    ) == (Walk { done: texts(final(result)@), failure: None })
                },
                Err(e) => is_resolution_error(self@, e@) && self@.visit(
                    self@.names[index as int],
                    texts(old(result)@),
                    set_items(*old(temp_visited)),
                    (self@.names.len() - set_items(*old(temp_visited)).len()) as nat,
                ).failure == Some(e@),
            },
        decreases self@.names.len() - set_items(*old(temp_visited)).len(),
    {
        let ghost graph = self@;
        let ghost stack = set_items(*temp_visited);
        let ghost done = texts(result@);
        let fixture_name = self.fixtures[index].name.as_str();
        assert(graph.names[index as int] == fixture_name@);
        if set_contains(temp_visited, fixture_name) {
            proof {
                lemma_revisit_is_cycle(graph, stack, fixture_name@);
            }
            return Err(Self::cycle_error(fixture_name));
        }
        if set_contains(visited, fixture_name) {
            return Ok(());
        }
        let (_, _) = set_insert_full(temp_visited, fixture_name.to_owned());
        let ghost deeper = stack.push(fixture_name@);
        proof {
            assert(set_items(*temp_visited) == deeper);
            assert forall|k: int| 0 <= k < deeper.len() - 1 implies #[trigger] graph.depends(
                deeper[k],
                deeper[k + 1],
            ) by {
                if k < stack.len() - 1 {
                    assert(graph.depends(stack[k], stack[k + 1]));
                }
            }
            assert forall|k: int| 0 <= k < deeper.len() implies graph.defined(
                #[trigger] deeper[k],
            ) && !done.contains(deeper[k]) by {
                if k < stack.len() {
                    assert(graph.defined(stack[k]));
                }
            }
            lemma_distinct_names_bounded(graph, deeper);
        }
        proof {
            lemma_index_of_unique(graph.names, index as int);
            assert(graph.deps_of(fixture_name@) == texts(
                self.fixtures[index as int].dependencies@,
            ));
        }
        let mut j: usize = 0;
        while j < self.fixtures[index as usize].dependencies.len()
            invariant
                self.wf(),
                graph == self@,
                index < self.fixtures.len(),
                graph.names[index as int] == fixture_name@,
                j <= self.fixtures[index as int].dependencies.len(),
                stack == set_items(*old(temp_visited)),
                deeper == stack.push(fixture_name@),
                set_items(*temp_visited) == deeper,
                walk_inv(graph, set_items(*visited), deeper, texts(result@)),
                done.is_prefix_of(texts(result@)),
                done == texts(old(result)@),
                !stack.contains(fixture_name@),
                !done.contains(fixture_name@),
                graph.deps_of(fixture_name@) == texts(self.fixtures[index as int].dependencies@),
                graph.visit_all(
                    fixture_name@,
                    graph.deps_of(fixture_name@),
                    0,
                    done,
                    deeper,
                    (graph.names.len() - deeper.len()) as nat,
                ) == graph.visit_all(
                    fixture_name@,
                    graph.deps_of(fixture_name@),
                    j as int,
                    texts(result@),
                    deeper,
                    (graph.names.len() - deeper.len()) as nat,
                ),
                forall|k: int|
                    0 <= k < j ==> texts(result@).contains(
                        #[trigger] texts(self.fixtures[index as int].dependencies@)[k],
                    ),
                deeper.len() <= graph.names.len(),
            decreases self.fixtures[index as int].dependencies.len() - j,
        {
            let dep = self.fixtures[index].dependencies[j].as_str();
            let ghost deps = texts(self.fixtures[index as int].dependencies@);
            assert(deps[j as int] == dep@);
            assert(graph.deps[index as int] == deps);
            assert(graph.deps[index as int].contains(dep@));
            assert(graph.depends(fixture_name@, dep@));
            let dep_index: usize = match set_index_of(&self.names, dep) {
                Some(i) => i,
                None => {
                    return Err(Self::undefined_error(fixture_name, dep));
                },
            };
            let ghost so_far = texts(result@);
            match self.visit_fixture(dep_index, visited, temp_visited, result) {
                Ok(()) => {},
                Err(e) => {
                    return Err(e);
                },
            }
            proof {
                assert forall|k: int| 0 <= k < j + 1 implies texts(result@).contains(
                    #[trigger] deps[k],
                ) by {
                    if k < j {
                        assert(so_far.contains(deps[k]));
                        let at = choose|at: int| 0 <= at < so_far.len() && so_far[at] == deps[k];
                        assert(texts(result@)[at] == deps[k]);
                    }
                }
            }
            j += 1;
        }
        let ghost grown = texts(result@);
        let removed = set_swap_remove(temp_visited, fixture_name);
        proof {
            let depth = (graph.names.len() - stack.len()) as nat;
            let below = graph.visit_all(
                fixture_name@,
                graph.deps_of(fixture_name@),
                0,
                done,
                deeper,
                (depth - 1) as nat,
            );
            assert(below == (Walk { done: grown, failure: None }));
            assert(graph.visit(fixture_name@, done, stack, depth) == (Walk {
                done: grown.push(fixture_name@),
                failure: None,
            }));
            assert(deeper.contains(fixture_name@)) by {
                assert(deeper[stack.len() as int] == fixture_name@);
            }
            let i = choose|i: int|
                0 <= i < deeper.len() && #[trigger] deeper[i] == fixture_name@ && set_items(
                    *temp_visited,
                ) == deeper.update(i, deeper.last()).drop_last();
            assert(i == stack.len()) by {
                if i < stack.len() {
                    assert(stack[i] == fixture_name@);
                    assert(stack.contains(fixture_name@));
                }
            }
            assert(deeper.update(i, deeper.last()).drop_last() =~= stack);
        }
        let (_, _) = set_insert_full(visited, fixture_name.to_owned());
        result.push(fixture_name.to_owned());
        proof {
            let last = grown.len() as int;
            let after = texts(result@);
            assert(after =~= grown.push(fixture_name@));
            assert(!grown.contains(fixture_name@)) by {
                assert(deeper[stack.len() as int] == fixture_name@);
            }
            assert(set_items(*visited) == after);
            assert(after.no_duplicates());
            assert forall|k: int| 0 <= k < after.len() implies graph.defined(
                #[trigger] after[k],
            ) by {
                if k < last {
                    assert(graph.defined(grown[k]));
                }
            }
            assert forall|k: int, d: Seq<char>|
                0 <= k < after.len() && #[trigger] graph.depends(after[k], d) implies placed_before(
                after,
                d,
                k,
            ) by {
                if k < last {
                    assert(graph.depends(grown[k], d));
                    assert(placed_before(grown, d, k));
                    let at = choose|at: int| 0 <= at < k && at < grown.len() && grown[at] == d;
                    assert(after[at] == d);
                } else {
                    let i = choose|i: int|
                        0 <= i < graph.names.len() && i < graph.deps.len() && graph.names[i]
                            == fixture_name@ && #[trigger] graph.deps[i].contains(d);
                    assert(i == index) by {
                        lemma_index_of_unique(graph.names, i);
                    }
                    let deps = texts(self.fixtures[index as int].dependencies@);
                    let at_dep = choose|x: int| 0 <= x < deps.len() && deps[x] == d;
                    assert(grown.contains(deps[at_dep]));
                    let at = choose|at: int| 0 <= at < grown.len() && grown[at] == d;
                    assert(after[at] == d);
                }
            }
            assert forall|k: int| 0 <= k < stack.len() implies graph.defined(#[trigger] stack[k])
                && !after.contains(stack[k]) by {
                assert(deeper[k] == stack[k]);
                assert(graph.defined(deeper[k]) && !grown.contains(deeper[k]));
                if after.contains(stack[k]) {
                    let at = choose|at: int| 0 <= at < after.len() && after[at] == stack[k];
                    if at < last {
                        assert(grown[at] == stack[k]);
                    }
                }
            }
            assert(graph.is_path(stack)) by {
                assert forall|k: int| 0 <= k < stack.len() - 1 implies #[trigger] graph.depends(
                    stack[k],
                    stack[k + 1],
                ) by {
                    assert(graph.depends(deeper[k], deeper[k + 1]));
                }
            }
            assert(stack.no_duplicates());
            assert(after[last] == fixture_name@);
            assert(done.is_prefix_of(after));
        }
        Ok(())
    }

    /// An order in which all fixtures can be set up: every fixture after
    /// all that it depends on. The walk goes through the fixtures in the
    /// order of their registration and, from each, through its dependencies
    /// first.
    ///
    /// There is such an order exactly where no fixture depends on itself,
    /// directly or through others, and every dependency is registered. Where
    /// there is none, the error names a fixture that depends on itself, or a
    /// fixture together with the name that is not registered; no part of an
    /// order is handed out.
    pub fn resolve_order(&self) -> (r: Result<Vec<String>, Error>)
        requires
            self.wf(),
        ensures
            match r {
                Ok(order) => self@.is_resolution(texts(order@)),
                Err(e) => is_resolution_error(self@, e@),
            },
            r is Ok <==> !self@.has_cycle() && !self@.has_undefined(),
            match r {
                Ok(order) => self@.resolution() == (Walk { done: texts(order@), failure: None }),
                Err(e) => self@.resolution().failure == Some(e@),
            },
            self@.has_cycle() && !self@.has_undefined() ==> r is Err && exists|x: Seq<char>| #[trigger]
                self@.on_cycle(x) && r->Err_0@.message == cycle_message(x),
            self@.has_undefined() && !self@.has_cycle() ==> r is Err && exists|
                a: Seq<char>,
                z: Seq<char>,
            | #[trigger]
                self@.depends(a, z) && !self@.defined(z) && r->Err_0@.message == undefined_message(
                    a,
                    z,
                ),
    {
        let ghost graph = self@;
        let mut visited = set_new();
        let mut temp_visited = set_new();
        let mut result: Vec<String> = Vec::new();
        let mut i: usize = 0;
        assert(texts(result@) =~= Seq::empty());
        while i < self.fixtures.len()
            invariant
                self.wf(),
                graph == self@,
                i <= self.fixtures.len(),
                set_items(temp_visited) == Seq::<Seq<char>>::empty(),
                walk_inv(graph, set_items(visited), set_items(temp_visited), texts(result@)),
                graph.resolution() == graph.walk_from(i as int, texts(result@)),
                forall|k: int| 0 <= k < i ==> texts(result@).contains(#[trigger] graph.names[k]),
            decreases self.fixtures.len() - i,
        {
            let name = self.fixtures[i].name.as_str();
            assert(graph.names[i as int] == name@);
            assert(graph.defined(name@));
            let ghost so_far = texts(result@);
            if !set_contains(&visited, name) {
                match self.visit_fixture(i, &mut visited, &mut temp_visited, &mut result) {
                    Ok(()) => {},
                    Err(e) => {
                        proof {
                            lemma_error_means_unsound(graph, e@);
                        }
                        return Err(e);
                    },
                }
            }
            proof {
                assert forall|k: int| 0 <= k < i + 1 implies texts(result@).contains(
                    #[trigger] graph.names[k],
                ) by {
                    if k < i {
                        assert(so_far.contains(graph.names[k]));
                        let at = choose|at: int|
                            0 <= at < so_far.len() && so_far[at] == graph.names[k];
                        assert(texts(result@)[at] == graph.names[k]);
                    }
                }
            }
            i += 1;
        }
        proof {
            let order = texts(result@);
            assert forall|n: Seq<char>| order.contains(n) <==> graph.names.contains(n) by {
                if order.contains(n) {
                    let at = choose|at: int| 0 <= at < order.len() && order[at] == n;
                    assert(graph.defined(order[at]));
                }
                if graph.names.contains(n) {
                    let at = choose|at: int| 0 <= at < graph.names.len() && graph.names[at] == n;
                    assert(order.contains(graph.names[at]));
                }
            }
            lemma_resolution_means_sound(graph, order);
        }
        Ok(result)
    }

    /// Whether the fixtures cannot be put in an order: whether resolving
    /// them fails.
    pub fn has_circular_dependencies(&self) -> (r: bool)
        requires
            self.wf(),
        ensures
            r <==> self@.has_cycle() || self@.has_undefined(),
    {
        self.resolve_order().is_err()
    }
}

/// An error that resolving a graph may end in shows that the graph has a
/// fixture that depends on itself, or a dependency that is not registered.
pub proof fn lemma_error_means_unsound(graph: GraphView, e: ErrorView)
    requires
        is_resolution_error(graph, e),
    ensures
        graph.has_cycle() || graph.has_undefined(),
{
    if exists|x: Seq<char>| #[trigger] graph.on_cycle(x) && e.message == cycle_message(x) {
        let x = choose|x: Seq<char>| #[trigger] graph.on_cycle(x) && e.message == cycle_message(x);
        assert(graph.on_cycle(x));
    } else {
        let (a, z) = choose|a: Seq<char>, z: Seq<char>| #[trigger]
            graph.depends(a, z) && !graph.defined(z) && e.message == undefined_message(a, z);
        assert(graph.depends(a, z) && !graph.defined(z));
    }
}

/// The names of `order` under which `graph` holds a fixture of the scope
/// `scope`, in their order.
pub open spec fn scoped_names(
    graph: GraphView,
    order: Seq<Seq<char>>,
    scope: FixtureScope,
) -> Seq<Seq<char>>
    decreases order.len(),
{
    if order.len() == 0 {
        Seq::empty()
    } else if graph.defined(order.last()) && graph.definitions[graph.names.index_of(
        order.last(),
    )].scope == scope {
        scoped_names(graph, order.drop_last(), scope).push(order.last())
    } else {
        scoped_names(graph, order.drop_last(), scope)
    }
}

/// The names `names` in reverse.
pub fn reversed(names: &Vec<String>) -> (r: Vec<String>)
    ensures
        texts(r@) == texts(names@).reverse(),
{
    let mut r: Vec<String> = Vec::new();
    let mut i: usize = names.len();
    while i > 0
        invariant
            i <= names.len(),
            r@.len() == names.len() - i,
            forall|k: int| 0 <= k < r@.len() ==> (#[trigger] r@[k])@ == names@[names.len() - 1 - k]@,
        decreases i,
    {
        i -= 1;
        r.push(names[i].clone());
    }
    assert(texts(r@) =~= texts(names@).reverse());
    r
}

/// A fixture's value, kept under the fixture's name.
pub struct StoredValue {
    pub name: String,
    pub value: FixtureValue,
}

/// The names under which `table` keeps values, in the order of the table.
pub open spec fn stored_names(table: Seq<StoredValue>) -> Seq<Seq<char>> {
    table.map_values(|s: StoredValue| s.name@)
}

/// The index in `table` of the value kept under `name`.
pub fn stored_index(table: &Vec<StoredValue>, name: &str) -> (r: Option<usize>)
    ensures
        match r {
            Some(i) => i < table.len() && stored_names(table@)[i as int] == name@ && forall|
                k: int,
            |
                0 <= k < i ==> stored_names(table@)[k] != name@,
            None => !stored_names(table@).contains(name@),
        },
{
    let mut i: usize = 0;
    while i < table.len()
        invariant
            i <= table.len(),
            forall|k: int| 0 <= k < i ==> stored_names(table@)[k] != name@,
        decreases table.len() - i,
    {
        if crate::text::str_eq(table[i].name.as_str(), name) {
            return Some(i);
        }
        i += 1;
    }
    None
}

/// The names of a table once a value is kept under `name`: as before where
/// the name was there, with the name at the end where it was not.
pub open spec fn names_with(names: Seq<Seq<char>>, name: Seq<char>) -> Seq<Seq<char>> {
    if names.contains(name) {
        names
    } else {
        names.push(name)
    }
}

/// Whether `table` keeps `value` under `name`.
pub open spec fn keeps(table: Seq<StoredValue>, name: Seq<char>, value: FixtureValue) -> bool {
    exists|i: int| 0 <= i < table.len() && (#[trigger] table[i]).name@ == name && table[i].value
        == value
}

/// Whether `table` holds the entry `stored`.
pub open spec fn holds(table: Seq<StoredValue>, stored: StoredValue) -> bool {
    exists|i: int| 0 <= i < table.len() && #[trigger] table[i] == stored
}

/// Whether the entry at `i` is the first that `table` keeps under `name`.
pub open spec fn first_stored(table: Seq<StoredValue>, name: Seq<char>, i: int) -> bool {
    &&& 0 <= i < table.len()
    &&& table[i].name@ == name
    &&& forall|k: int| 0 <= k < i ==> (#[trigger] table[k]).name@ != name
}

/// Keeps `value` under `name`: in the place of the value that was kept
/// under the name, or at the end of the table. What is kept under other
/// names stays where it is.
pub fn store_value(
    table: &mut Vec<StoredValue>,
    name: String,
    value: FixtureValue,
)
    ensures
        stored_names(final(table)@) == names_with(stored_names(old(table)@), name@),
        keeps(final(table)@, name@, value),
        final(table)@.len() >= old(table)@.len(),
        forall|j: int|
            0 <= j < old(table)@.len() && (#[trigger] old(table)@[j]).name@ != name@
                ==> final(table)@[j] == old(table)@[j],
        forall|j: int|
            0 <= j < final(table)@.len() ==> holds(old(table)@, #[trigger] final(table)@[j]) || (
            final(table)@[j].name@ == name@ && final(table)@[j].value == value),
{
    let ghost before = stored_names(table@);
    match stored_index(table, name.as_str()) {
        Some(i) => {
            table.set(i, StoredValue { name, value });
            assert(stored_names(table@) =~= before);
            assert(table@[i as int].name@ == name@ && table@[i as int].value == value);
            assert forall|j: int| 0 <= j < table@.len() implies holds(
                old(table)@,
                #[trigger] table@[j],
            ) || (table@[j].name@ == name@ && table@[j].value == value) by {
                if j != i {
                    assert(old(table)@[j] == table@[j]);
                }
            }
        },
        None => {
            table.push(StoredValue { name, value });
            assert(stored_names(table@) =~= before.push(name@));
            let ghost last = table@.len() - 1;
            assert(table@[last].name@ == name@ && table@[last].value == value);
            assert forall|j: int|
                0 <= j < old(table)@.len() && (#[trigger] old(table)@[j]).name@ != name@ implies
                table@[j] == old(table)@[j] by {}
            assert forall|j: int| 0 <= j < table@.len() implies holds(
                old(table)@,
                #[trigger] table@[j],
            ) || (table@[j].name@ == name@ && table@[j].value == value) by {
                if j != last {
                    assert(old(table)@[j] == table@[j]);
                }
            }
        },
    }
}

/// Whether the setup callback of the fixture at `k` of `plan` may give the
/// error `e` for `context`.
pub open spec fn setup_stopped_at(
    definitions: FixtureDependencyGraph,
    plan: Seq<Seq<char>>,
    context: TestContext,
    k: int,
    e: Error,
) -> bool {
    &&& 0 <= k < plan.len()
    &&& definitions@.defined(plan[k])
    &&& definitions.fixture(plan[k]).setup is Some
    &&& definitions.fixture(plan[k]).setup->0.may_give(context, Err(e))
}

/// Whether `table` keeps, for every registered fixture of `plan` that has
/// a setup callback, a value that the callback may give for `context`.
pub open spec fn values_given(
    definitions: FixtureDependencyGraph,
    table: Seq<StoredValue>,
    plan: Seq<Seq<char>>,
    context: TestContext,
) -> bool {
    forall|k: int|
        0 <= k < plan.len() && definitions@.defined(#[trigger] plan[k]) && definitions.fixture(
            plan[k],
        ).setup is Some ==> exists|v: FixtureValue| #[trigger]
            keeps(table, plan[k], v) && definitions.fixture(plan[k]).setup->0.may_give(
                context,
                Ok(v),
            )
}

/// Whether the setup callback of every registered fixture of `plan` that
/// has one may give a value for `context`.
pub open spec fn setups_gave(
    definitions: FixtureDependencyGraph,
    plan: Seq<Seq<char>>,
    context: TestContext,
) -> bool {
    forall|k: int|
        0 <= k < plan.len() && definitions@.defined(#[trigger] plan[k]) && definitions.fixture(
            plan[k],
        ).setup is Some ==> exists|v: FixtureValue| #[trigger]
            definitions.fixture(plan[k]).setup->0.may_give(context, Ok(v))
}

/// Where a table keeps a value that each setup callback may give, each
/// setup callback may give a value.
pub proof fn lemma_given_means_gave(
    definitions: FixtureDependencyGraph,
    table: Seq<StoredValue>,
    plan: Seq<Seq<char>>,
    context: TestContext,
)
    requires
        values_given(definitions, table, plan, context),
    ensures
        setups_gave(definitions, plan, context),
{
    assert forall|k: int|
        0 <= k < plan.len() && definitions@.defined(#[trigger] plan[k]) && definitions.fixture(
            plan[k],
        ).setup is Some implies exists|v: FixtureValue| #[trigger]
        definitions.fixture(plan[k]).setup->0.may_give(context, Ok(v)) by {
        let v = choose|v: FixtureValue| #[trigger]
            keeps(table, plan[k], v) && definitions.fixture(plan[k]).setup->0.may_give(
                context,
                Ok(v),
            );
        assert(definitions.fixture(plan[k]).setup->0.may_give(context, Ok(v)));
    }
}

/// Whether the teardown of the entry `stored` may end with `failure` when
/// it is given the entry's value and `context`; where the fixture has no
/// teardown callback there is no failure.
pub open spec fn value_released(
    definitions: FixtureDependencyGraph,
    stored: StoredValue,
    context: TestContext,
    failure: Option<Error>,
) -> bool {
    if definitions@.defined(stored.name@) && definitions.fixture(stored.name@).teardown is Some {
        definitions.fixture(stored.name@).teardown->0.may_end(stored.value, context, failure)
    } else {
        failure is None
    }
}

/// Whether every entry of `before` is still in `after` or was released
/// without a failure.
pub open spec fn released_quietly(
    definitions: FixtureDependencyGraph,
    before: Seq<StoredValue>,
    after: Seq<StoredValue>,
    context: TestContext,
) -> bool {
    forall|i: int|
        0 <= i < before.len() ==> holds(after, #[trigger] before[i]) || value_released(
            definitions,
            before[i],
            context,
            None,
        )
}

/// Whether the teardown stopped at the entry `stored` of `before` with the
/// error `e`: the entry was kept under the name at `k - 1` of `plan`, its
/// release may end with `e`, and every other entry of `before` is still in
/// `after` or was released without a failure.
pub open spec fn release_stopped_at(
    definitions: FixtureDependencyGraph,
    before: Seq<StoredValue>,
    after: Seq<StoredValue>,
    plan: Seq<Seq<char>>,
    context: TestContext,
    k: int,
    stored: StoredValue,
    e: Error,
) -> bool {
    &&& 0 < k <= plan.len()
    &&& holds(before, stored)
    &&& stored.name@ == plan[k - 1]
    &&& definitions@.defined(stored.name@)
    &&& definitions.fixture(stored.name@).teardown is Some
    &&& value_released(definitions, stored, context, Some(e))
    &&& forall|i: int|
        0 <= i < before.len() ==> holds(after, #[trigger] before[i]) || before[i] == stored
            || value_released(definitions, before[i], context, None)
}

/// Whether none of the registered fixtures `plan` has a setup callback.
pub open spec fn no_setup(graph: GraphView, plan: Seq<Seq<char>>) -> bool {
    forall|k: int|
        0 <= k < plan.len() && graph.defined(#[trigger] plan[k])
            ==> !graph.definitions[graph.names.index_of(plan[k])].has_setup
}

/// Whether none of the registered fixtures `plan` has a teardown callback.
pub open spec fn no_teardown(graph: GraphView, plan: Seq<Seq<char>>) -> bool {
    forall|k: int|
        0 <= k < plan.len() && graph.defined(#[trigger] plan[k])
            ==> !graph.definitions[graph.names.index_of(plan[k])].has_teardown
}

/// The names of a table once the fixtures of `plan` that have a setup
/// callback are set up, in the order of the plan.
pub open spec fn set_up(graph: GraphView, names: Seq<Seq<char>>, plan: Seq<Seq<char>>) -> Seq<
    Seq<char>,
>
    decreases plan.len(),
{
    if plan.len() == 0 {
        names
    } else if graph.defined(plan.last()) && graph.definitions[graph.names.index_of(
        plan.last(),
    )].has_setup {
        names_with(set_up(graph, names, plan.drop_last()), plan.last())
    } else {
        set_up(graph, names, plan.drop_last())
    }
}

/// The names of a table once the value kept under `name` is taken out: the
/// first of its name, where there are more.
pub open spec fn names_without(names: Seq<Seq<char>>, name: Seq<char>) -> Seq<Seq<char>> {
    if names.contains(name) {
        names.remove(
            choose|i: int|
                0 <= i < names.len() && names[i] == name && forall|k: int|
                    0 <= k < i ==> names[k] != name,
        )
    } else {
        names
    }
}

/// The names of a table once the values of the registered fixtures of
/// `plan` are taken out, in the order of the plan.
pub open spec fn torn_down(graph: GraphView, names: Seq<Seq<char>>, plan: Seq<Seq<char>>) -> Seq<
    Seq<char>,
>
    decreases plan.len(),
{
    if plan.len() == 0 {
        names
    } else if graph.defined(plan.last()) {
        names_without(torn_down(graph, names, plan.drop_last()), plan.last())
    } else {
        torn_down(graph, names, plan.drop_last())
    }
}

/// Taking out the value at the first index of a name gives
/// [`names_without`].
pub proof fn lemma_names_without(names: Seq<Seq<char>>, name: Seq<char>, at: int)
    requires
        0 <= at < names.len(),
        names[at] == name,
        forall|k: int| 0 <= k < at ==> names[k] != name,
    ensures
        names_without(names, name) == names.remove(at),
{
    assert(names.contains(name));
    let i = choose|i: int|
        0 <= i < names.len() && names[i] == name && forall|k: int| 0 <= k < i ==> names[k] != name;
    assert(i == at);
}

/// The mathematical content of a [`FixtureRegistry`].
pub ghost struct RegistryView {
    pub graph: GraphView,
    /// The names of the suite fixtures that hold a value.
    pub suite_instances: Seq<Seq<char>>,
    /// The names of the test fixtures that hold a value.
    pub test_instances: Seq<Seq<char>>,
}

/// The fixtures of one suite, with the values of those that are set up.
pub struct FixtureRegistry {
    graph: FixtureDependencyGraph,
    suite_instances: Vec<StoredValue>,
    test_instances: Vec<StoredValue>,
}

impl View for FixtureRegistry {
    type V = RegistryView;

    closed spec fn view(&self) -> RegistryView {
        RegistryView {
            graph: self.graph@,
            suite_instances: stored_names(self.suite_instances@),
            test_instances: stored_names(self.test_instances@),
        }
    }
}

impl FixtureRegistry {
    /// The graph of the registry is well formed.
    pub closed spec fn wf(&self) -> bool {
        self.graph.wf()
    }

    /// The registered fixtures, with their callbacks.
    pub closed spec fn registered(&self) -> FixtureDependencyGraph {
        self.graph
    }

    /// The values of the suite's fixtures, each under its fixture's name.
    pub closed spec fn suite_values(&self) -> Seq<StoredValue> {
        self.suite_instances@
    }

    /// The values of the test's fixtures, each under its fixture's name.
    pub closed spec fn test_values(&self) -> Seq<StoredValue> {
        self.test_instances@
    }

    /// The content of the registry names the registered fixtures and the
    /// values that are kept.
    pub proof fn lemma_view(&self)
        ensures
            self.registered()@ == self@.graph,
            self.registered().wf() == self.wf(),
            stored_names(self.suite_values()) == self@.suite_instances,
            stored_names(self.test_values()) == self@.test_instances,
    {
    }

    /// A registry without fixtures and without values.
    pub fn new() -> (r: Self)
        ensures
            r.wf(),
            r@ == (RegistryView {
                graph: GraphView {
                    names: Seq::empty(),
                    deps: Seq::empty(),
                    definitions: Seq::empty(),
                },
                suite_instances: Seq::empty(),
                test_instances: Seq::empty(),
            }),
    {
        let r = FixtureRegistry {
            graph: FixtureDependencyGraph::new(),
            suite_instances: Vec::new(),
            test_instances: Vec::new(),
        };
        assert(stored_names(r.suite_instances@) =~= Seq::empty());
        assert(stored_names(r.test_instances@) =~= Seq::empty());
        r
    }

    /// Registers a fixture; see [`FixtureDependencyGraph::add_fixture`].
    pub fn register_fixture(&mut self, fixture: FixtureDefinition)
        requires
            old(self).wf(),
        ensures
            final(self).wf(),
            final(self)@ == (RegistryView {
                graph: old(self)@.graph.with_fixture(fixture@),
                ..old(self)@
            }),
            final(self).registered().fixture(fixture.name@) == fixture,
            forall|n: Seq<char>|
                old(self)@.graph.defined(n) && n != fixture.name@
                    ==> #[trigger] final(self).registered().fixture(n)
                    == old(self).registered().fixture(n),
            final(self).suite_values() == old(self).suite_values(),
            final(self).test_values() == old(self).test_values(),
    {
        self.graph.add_fixture(fixture);
    }

    /// The fixtures of the scope `scope` in the order in which they are set
    /// up: the order of [`FixtureDependencyGraph::resolve_order`], cut down
    /// to the scope.
    pub fn setup_plan(&self, scope: FixtureScope) -> (r: Result<
        Vec<String>,
        Error,
    >)
        requires
            self.wf(),
        ensures
            r is Ok <==> !self@.graph.has_cycle() && !self@.graph.has_undefined(),
            match r {
                Ok(plan) => self@.graph.resolution().failure is None && texts(plan@)
                    == self@.graph.setup_names(scope) && self@.graph.is_resolution(
                    self@.graph.resolution().done,
                ),
                Err(e) => is_resolution_error(self@.graph, e@) && self@.graph.resolution().failure
                    == Some(e@),
            },
    {
        let order = self.graph.resolve_order()?;
        let mut plan: Vec<String> = Vec::new();
        let mut i: usize = 0;
        let ghost names = texts(order@);
        assert(names.take(0) =~= Seq::empty());
        assert(texts(plan@) =~= Seq::empty());
        while i < order.len()
            invariant
                self.wf(),
                i <= order.len(),
                names == texts(order@),
                self@.graph.is_resolution(names),
                texts(plan@) == scoped_names(self@.graph, names.take(i as int), scope),
            decreases order.len() - i,
        {
            let ghost had = texts(plan@);
            proof {
                assert(names.take(i + 1).drop_last() =~= names.take(i as int));
                assert(names.take(i + 1).last() == order@[i as int]@);
            }
            match self.graph.get_fixture(order[i].as_str()) {
                Some(fixture) => {
                    if fixture.scope == scope {
                        plan.push(order[i].clone());
                        assert(texts(plan@) =~= had.push(order@[i as int]@));
                    }
                },
                None => {},
            }
            i += 1;
        }
        assert(names.take(i as int) =~= names);
        Ok(plan)
    }

    /// The fixtures of the scope `scope` in the order in which they are torn
    /// down: the reverse of the order in which they are set up.
    pub fn teardown_plan(&self, scope: FixtureScope) -> (r: Result<
        Vec<String>,
        Error,
    >)
        requires
            self.wf(),
        ensures
            r is Ok <==> !self@.graph.has_cycle() && !self@.graph.has_undefined(),
            match r {
                Ok(plan) => self@.graph.resolution().failure is None && texts(plan@)
                    == self@.graph.teardown_names(scope),
                Err(e) => is_resolution_error(self@.graph, e@) && self@.graph.resolution().failure
                    == Some(e@),
            },
    {
        match self.setup_plan(scope) {
            Ok(plan) => Ok(reversed(&plan)),
            Err(e) => Err(e),
        }
    }

    fn setup_scope(
        graph: &FixtureDependencyGraph,
        table: &mut Vec<StoredValue>,
        plan: &Vec<String>,
        context: &TestContext,
    ) -> (r: Result<(), Error>)
        requires
            graph.wf(),
        ensures
            r is Ok ==> stored_names(final(table)@) == set_up(
                graph@,
                stored_names(old(table)@),
                texts(plan@),
            ),
            r is Ok ==> values_given(*graph, final(table)@, texts(plan@), *context),
            r is Err ==> exists|k: int|
                setup_stopped_at(*graph, texts(plan@), *context, k, r->Err_0) && stored_names(
                    final(table)@,
                ) == #[trigger] set_up(graph@, stored_names(old(table)@), texts(plan@).take(k))
                    && values_given(*graph, final(table)@, texts(plan@).take(k), *context),
            no_setup(graph@, texts(plan@)) ==> r is Ok,
    {
        let mut i: usize = 0;
        let ghost names = texts(plan@);
        assert(names.take(0) =~= Seq::empty());
        while i < plan.len()
            invariant
                graph.wf(),
                i <= plan.len(),
                names == texts(plan@),
                stored_names(table@) == set_up(
                    graph@,
                    stored_names(old(table)@),
                    names.take(i as int),
                ),
                values_given(*graph, table@, names.take(i as int), *context),
            decreases plan.len() - i,
        {
            proof {
                assert(names.take(i + 1).drop_last() =~= names.take(i as int));
                assert(names.take(i + 1).last() == plan@[i as int]@);
            }
            let ghost entered = table@;
            match graph.get_fixture(plan[i].as_str()) {
                Some(fixture) => match &fixture.setup {
                    Some(setup_fn) => {
                        assert(graph@.defined(names[i as int]));
                        let value = match setup_fn.exec(context) {
                            Ok(value) => value,
                            Err(e) => {
                                assert(setup_stopped_at(*graph, names, *context, i as int, e));
                                return Err(e);
                            },
                        };
                        store_value(table, plan[i].clone(), value);
                        proof {
                            let done = names.take(i as int);
                            let more = names.take(i + 1);
                            assert forall|k: int|
                                0 <= k < more.len() && graph@.defined(#[trigger] more[k])
                                    && graph.fixture(more[k]).setup is Some implies exists|
                                v: FixtureValue,
                            | #[trigger]
                                keeps(table@, more[k], v) && graph.fixture(
                                    more[k],
                                ).setup->0.may_give(*context, Ok(v)) by {
                                if more[k] == names[i as int] {
                                    assert(keeps(table@, more[k], value));
                                } else {
                                    assert(k < i);
                                    assert(done[k] == more[k]);
                                    let v = choose|v: FixtureValue| #[trigger]
                                        keeps(entered, done[k], v) && graph.fixture(
                                            done[k],
                                        ).setup->0.may_give(*context, Ok(v));
                                    let at = choose|at: int|
                                        0 <= at < entered.len() && (#[trigger] entered[at]).name@
                                            == done[k] && entered[at].value == v;
                                    assert(table@[at] == entered[at]);
                                    assert(keeps(table@, more[k], v));
                                }
                            }
                        }
                    },
                    None => {
                        proof {
                            let done = names.take(i as int);
                            let more = names.take(i + 1);
                            assert forall|k: int|
                                0 <= k < more.len() && graph@.defined(#[trigger] more[k])
                                    && graph.fixture(more[k]).setup is Some implies exists|
                                v: FixtureValue,
                            | #[trigger]
                                keeps(table@, more[k], v) && graph.fixture(
                                    more[k],
                                ).setup->0.may_give(*context, Ok(v)) by {
                                if more[k] != names[i as int] {
                                    assert(done[k] == more[k]);
                                }
                            }
                        }
                    },
                },
                None => {
                    proof {
                        let done = names.take(i as int);
                        let more = names.take(i + 1);
                        assert forall|k: int|
                            0 <= k < more.len() && graph@.defined(#[trigger] more[k])
                                && graph.fixture(more[k]).setup is Some implies exists|
                            v: FixtureValue,
                        | #[trigger]
                            keeps(table@, more[k], v) && graph.fixture(more[k]).setup->0.may_give(
                                *context,
                                Ok(v),
                            ) by {
                            if more[k] != names[i as int] {
                                assert(done[k] == more[k]);
                            }
                        }
                    }
                },
            }
            i += 1;
        }
        assert(names.take(i as int) =~= names);
        Ok(())
    }

    fn teardown_scope(
        graph: &FixtureDependencyGraph,
        table: &mut Vec<StoredValue>,
        plan: &Vec<String>,
        context: &TestContext,
    ) -> (r: Result<(), Error>)
        requires
            graph.wf(),
        ensures
            r is Ok ==> stored_names(final(table)@) == torn_down(
                graph@,
                stored_names(old(table)@),
                texts(plan@),
            ),
            r is Ok ==> released_quietly(*graph, old(table)@, final(table)@, *context),
            r is Err ==> exists|k: int|
                0 < k <= plan@.len() && stored_names(final(table)@) == #[trigger] torn_down(
                    graph@,
                    stored_names(old(table)@),
                    texts(plan@).take(k),
                ) && exists|stored: StoredValue| #[trigger]
                    release_stopped_at(
                        *graph,
                        old(table)@,
                        final(table)@,
                        texts(plan@),
                        *context,
                        k,
                        stored,
                        r->Err_0,
                    ),
            no_teardown(graph@, texts(plan@)) ==> r is Ok,
    {
        let mut i: usize = 0;
        let ghost names = texts(plan@);
        let ghost all = table@;
        assert(names.take(0) =~= Seq::empty());
        assert forall|k: int| 0 <= k < all.len() implies holds(table@, #[trigger] all[k]) by {
            assert(table@[k] == all[k]);
        }
        assert forall|k: int| 0 <= k < table@.len() implies holds(all, #[trigger] table@[k]) by {
            assert(all[k] == table@[k]);
        }
        while i < plan.len()
            invariant
                graph.wf(),
                i <= plan.len(),
                names == texts(plan@),
                all == old(table)@,
                stored_names(table@) == torn_down(
                    graph@,
                    stored_names(old(table)@),
                    names.take(i as int),
                ),
                released_quietly(*graph, all, table@, *context),
                forall|k: int| 0 <= k < table@.len() ==> holds(all, #[trigger] table@[k]),
            decreases plan.len() - i,
        {
            proof {
                assert(names.take(i + 1).drop_last() =~= names.take(i as int));
                assert(names.take(i + 1).last() == plan@[i as int]@);
            }
            let ghost before = stored_names(table@);
            let ghost entered = table@;
            match graph.get_fixture(plan[i].as_str()) {
                Some(fixture) => match stored_index(table, plan[i].as_str()) {
                    Some(at) => {
                        proof {
                            lemma_names_without(before, plan@[i as int]@, at as int);
                        }
                        let stored = table.remove(at);
                        assert(stored_names(table@) =~= before.remove(at as int));
                        assert(stored == entered[at as int]);
                        assert(stored.name@ == names[i as int]);
                        assert(holds(all, entered[at as int]));
                        proof {
                            assert forall|k: int| 0 <= k < table@.len() implies holds(
                                all,
                                #[trigger] table@[k],
                            ) by {
                                if k < at {
                                    assert(table@[k] == entered[k]);
                                } else {
                                    assert(table@[k] == entered[k + 1]);
                                }
                            }
                            assert forall|j: int| 0 <= j < all.len() implies holds(
                                table@,
                                #[trigger] all[j],
                            ) || all[j] == stored || value_released(
                                *graph,
                                all[j],
                                *context,
                                None,
                            ) by {
                                if holds(entered, all[j]) {
                                    let w = choose|w: int|
                                        0 <= w < entered.len() && #[trigger] entered[w] == all[j];
                                    if w < at {
                                        assert(table@[w] == entered[w]);
                                    } else if w > at {
                                        assert(table@[w - 1] == entered[w]);
                                    }
                                }
                            }
                        }
                        match &fixture.teardown {
                            Some(teardown_fn) => {
                                match teardown_fn.exec(stored.value, context) {
                                    Ok(()) => {},
                                    Err(e) => {
                                        assert(graph@.defined(names[i as int]));
                                        assert(stored_names(table@) == torn_down(
                                            graph@,
                                            stored_names(old(table)@),
                                            names.take(i + 1),
                                        ));
                                        assert(release_stopped_at(
                                            *graph,
                                            all,
                                            table@,
                                            names,
                                            *context,
                                            i + 1,
                                            stored,
                                            e,
                                        ));
                                        return Err(e);
                                    },
                                }
                            },
                            None => {},
                        }
                        assert(value_released(*graph, stored, *context, None));
                    },
                    None => {},
                },
                None => {},
            }
            i += 1;
        }
        assert(names.take(i as int) =~= names);
        Ok(())
    }

    /// Sets up the suite's fixtures in the order of the plan, each by its
    /// setup callback, and keeps their values. It stops at the first
    /// callback that fails and hands on its error. Fixtures that cannot be
    /// put in an order are an error before any callback runs.
    pub fn setup_suite_fixtures(&mut self, test_context: &TestContext) -> (r: Result<
        (),
        Error,
    >)
        requires
            old(self).wf(),
        ensures
            final(self).wf(),
            final(self)@.graph == old(self)@.graph,
            final(self)@.test_instances == old(self)@.test_instances,
            r is Ok ==> final(self)@.suite_instances == set_up(
                old(self)@.graph,
                old(self)@.suite_instances,
                old(self)@.graph.setup_names(FixtureScope::Suite),
            ),
            old(self)@.graph.resolution().failure is None && no_setup(
                old(self)@.graph,
                old(self)@.graph.setup_names(FixtureScope::Suite),
            ) ==> r is Ok,
            r is Err && old(self)@.graph.resolution().failure is None ==> exists|k: int|
                setup_stopped_at(
                    old(self).registered(),
                    old(self)@.graph.setup_names(FixtureScope::Suite),
                    *test_context,
                    k,
                    r->Err_0,
                ) && final(self)@.suite_instances == #[trigger] set_up(
                    old(self)@.graph,
                    old(self)@.suite_instances,
                    old(self)@.graph.setup_names(FixtureScope::Suite).take(k),
                ) && values_given(
                    old(self).registered(),
                    final(self).suite_values(),
                    old(self)@.graph.setup_names(FixtureScope::Suite).take(k),
                    *test_context,
                ),
            r is Ok ==> values_given(
                old(self).registered(),
                final(self).suite_values(),
                old(self)@.graph.setup_names(FixtureScope::Suite),
                *test_context,
            ),
            final(self).registered() == old(self).registered(),
            old(self)@.graph.resolution().failure is None <==> !old(self)@.graph.has_cycle()
                && !old(self)@.graph.has_undefined(),
            final(self).test_values() == old(self).test_values(),
            r is Err && old(self)@.graph.resolution().failure is Some ==> final(self).suite_values()
                == old(self).suite_values(),
            old(self)@.graph.has_cycle() || old(self)@.graph.has_undefined() ==> r is Err
                && is_resolution_error(old(self)@.graph, r->Err_0@) && final(self)@ == old(self)@,
    {
        let plan = self.setup_plan(FixtureScope::Suite)?;
        let ghost before = self@.suite_instances;
        let r = Self::setup_scope(&self.graph, &mut self.suite_instances, &plan, test_context);
        proof {
            if r is Err {
                let k = choose|k: int|
                    setup_stopped_at(self.graph, texts(plan@), *test_context, k, r->Err_0)
                        && stored_names(self.suite_instances@) == #[trigger] set_up(
                        self.graph@,
                        before,
                        texts(plan@).take(k),
                    ) && values_given(
                        self.graph,
                        self.suite_instances@,
                        texts(plan@).take(k),
                        *test_context,
                    );
                assert(self@.suite_instances == set_up(self@.graph, before, texts(plan@).take(k)));
            }
        }
        r
    }

    /// Sets up the fixtures of a test; see [`Self::setup_suite_fixtures`].
    pub fn setup_test_fixtures(&mut self, test_context: &TestContext) -> (r: Result<
        (),
        Error,
    >)
        requires
            old(self).wf(),
        ensures
            final(self).wf(),
            final(self)@.graph == old(self)@.graph,
            final(self)@.suite_instances == old(self)@.suite_instances,
            r is Ok ==> final(self)@.test_instances == set_up(
                old(self)@.graph,
                old(self)@.test_instances,
                old(self)@.graph.setup_names(FixtureScope::Test),
            ),
            old(self)@.graph.resolution().failure is None && no_setup(
                old(self)@.graph,
                old(self)@.graph.setup_names(FixtureScope::Test),
            ) ==> r is Ok,
            r is Err && old(self)@.graph.resolution().failure is None ==> exists|k: int|
                setup_stopped_at(
                    old(self).registered(),
                    old(self)@.graph.setup_names(FixtureScope::Test),
                    *test_context,
                    k,
                    r->Err_0,
                ) && final(self)@.test_instances == #[trigger] set_up(
                    old(self)@.graph,
                    old(self)@.test_instances,
                    old(self)@.graph.setup_names(FixtureScope::Test).take(k),
                ) && values_given(
                    old(self).registered(),
                    final(self).test_values(),
                    old(self)@.graph.setup_names(FixtureScope::Test).take(k),
                    *test_context,
                ),
            r is Ok ==> values_given(
                old(self).registered(),
                final(self).test_values(),
                old(self)@.graph.setup_names(FixtureScope::Test),
                *test_context,
            ),
            final(self).registered() == old(self).registered(),
            old(self)@.graph.resolution().failure is None <==> !old(self)@.graph.has_cycle()
                && !old(self)@.graph.has_undefined(),
            final(self).suite_values() == old(self).suite_values(),
            r is Err && old(self)@.graph.resolution().failure is Some ==> final(self).test_values()
                == old(self).test_values(),
            old(self)@.graph.has_cycle() || old(self)@.graph.has_undefined() ==> r is Err
                && is_resolution_error(old(self)@.graph, r->Err_0@) && final(self)@ == old(self)@,
    {
        let plan = self.setup_plan(FixtureScope::Test)?;
        let ghost before = self@.test_instances;
        let r = Self::setup_scope(&self.graph, &mut self.test_instances, &plan, test_context);
        proof {
            if r is Err {
                let k = choose|k: int|
                    setup_stopped_at(self.graph, texts(plan@), *test_context, k, r->Err_0)
                        && stored_names(self.test_instances@) == #[trigger] set_up(
                        self.graph@,
                        before,
                        texts(plan@).take(k),
                    ) && values_given(
                        self.graph,
                        self.test_instances@,
                        texts(plan@).take(k),
                        *test_context,
                    );
                assert(self@.test_instances == set_up(self@.graph, before, texts(plan@).take(k)));
            }
        }
        r
    }

    /// Tears down the fixtures of a test in the reverse of the order in
    /// which they are set up: the value of each is taken out and handed to
    /// its teardown callback. It stops at the first callback that fails and
    /// hands on its error.
    pub fn teardown_test_fixtures(&mut self, test_context: &TestContext) -> (r: Result<
        (),
        Error,
    >)
        requires
            old(self).wf(),
        ensures
            final(self).wf(),
            final(self)@.graph == old(self)@.graph,
            final(self)@.suite_instances == old(self)@.suite_instances,
            r is Ok ==> final(self)@.test_instances == torn_down(
                old(self)@.graph,
                old(self)@.test_instances,
                old(self)@.graph.teardown_names(FixtureScope::Test),
            ),
            old(self)@.graph.resolution().failure is None && no_teardown(
                old(self)@.graph,
                old(self)@.graph.teardown_names(FixtureScope::Test),
            ) ==> r is Ok,
            r is Err && old(self)@.graph.resolution().failure is None ==> exists|k: int|
                0 < k <= old(self)@.graph.teardown_names(FixtureScope::Test).len()
                    && final(self)@.test_instances == #[trigger] torn_down(
                    old(self)@.graph,
                    old(self)@.test_instances,
                    old(self)@.graph.teardown_names(FixtureScope::Test).take(k),
                ) && exists|stored: StoredValue| #[trigger]
                    release_stopped_at(
                        old(self).registered(),
                        old(self).test_values(),
                        final(self).test_values(),
                        old(self)@.graph.teardown_names(FixtureScope::Test),
                        *test_context,
                        k,
                        stored,
                        r->Err_0,
                    ),
            r is Ok ==> released_quietly(
                old(self).registered(),
                old(self).test_values(),
                final(self).test_values(),
                *test_context,
            ),
            final(self).registered() == old(self).registered(),
            old(self)@.graph.resolution().failure is None <==> !old(self)@.graph.has_cycle()
                && !old(self)@.graph.has_undefined(),
            final(self).suite_values() == old(self).suite_values(),
            r is Err && old(self)@.graph.resolution().failure is Some ==> final(self).test_values()
                == old(self).test_values(),
            old(self)@.graph.has_cycle() || old(self)@.graph.has_undefined() ==> r is Err
                && is_resolution_error(old(self)@.graph, r->Err_0@) && final(self)@ == old(self)@,
    {
        let plan = self.teardown_plan(FixtureScope::Test)?;
        let ghost before = self@.test_instances;
        let r = Self::teardown_scope(&self.graph, &mut self.test_instances, &plan, test_context);
        proof {
            if r is Err {
                let k = choose|k: int|
                    0 < k <= plan@.len() && stored_names(self.test_instances@) == #[trigger] torn_down(
                        self.graph@,
                        before,
                        texts(plan@).take(k),
                    ) && exists|stored: StoredValue| #[trigger]
                        release_stopped_at(
                            self.graph,
                            old(self).test_instances@,
                            self.test_instances@,
                            texts(plan@),
                            *test_context,
                            k,
                            stored,
                            r->Err_0,
                        );
                assert(self@.test_instances == torn_down(self@.graph, before, texts(plan@).take(k)));
                let stored = choose|stored: StoredValue| #[trigger]
                    release_stopped_at(
                        self.graph,
                        old(self).test_instances@,
                        self.test_instances@,
                        texts(plan@),
                        *test_context,
                        k,
                        stored,
                        r->Err_0,
                    );
                assert(release_stopped_at(
                    old(self).registered(),
                    old(self).test_values(),
                    self.test_values(),
                    old(self)@.graph.teardown_names(FixtureScope::Test),
                    *test_context,
                    k,
                    stored,
                    r->Err_0,
                ));
            }
        }
        r
    }

    /// Tears down the suite's fixtures; see [`Self::teardown_test_fixtures`].
    pub fn teardown_suite_fixtures(&mut self, test_context: &TestContext) -> (r:
        Result<(), Error>)
        requires
            old(self).wf(),
        ensures
            final(self).wf(),
            final(self)@.graph == old(self)@.graph,
            final(self)@.test_instances == old(self)@.test_instances,
            r is Ok ==> final(self)@.suite_instances == torn_down(
                old(self)@.graph,
                old(self)@.suite_instances,
                old(self)@.graph.teardown_names(FixtureScope::Suite),
            ),
            old(self)@.graph.resolution().failure is None && no_teardown(
                old(self)@.graph,
                old(self)@.graph.teardown_names(FixtureScope::Suite),
            ) ==> r is Ok,
            r is Err && old(self)@.graph.resolution().failure is None ==> exists|k: int|
                0 < k <= old(self)@.graph.teardown_names(FixtureScope::Suite).len()
                    && final(self)@.suite_instances == #[trigger] torn_down(
                    old(self)@.graph,
                    old(self)@.suite_instances,
                    old(self)@.graph.teardown_names(FixtureScope::Suite).take(k),
                ) && exists|stored: StoredValue| #[trigger]
                    release_stopped_at(
                        old(self).registered(),
                        old(self).suite_values(),
                        final(self).suite_values(),
                        old(self)@.graph.teardown_names(FixtureScope::Suite),
                        *test_context,
                        k,
                        stored,
                        r->Err_0,
                    ),
            r is Ok ==> released_quietly(
                old(self).registered(),
                old(self).suite_values(),
                final(self).suite_values(),
                *test_context,
            ),
            final(self).registered() == old(self).registered(),
            old(self)@.graph.resolution().failure is None <==> !old(self)@.graph.has_cycle()
                && !old(self)@.graph.has_undefined(),
            final(self).test_values() == old(self).test_values(),
            r is Err && old(self)@.graph.resolution().failure is Some ==> final(self).suite_values()
                == old(self).suite_values(),
            old(self)@.graph.has_cycle() || old(self)@.graph.has_undefined() ==> r is Err
                && is_resolution_error(old(self)@.graph, r->Err_0@) && final(self)@ == old(self)@,
    {
        let plan = self.teardown_plan(FixtureScope::Suite)?;
        let ghost before = self@.suite_instances;
        let r = Self::teardown_scope(&self.graph, &mut self.suite_instances, &plan, test_context);
        proof {
            if r is Err {
                let k = choose|k: int|
                    0 < k <= plan@.len() && stored_names(self.suite_instances@) == #[trigger] torn_down(
                        self.graph@,
                        before,
                        texts(plan@).take(k),
                    ) && exists|stored: StoredValue| #[trigger]
                        release_stopped_at(
                            self.graph,
                            old(self).suite_instances@,
                            self.suite_instances@,
                            texts(plan@),
                            *test_context,
                            k,
                            stored,
                            r->Err_0,
                        );
                assert(self@.suite_instances == torn_down(self@.graph, before, texts(plan@).take(k)));
                let stored = choose|stored: StoredValue| #[trigger]
                    release_stopped_at(
                        self.graph,
                        old(self).suite_instances@,
                        self.suite_instances@,
                        texts(plan@),
                        *test_context,
                        k,
                        stored,
                        r->Err_0,
                    );
                assert(release_stopped_at(
                    old(self).registered(),
                    old(self).suite_values(),
                    self.suite_values(),
                    old(self)@.graph.teardown_names(FixtureScope::Suite),
                    *test_context,
                    k,
                    stored,
                    r->Err_0,
                ));
            }
        }
        r
    }

    /// The value of the fixture `name`: the first that is kept under the
    /// name among the test's values, else the first among the suite's.
    pub fn get_fixture_instance(&self, name: &str) -> (r: Option<
        &FixtureValue,
    >)
        ensures
            r is Some <==> self@.test_instances.contains(name@) || self@.suite_instances.contains(
                name@,
            ),
            self@.test_instances.contains(name@) ==> r is Some && exists|i: int| #[trigger]
                    first_stored(self.test_values(), name@, i) && *r->0 == self.test_values()[i].value,
            !self@.test_instances.contains(name@) && self@.suite_instances.contains(name@) ==> r is Some
                && exists|i: int| #[trigger]
                    first_stored(self.suite_values(), name@, i) && *r->0
                        == self.suite_values()[i].value,
    {
        match stored_index(&self.test_instances, name) {
            Some(i) => {
                assert(first_stored(self.test_values(), name@, i as int)) by {
                    assert forall|k: int| 0 <= k < i implies (#[trigger] self.test_values()[k]).name@
                        != name@ by {
                        assert(stored_names(self.test_instances@)[k] != name@);
                    }
                    assert(stored_names(self.test_instances@)[i as int] == name@);
                }
                Some(&self.test_instances[i].value)
            },
            None => match stored_index(&self.suite_instances, name) {
                Some(i) => {
                    assert(first_stored(self.suite_values(), name@, i as int)) by {
                        assert forall|k: int| 0 <= k < i implies (#[trigger] self.suite_values()[k]).name@
                            != name@ by {
                            assert(stored_names(self.suite_instances@)[k] != name@);
                        }
                        assert(stored_names(self.suite_instances@)[i as int] == name@);
                    }
                    Some(&self.suite_instances[i].value)
                },
                None => None,
            },
        }
    }
}

} // verus!
