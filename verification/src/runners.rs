//! The configuration of a run and the result that a run adds up to.

use vstd::prelude::*;
use crate::clock::{elapsed_between, elapsed_millis, now_millis};
use crate::error::{Error, ErrorKind, ErrorView, opt_error_view};
use crate::ids::new_id;
use crate::suite::{SuiteResult, SuiteResultView, TestSuite, lemma_suite_total_is_sum};
use crate::json::json_clone;
use crate::text::{
    clone_opt_string, clone_strings, contains, opt_text, str_contains, str_eq, strings_contain,
    texts,
};

verus! {

/// How a run is to be carried out.
#[derive(Debug)]
pub struct RunnerConfig {
    /// The number of suites that may run at once. Suites run one after the
    /// other whatever this says.
    pub max_concurrent_suites: Option<usize>,
    /// The time a test may take, in milliseconds.
    pub default_test_timeout: Option<u64>,
    /// The time a suite may take, in milliseconds.
    pub default_suite_timeout: Option<u64>,
    /// Stop after the first suite that did not pass.
    pub fail_fast: bool,
    pub parallel: bool,
    pub include_patterns: Vec<String>,
    pub exclude_patterns: Vec<String>,
    pub include_tags: Vec<String>,
    pub exclude_tags: Vec<String>,
    pub include_categories: Vec<String>,
    pub exclude_categories: Vec<String>,
    pub output_dir: Option<String>,
    pub capture_output: bool,
    /// The environment variables for the binaries of the run: each name
    /// with its value, in the order in which the names were first set.
    pub env: Vec<(String, String)>,
    /// Settings that the library does not read, each under its name.
    pub custom: Vec<(String, serde_json::Value)>,
}

/// The variables `env`, each name and value by its characters.
pub open spec fn env_view(env: Seq<(String, String)>) -> Seq<(Seq<char>, Seq<char>)> {
    env.map_values(|p: (String, String)| (p.0@, p.1@))
}

/// The settings `custom`, each name by its characters.
pub open spec fn custom_view(custom: Seq<(String, serde_json::Value)>) -> Seq<
    (Seq<char>, serde_json::Value),
> {
    custom.map_values(|p: (String, serde_json::Value)| (p.0@, p.1))
}

/// Whether the variable at `i` is the first of `env` with the name `key`.
pub open spec fn first_under(env: Seq<(Seq<char>, Seq<char>)>, key: Seq<char>, i: int) -> bool {
    &&& 0 <= i < env.len()
    &&& env[i].0 == key
    &&& forall|k: int| 0 <= k < i ==> (#[trigger] env[k]).0 != key
}

/// The variables `env` with `key` set to `value`: in the place of the
/// first variable of that name, or at the end where there is none.
pub open spec fn env_with(env: Seq<(Seq<char>, Seq<char>)>, key: Seq<char>, value: Seq<char>) -> Seq<
    (Seq<char>, Seq<char>),
> {
    if exists|i: int| first_under(env, key, i) {
        env.update(choose|i: int| first_under(env, key, i), (key, value))
    } else {
        env.push((key, value))
    }
}

/// A copy of `env` that holds the same names and values.
pub fn clone_env(env: &Vec<(String, String)>) -> (r: Vec<(String, String)>)
    ensures
        env_view(r@) == env_view(env@),
{
    let mut r: Vec<(String, String)> = Vec::new();
    let mut i: usize = 0;
    while i < env.len()
        invariant
            i <= env.len(),
            r@.len() == i,
            forall|k: int|
                0 <= k < i ==> (#[trigger] r@[k]).0@ == env@[k].0@ && r@[k].1@ == env@[k].1@,
        decreases env.len() - i,
    {
        r.push((env[i].0.clone(), env[i].1.clone()));
        i += 1;
    }
    assert(env_view(r@) =~= env_view(env@));
    r
}

/// A copy of `custom` that holds the same names and equal documents.
pub fn clone_custom(custom: &Vec<(String, serde_json::Value)>) -> (r: Vec<
    (String, serde_json::Value),
>)
    ensures
        custom_view(r@) == custom_view(custom@),
{
    let mut r: Vec<(String, serde_json::Value)> = Vec::new();
    let mut i: usize = 0;
    while i < custom.len()
        invariant
            i <= custom.len(),
            r@.len() == i,
            forall|k: int|
                0 <= k < i ==> (#[trigger] r@[k]).0@ == custom@[k].0@ && r@[k].1 == custom@[k].1,
        decreases custom.len() - i,
    {
        r.push((custom[i].0.clone(), json_clone(&custom[i].1)));
        i += 1;
    }
    assert(custom_view(r@) =~= custom_view(custom@));
    r
}

impl Default for RunnerConfig {
    fn default() -> (r: Self)
        ensures
            r.max_concurrent_suites == Some(4usize),
            r.default_test_timeout == Some(30_000u64),
            r.default_suite_timeout == Some(300_000u64),
            !r.fail_fast,
            r.parallel,
            r.include_patterns@.len() == 0,
            r.exclude_patterns@.len() == 0,
            r.include_tags@.len() == 0,
            r.exclude_tags@.len() == 0,
            r.include_categories@.len() == 0,
            r.exclude_categories@.len() == 0,
            r.output_dir is None,
            r.capture_output,
            r.env@.len() == 0,
            r.custom@.len() == 0,
            r@ == RunnerConfigView::standard(),
    {
        let r = RunnerConfig {
            max_concurrent_suites: Some(4),
            default_test_timeout: Some(30_000),
            default_suite_timeout: Some(300_000),
            fail_fast: false,
            parallel: true,
            include_patterns: Vec::new(),
            exclude_patterns: Vec::new(),
            include_tags: Vec::new(),
            exclude_tags: Vec::new(),
            include_categories: Vec::new(),
            exclude_categories: Vec::new(),
            output_dir: None,
            capture_output: true,
            env: Vec::new(),
            custom: Vec::new(),
        };
        assert(r@ =~= RunnerConfigView::standard()) by {
            assert(texts(r.include_patterns@) =~= Seq::empty());
            assert(texts(r.exclude_patterns@) =~= Seq::empty());
            assert(texts(r.include_tags@) =~= Seq::empty());
            assert(texts(r.exclude_tags@) =~= Seq::empty());
            assert(texts(r.include_categories@) =~= Seq::empty());
            assert(texts(r.exclude_categories@) =~= Seq::empty());
            assert(env_view(r.env@) =~= Seq::empty());
            assert(custom_view(r.custom@) =~= Seq::empty());
        }
        r
    }
}

impl Clone for RunnerConfig {
    fn clone(&self) -> (r: Self)
        ensures
            r@ == self@,
    {
        RunnerConfig {
            max_concurrent_suites: self.max_concurrent_suites,
            default_test_timeout: self.default_test_timeout,
            default_suite_timeout: self.default_suite_timeout,
            fail_fast: self.fail_fast,
            parallel: self.parallel,
            include_patterns: clone_strings(&self.include_patterns),
            exclude_patterns: clone_strings(&self.exclude_patterns),
            include_tags: clone_strings(&self.include_tags),
            exclude_tags: clone_strings(&self.exclude_tags),
            include_categories: clone_strings(&self.include_categories),
            exclude_categories: clone_strings(&self.exclude_categories),
            output_dir: clone_opt_string(&self.output_dir),
            capture_output: self.capture_output,
            env: clone_env(&self.env),
            custom: clone_custom(&self.custom),
        }
    }
}

/// The mathematical content of a [`RunnerConfig`].
pub ghost struct RunnerConfigView {
    pub max_concurrent_suites: Option<usize>,
    pub default_test_timeout: Option<u64>,
    pub default_suite_timeout: Option<u64>,
    pub fail_fast: bool,
    pub parallel: bool,
    pub include_patterns: Seq<Seq<char>>,
    pub exclude_patterns: Seq<Seq<char>>,
    pub include_tags: Seq<Seq<char>>,
    pub exclude_tags: Seq<Seq<char>>,
    pub include_categories: Seq<Seq<char>>,
    pub exclude_categories: Seq<Seq<char>>,
    pub output_dir: Option<Seq<char>>,
    pub capture_output: bool,
    pub env: Seq<(Seq<char>, Seq<char>)>,
    pub custom: Seq<(Seq<char>, serde_json::Value)>,
}

impl RunnerConfigView {
    /// The configuration of a run for which nothing is given: four suites
    /// at once, thirty seconds for a test and five minutes for a suite, no
    /// stop at the first failure, nothing left out, no directory for
    /// reports, and output that is captured.
    pub open spec fn standard() -> RunnerConfigView {
        RunnerConfigView {
            max_concurrent_suites: Some(4usize),
            default_test_timeout: Some(30_000u64),
            default_suite_timeout: Some(300_000u64),
            fail_fast: false,
            parallel: true,
            include_patterns: Seq::empty(),
            exclude_patterns: Seq::empty(),
            include_tags: Seq::empty(),
            exclude_tags: Seq::empty(),
            include_categories: Seq::empty(),
            exclude_categories: Seq::empty(),
            output_dir: None,
            capture_output: true,
            env: Seq::empty(),
            custom: Seq::empty(),
        }
    }
}

impl View for RunnerConfig {
    type V = RunnerConfigView;

    open spec fn view(&self) -> RunnerConfigView {
        RunnerConfigView {
            max_concurrent_suites: self.max_concurrent_suites,
            default_test_timeout: self.default_test_timeout,
            default_suite_timeout: self.default_suite_timeout,
            fail_fast: self.fail_fast,
            parallel: self.parallel,
            include_patterns: texts(self.include_patterns@),
            exclude_patterns: texts(self.exclude_patterns@),
            include_tags: texts(self.include_tags@),
            exclude_tags: texts(self.exclude_tags@),
            include_categories: texts(self.include_categories@),
            exclude_categories: texts(self.exclude_categories@),
            output_dir: opt_text(self.output_dir),
            capture_output: self.capture_output,
            env: env_view(self.env@),
            custom: custom_view(self.custom@),
        }
    }
}

impl RunnerConfig {
    /// This configuration with one more pattern of names to include.
    pub fn include_pattern(self, pattern: &str) -> (r: Self)
        ensures
            r@ == (RunnerConfigView {
                include_patterns: self@.include_patterns.push(pattern@),
                ..self@
            }),
    {
        let mut r = self;
        r.include_patterns.push(pattern.to_owned());
        assert(texts(r.include_patterns@) =~= texts(self.include_patterns@).push(pattern@));
        r
    }

    /// This configuration with one more pattern of names to exclude.
    pub fn exclude_pattern(self, pattern: &str) -> (r: Self)
        ensures
            r@ == (RunnerConfigView {
                exclude_patterns: self@.exclude_patterns.push(pattern@),
                ..self@
            }),
    {
        let mut r = self;
        r.exclude_patterns.push(pattern.to_owned());
        assert(texts(r.exclude_patterns@) =~= texts(self.exclude_patterns@).push(pattern@));
        r
    }

    /// This configuration with one more tag to include.
    pub fn include_tag(self, tag: &str) -> (r: Self)
        ensures
            r@ == (RunnerConfigView { include_tags: self@.include_tags.push(tag@), ..self@ }),
    {
        let mut r = self;
        r.include_tags.push(tag.to_owned());
        assert(texts(r.include_tags@) =~= texts(self.include_tags@).push(tag@));
        r
    }

    /// This configuration with one more tag to exclude.
    pub fn exclude_tag(self, tag: &str) -> (r: Self)
        ensures
            r@ == (RunnerConfigView { exclude_tags: self@.exclude_tags.push(tag@), ..self@ }),
    {
        let mut r = self;
        r.exclude_tags.push(tag.to_owned());
        assert(texts(r.exclude_tags@) =~= texts(self.exclude_tags@).push(tag@));
        r
    }

    /// This configuration with `dir` as the directory for reports.
    pub fn output_dir(self, dir: &str) -> (r: Self)
        ensures
            r@ == (RunnerConfigView { output_dir: Some(dir@), ..self@ }),
    {
        let mut r = self;
        r.output_dir = Some(dir.to_owned());
        r
    }

    /// This configuration with another time that a test may take.
    pub fn default_test_timeout(self, timeout: u64) -> (r: Self)
        ensures
            r == (RunnerConfig { default_test_timeout: Some(timeout), ..self }),
    {
        let mut r = self;
        r.default_test_timeout = Some(timeout);
        r
    }

    /// This configuration with another time that a suite may take.
    pub fn default_suite_timeout(self, timeout: u64) -> (r: Self)
        ensures
            r == (RunnerConfig { default_suite_timeout: Some(timeout), ..self }),
    {
        let mut r = self;
        r.default_suite_timeout = Some(timeout);
        r
    }
}

impl RunnerConfig {
    /// The default configuration.
    pub fn new() -> (r: Self)
        ensures
            !r.fail_fast,
            r.include_patterns@.len() == 0,
            r.exclude_patterns@.len() == 0,
            r.include_tags@.len() == 0,
            r.exclude_tags@.len() == 0,
            r.include_categories@.len() == 0,
            r.exclude_categories@.len() == 0,
            r.env@.len() == 0,
            r.custom@.len() == 0,
            r@ == RunnerConfigView::standard(),
    {
        RunnerConfig::default()
    }

    /// This configuration with the environment variable `key` set to
    /// `value`: a variable of that name gets the new value where it stands;
    /// a new name is put after all others.
    pub fn env(self, key: &str, value: &str) -> (r: Self)
        ensures
            r@ == (RunnerConfigView { env: env_with(self@.env, key@, value@), ..self@ }),
    {
        let mut r = self;
        let ghost before = env_view(self.env@);
        let mut i: usize = 0;
        while i < r.env.len()
            invariant
                i <= r.env.len(),
                r == self,
                before == env_view(self.env@),
                forall|k: int| 0 <= k < i ==> (#[trigger] before[k]).0 != key@,
            decreases r.env.len() - i,
        {
            assert(before[i as int].0 == r.env@[i as int].0@);
            if str_eq(r.env[i].0.as_str(), key) {
                r.env.set(i, (key.to_owned(), value.to_owned()));
                proof {
                    assert(first_under(before, key@, i as int));
                    let at = choose|at: int| first_under(before, key@, at);
                    assert(at == i) by {
                        if at < i {
                            assert(before[at].0 != key@);
                        } else if at > i {
                            assert(before[i as int].0 != key@);
                        }
                    }
                    assert(env_view(r.env@) =~= before.update(i as int, (key@, value@)));
                }
                return r;
            }
            i += 1;
        }
        r.env.push((key.to_owned(), value.to_owned()));
        proof {
            assert forall|at: int| !first_under(before, key@, at) by {
                if 0 <= at < before.len() {
                    assert(before[at].0 != key@);
                }
            }
            assert(env_view(r.env@) =~= before.push((key@, value@)));
        }
        r
    }

    /// This configuration with fail-fast switched on or off.
    pub fn fail_fast(self, fail_fast: bool) -> (r: Self)
        ensures
            r == (RunnerConfig { fail_fast, ..self }),
    {
        let mut r = self;
        r.fail_fast = fail_fast;
        r
    }

    /// This configuration with parallel execution switched on or off.
    pub fn parallel(self, parallel: bool) -> (r: Self)
        ensures
            r == (RunnerConfig { parallel, ..self }),
    {
        let mut r = self;
        r.parallel = parallel;
        r
    }

    /// This configuration with another limit on the suites that run at once.
    pub fn max_concurrent_suites(self, max: usize) -> (r: Self)
        ensures
            r == (RunnerConfig { max_concurrent_suites: Some(max), ..self }),
    {
        let mut r = self;
        r.max_concurrent_suites = Some(max);
        r
    }
}

/// The tests of all of `suites`.
pub open spec fn sum_total(suites: Seq<SuiteResultView>) -> nat
    decreases suites.len(),
{
    if suites.len() == 0 {
        0
    } else {
        sum_total(suites.drop_last()) + suites.last().total_tests
    }
}

/// The passed tests of all of `suites`.
pub open spec fn sum_passed(suites: Seq<SuiteResultView>) -> nat
    decreases suites.len(),
{
    if suites.len() == 0 {
        0
    } else {
        sum_passed(suites.drop_last()) + suites.last().passed_tests
    }
}

/// The failed tests of all of `suites`.
pub open spec fn sum_failed(suites: Seq<SuiteResultView>) -> nat
    decreases suites.len(),
{
    if suites.len() == 0 {
        0
    } else {
        sum_failed(suites.drop_last()) + suites.last().failed_tests
    }
}

/// The skipped tests of all of `suites`.
pub open spec fn sum_skipped(suites: Seq<SuiteResultView>) -> nat
    decreases suites.len(),
{
    if suites.len() == 0 {
        0
    } else {
        sum_skipped(suites.drop_last()) + suites.last().skipped_tests
    }
}

/// How many of `suites` passed as a whole.
pub open spec fn passed_suite_count(suites: Seq<SuiteResultView>) -> nat
    decreases suites.len(),
{
    if suites.len() == 0 {
        0
    } else {
        passed_suite_count(suites.drop_last()) + if suites.last().all_passed() {
            1nat
        } else {
            0nat
        }
    }
}

/// A suite passes as a whole or it does not.
pub proof fn lemma_passed_suites_bounded(suites: Seq<SuiteResultView>)
    ensures
        passed_suite_count(suites) <= suites.len(),
    decreases suites.len(),
{
    if suites.len() > 0 {
        lemma_passed_suites_bounded(suites.drop_last());
    }
}

/// Where every suite's counters are true to its list, the tests of all
/// suites are the sum of the passed, the failed and the skipped ones.
pub proof fn lemma_sums_partition(suites: Seq<SuiteResultView>)
    requires
        forall|i: int| 0 <= i < suites.len() ==> (#[trigger] suites[i]).wf(),
    ensures
        sum_total(suites) == sum_passed(suites) + sum_failed(suites) + sum_skipped(suites),
    decreases suites.len(),
{
    if suites.len() > 0 {
        lemma_sums_partition(suites.drop_last());
        lemma_suite_total_is_sum(suites.last());
    }
}

/// The contents of each suite result of `v`.
pub open spec fn suite_views(v: Seq<SuiteResult>) -> Seq<SuiteResultView> {
    v.map_values(|r: SuiteResult| r@)
}

/// The outcome of a whole run.
#[derive(Debug)]
pub struct RunResult {
    pub id: uuid::Uuid,
    /// When the run began, in milliseconds since the Unix epoch.
    pub start_time: i64,
    /// When the run ended, in milliseconds since the Unix epoch.
    pub end_time: Option<i64>,
    /// How long the run took, in milliseconds.
    pub duration: Option<u64>,
    pub suite_results: Vec<SuiteResult>,
    pub config: RunnerConfig,
    pub total_suites: usize,
    pub passed_suites: usize,
    pub failed_suites: usize,
    pub skipped_suites: usize,
    pub total_tests: usize,
    pub passed_tests: usize,
    pub failed_tests: usize,
    pub skipped_tests: usize,
    pub error: Option<Error>,
}

/// The mathematical content of a [`RunResult`], but for its configuration.
pub ghost struct RunResultView {
    pub id: uuid::Uuid,
    pub start_time: i64,
    pub end_time: Option<i64>,
    pub duration: Option<u64>,
    pub suite_results: Seq<SuiteResultView>,
    pub total_suites: nat,
    pub passed_suites: nat,
    pub failed_suites: nat,
    pub skipped_suites: nat,
    pub total_tests: nat,
    pub passed_tests: nat,
    pub failed_tests: nat,
    pub skipped_tests: nat,
    pub error: Option<ErrorView>,
}

impl RunResultView {
    /// Every suite result is well formed, and the counters say what the list
    /// of suite results holds.
    pub open spec fn wf(self) -> bool {
        &&& forall|i: int| 0 <= i < self.suite_results.len() ==> (#[trigger] self.suite_results[i]).wf()
        &&& self.total_suites == self.suite_results.len()
        &&& self.passed_suites == passed_suite_count(self.suite_results)
        &&& self.failed_suites == self.suite_results.len() - passed_suite_count(self.suite_results)
        &&& self.skipped_suites == 0
        &&& self.total_tests == sum_total(self.suite_results)
        &&& self.passed_tests == sum_passed(self.suite_results)
        &&& self.failed_tests == sum_failed(self.suite_results)
        &&& self.skipped_tests == sum_skipped(self.suite_results)
    }

    /// No test failed, no suite failed and the run itself met no error.
    pub open spec fn all_passed(self) -> bool {
        self.failed_tests == 0 && self.failed_suites == 0 && self.error is None
    }

    /// This result with one more suite result at its end. A suite counts as
    /// passed where it passed as a whole, and as failed where it did not.
    pub open spec fn with_suite(self, suite: SuiteResultView) -> Self {
        RunResultView {
            suite_results: self.suite_results.push(suite),
            total_suites: self.total_suites + 1,
            passed_suites: self.passed_suites + if suite.all_passed() {
                1nat
            } else {
                0nat
            },
            failed_suites: self.failed_suites + if suite.all_passed() {
                0nat
            } else {
                1nat
            },
            total_tests: self.total_tests + suite.total_tests,
            passed_tests: self.passed_tests + suite.passed_tests,
            failed_tests: self.failed_tests + suite.failed_tests,
            skipped_tests: self.skipped_tests + suite.skipped_tests,
            ..self
        }
    }

    /// This result once it is finished at the time `now`.
    pub open spec fn finished(self, error: Option<ErrorView>, now: i64) -> Self {
        RunResultView {
            error,
            end_time: Some(now),
            duration: Some(elapsed_between(self.start_time, now)),
            ..self
        }
    }
}

impl View for RunResult {
    type V = RunResultView;

    open spec fn view(&self) -> RunResultView {
        RunResultView {
            id: self.id,
            start_time: self.start_time,
            end_time: self.end_time,
            duration: self.duration,
            suite_results: suite_views(self.suite_results@),
            total_suites: self.total_suites as nat,
            passed_suites: self.passed_suites as nat,
            failed_suites: self.failed_suites as nat,
            skipped_suites: self.skipped_suites as nat,
            total_tests: self.total_tests as nat,
            passed_tests: self.passed_tests as nat,
            failed_tests: self.failed_tests as nat,
            skipped_tests: self.skipped_tests as nat,
            error: opt_error_view(self.error),
        }
    }
}

/// In every well-formed run result the total of tests is the sum of the
/// passed, failed and skipped tests, and the total of suites is the sum of
/// the passed, failed and skipped suites.
pub proof fn lemma_run_total_is_sum(run: RunResultView)
    requires
        run.wf(),
    ensures
        run.total_tests == run.passed_tests + run.failed_tests + run.skipped_tests,
        run.total_suites == run.passed_suites + run.failed_suites + run.skipped_suites,
{
    lemma_sums_partition(run.suite_results);
    lemma_passed_suites_bounded(run.suite_results);
}

/// Adding a well-formed suite result to a well-formed run result gives a
/// well-formed run result, in which the totals are again the sums.
pub proof fn lemma_with_suite_keeps_wf(run: RunResultView, suite: SuiteResultView)
    requires
        run.wf(),
        suite.wf(),
    ensures
        run.with_suite(suite).wf(),
        run.with_suite(suite).total_tests == run.with_suite(suite).passed_tests + run.with_suite(
            suite,
        ).failed_tests + run.with_suite(suite).skipped_tests,
{
    let after = run.suite_results.push(suite);
    assert(after.drop_last() =~= run.suite_results);
    lemma_passed_suites_bounded(run.suite_results);
    assert forall|i: int| 0 <= i < after.len() implies (#[trigger] after[i]).wf() by {
        if i < run.suite_results.len() {
            assert(after[i] == run.suite_results[i]);
        }
    }
    lemma_run_total_is_sum(run.with_suite(suite));
}

/// Adding a suite result keeps the sum: where the total of tests is the sum
/// of the passed, failed and skipped tests in a run result and in a suite
/// result, it is so again in the run result with the suite result added.
/// Each of the four counters grows by the suite's, the number of suites
/// grows by one, which counts as passed or as failed, the suite result is
/// the last of the run's, and the error and the times stay as they were.
pub proof fn lemma_adding_keeps_the_sum(run: RunResultView, suite: SuiteResultView)
    requires
        run.total_tests == run.passed_tests + run.failed_tests + run.skipped_tests,
        suite.total_tests == suite.passed_tests + suite.failed_tests + suite.skipped_tests,
    ensures
        ({
            let after = run.with_suite(suite);
            &&& after.total_tests == after.passed_tests + after.failed_tests + after.skipped_tests
            &&& after.total_tests == run.total_tests + suite.total_tests
            &&& after.passed_tests == run.passed_tests + suite.passed_tests
            &&& after.failed_tests == run.failed_tests + suite.failed_tests
            &&& after.skipped_tests == run.skipped_tests + suite.skipped_tests
            &&& after.total_suites == run.total_suites + 1
            &&& after.passed_suites + after.failed_suites == run.passed_suites + run.failed_suites
                + 1
            &&& after.skipped_suites == run.skipped_suites
            &&& after.suite_results.last() == suite
            &&& after.suite_results.drop_last() == run.suite_results
            &&& after.error == run.error
            &&& after.start_time == run.start_time
            &&& after.end_time == run.end_time
        }),
{
    assert(run.suite_results.push(suite).drop_last() =~= run.suite_results);
}

impl Clone for RunResult {
    fn clone(&self) -> (r: Self)
        ensures
            r@ == self@,
            r.config@ == self.config@,
    {
        let mut suites: Vec<SuiteResult> = Vec::new();
        let mut i: usize = 0;
        assert(suite_views(suites@) =~= suite_views(self.suite_results@).take(0));
        while i < self.suite_results.len()
            invariant
                i <= self.suite_results.len(),
                suite_views(suites@) == suite_views(self.suite_results@).take(i as int),
            decreases self.suite_results.len() - i,
        {
            let ghost had = suite_views(suites@);
            suites.push(self.suite_results[i].clone());
            assert(suite_views(suites@) =~= had.push(self.suite_results@[i as int]@));
            i += 1;
            assert(suite_views(suites@) =~= suite_views(self.suite_results@).take(i as int));
        }
        assert(suite_views(self.suite_results@).take(i as int) =~= suite_views(
            self.suite_results@,
        ));
        RunResult {
            id: self.id,
            start_time: self.start_time,
            end_time: self.end_time,
            duration: self.duration,
            suite_results: suites,
            config: self.config.clone(),
            total_suites: self.total_suites,
            passed_suites: self.passed_suites,
            failed_suites: self.failed_suites,
            skipped_suites: self.skipped_suites,
            total_tests: self.total_tests,
            passed_tests: self.passed_tests,
            failed_tests: self.failed_tests,
            skipped_tests: self.skipped_tests,
            error: match &self.error {
                Some(e) => Some(e.clone()),
                None => None,
            },
        }
    }
}

impl RunResult {
    /// Every suite result is well formed, and the counters say what the list
    /// of suite results holds.
    pub open spec fn wf(&self) -> bool {
        self@.wf()
    }

    /// An empty result of a run that began at the time `now`.
    pub fn new_at(config: RunnerConfig, now: i64) -> (r: Self)
        ensures
            r.wf(),
            r.config == config,
            r@ == (RunResultView {
                id: r.id,
                start_time: now,
                end_time: None,
                duration: None,
                suite_results: Seq::empty(),
                total_suites: 0,
                passed_suites: 0,
                failed_suites: 0,
                skipped_suites: 0,
                total_tests: 0,
                passed_tests: 0,
                failed_tests: 0,
                skipped_tests: 0,
                error: None,
            }),
    {
        let r = RunResult {
            id: new_id(),
            start_time: now,
            end_time: None,
            duration: None,
            suite_results: Vec::new(),
            config,
            total_suites: 0,
            passed_suites: 0,
            failed_suites: 0,
            skipped_suites: 0,
            total_tests: 0,
            passed_tests: 0,
            failed_tests: 0,
            skipped_tests: 0,
            error: None,
        };
        assert(suite_views(r.suite_results@) =~= Seq::empty());
        r
    }

    /// An empty result of a run that begins now.
    pub fn new(config: RunnerConfig) -> (r: Self)
        ensures
            r.wf(),
            r.config == config,
            r@.suite_results.len() == 0,
            r@.total_tests == 0,
            r.end_time is None,
            r.error is None,
            r@ == (RunResultView {
                id: r.id,
                start_time: r.start_time,
                end_time: None,
                duration: None,
                suite_results: Seq::empty(),
                total_suites: 0,
                passed_suites: 0,
                failed_suites: 0,
                skipped_suites: 0,
                total_tests: 0,
                passed_tests: 0,
                failed_tests: 0,
                skipped_tests: 0,
                error: None,
            }),
    {
        RunResult::new_at(config, now_millis())
    }

    /// Whether `result` can be added: whether the number of tests still fits
    /// the counter.
    pub fn has_room_for(&self, result: &SuiteResult) -> (r: bool)
        ensures
            r == (self.total_tests + result.total_tests <= usize::MAX),
    {
        result.total_tests <= usize::MAX - self.total_tests
    }

    /// Appends a suite result and adds its counters to the run's. The suite
    /// counts as passed where it passed as a whole, and as failed where it did
    /// not.
    pub fn add_suite_result(&mut self, result: SuiteResult)
        requires
            old(self).wf(),
            result.wf(),
            old(self).total_tests + result.total_tests <= usize::MAX,
        ensures
            final(self).wf(),
            final(self).config == old(self).config,
            final(self)@ == old(self)@.with_suite(result@),
            final(self).suite_results@ == old(self).suite_results@.push(result),
            final(self).total_tests == final(self).passed_tests + final(self).failed_tests
                + final(self).skipped_tests,
    {
        proof {
            lemma_with_suite_keeps_wf(self@, result@);
            lemma_run_total_is_sum(self@);
            lemma_suite_total_is_sum(result@);
        }
        let all_passed = result.all_passed();
        self.total_tests += result.total_tests;
        self.passed_tests += result.passed_tests;
        self.failed_tests += result.failed_tests;
        self.skipped_tests += result.skipped_tests;
        self.suite_results.push(result);
        assert(suite_views(self.suite_results@) =~= suite_views(old(self).suite_results@).push(
            result@,
        ));
        assert(old(self).total_suites == suite_views(old(self).suite_results@).len());
        assert(self.suite_results.len() == old(self).total_suites + 1);
        self.total_suites += 1;
        if all_passed {
            self.passed_suites += 1;
        } else {
            self.failed_suites += 1;
        }
    }

    /// Records the end of the run, with `now` as the time it ended.
    pub fn finish_at(&mut self, error: Option<Error>, now: i64)
        ensures
            final(self).config == old(self).config,
            final(self).suite_results == old(self).suite_results,
            final(self).error == error,
            final(self)@ == old(self)@.finished(opt_error_view(error), now),
    {
        self.end_time = Some(now);
        self.error = error;
        self.duration = Some(elapsed_millis(self.start_time, now));
    }

    /// Records the end of the run, with the present moment as the time it ended.
    pub fn finish(&mut self, error: Option<Error>)
        ensures
            final(self).config == old(self).config,
            final(self).suite_results == old(self).suite_results,
            final(self).error == error,
            final(self).end_time is Some,
            final(self)@ == old(self)@.finished(opt_error_view(error), final(self).end_time->0),
    {
        self.finish_at(error, now_millis());
    }

    /// Whether no test failed, no suite failed and the run itself met no error.
    pub fn all_passed(&self) -> (r: bool)
        ensures
            r == self@.all_passed(),
            r <==> self.failed_tests == 0 && self.failed_suites == 0 && self.error is None,
    {
        self.failed_tests == 0 && self.failed_suites == 0 && self.error.is_none()
    }
}

/// Whether one of `patterns` occurs in `first` or in `second`.
pub open spec fn any_pattern_in(patterns: Seq<Seq<char>>, first: Seq<char>, second: Seq<char>) ->
    bool {
    exists|i: int|
        0 <= i < patterns.len() && (contains(first, #[trigger] patterns[i]) || contains(
            second,
            patterns[i],
        ))
}

/// Whether one of `wanted` is among `have`.
pub open spec fn any_of(wanted: Seq<Seq<char>>, have: Seq<Seq<char>>) -> bool {
    exists|i: int| 0 <= i < wanted.len() && have.contains(#[trigger] wanted[i])
}

/// What the selection of suites reads of a suite.
pub ghost struct SuiteTraits {
    pub ignore: bool,
    pub name: Seq<char>,
    pub meta_name: Seq<char>,
    pub tags: Seq<Seq<char>>,
    pub category: Option<Seq<char>>,
}

/// What the selection of suites reads of `suite`.
pub open spec fn traits_of(suite: TestSuite) -> SuiteTraits {
    SuiteTraits {
        ignore: suite.attributes.ignore,
        name: suite.name@,
        meta_name: suite.meta.name@,
        tags: texts(suite.attributes.tags@),
        category: opt_text(suite.attributes.category),
    }
}

/// Whether a suite is run under `config`. An ignored suite is not. Where
/// there are patterns to include, one of them must occur in the suite's
/// name; no pattern to exclude may occur in it. Where there are tags to
/// include, the suite must have one of them; it may have no tag to exclude.
/// Where there are categories to include, the suite's category must be
/// among them; it may not be among the categories to exclude.
pub open spec fn is_selected(config: RunnerConfigView, suite: SuiteTraits) -> bool {
    &&& !suite.ignore
    &&& config.include_patterns.len() > 0 ==> any_pattern_in(
        config.include_patterns,
        suite.name,
        suite.meta_name,
    )
    &&& !any_pattern_in(config.exclude_patterns, suite.name, suite.meta_name)
    &&& config.include_tags.len() > 0 ==> any_of(config.include_tags, suite.tags)
    &&& !any_of(config.exclude_tags, suite.tags)
    &&& config.include_categories.len() > 0 ==> suite.category is Some
        && config.include_categories.contains(suite.category->0)
    &&& !(suite.category is Some && config.exclude_categories.contains(suite.category->0))
}

/// The suites of `suites` that are run under `config`, in their order.
pub open spec fn selected_suites(config: RunnerConfigView, suites: Seq<TestSuite>) -> Seq<
    TestSuite,
>
    decreases suites.len(),
{
    if suites.len() == 0 {
        Seq::empty()
    } else if is_selected(config, traits_of(suites.last())) {
        selected_suites(config, suites.drop_last()).push(suites.last())
    } else {
        selected_suites(config, suites.drop_last())
    }
}

/// Every selected suite is one of the suites.
pub proof fn lemma_selected_are_suites(config: RunnerConfigView, suites: Seq<TestSuite>)
    ensures
        forall|k: int|
            0 <= k < selected_suites(config, suites).len() ==> suites.contains(
                #[trigger] selected_suites(config, suites)[k],
            ),
        selected_suites(config, suites).len() <= suites.len(),
    decreases suites.len(),
{
    if suites.len() > 0 {
        lemma_selected_are_suites(config, suites.drop_last());
        let sel = selected_suites(config, suites);
        let before = selected_suites(config, suites.drop_last());
        assert forall|k: int| 0 <= k < sel.len() implies suites.contains(#[trigger] sel[k]) by {
            if k < before.len() {
                assert(suites.drop_last().contains(before[k]));
                let at = choose|at: int|
                    0 <= at < suites.drop_last().len() && suites.drop_last()[at] == before[k];
                assert(suites[at] == before[k]);
            } else {
                assert(sel[k] == suites.last());
                assert(suites[suites.len() - 1] == suites.last());
            }
        }
    }
}

/// Whether one of `patterns` occurs in `first` or in `second`.
pub fn matches_any_pattern(patterns: &Vec<String>, first: &str, second: &str) -> (r: bool)
    ensures
        r == any_pattern_in(texts(patterns@), first@, second@),
{
    let mut i: usize = 0;
    while i < patterns.len()
        invariant
            i <= patterns.len(),
            forall|k: int|
                0 <= k < i ==> !contains(first@, #[trigger] texts(patterns@)[k]) && !contains(
                    second@,
                    texts(patterns@)[k],
                ),
        decreases patterns.len() - i,
    {
        if str_contains(first, patterns[i].as_str()) || str_contains(second, patterns[i].as_str()) {
            assert(texts(patterns@)[i as int] == patterns@[i as int]@);
            return true;
        }
        i += 1;
    }
    false
}

/// Whether one of `wanted` is among `have`.
pub fn has_any_of(wanted: &Vec<String>, have: &Vec<String>) -> (r: bool)
    ensures
        r == any_of(texts(wanted@), texts(have@)),
{
    let mut i: usize = 0;
    while i < wanted.len()
        invariant
            i <= wanted.len(),
            forall|k: int| 0 <= k < i ==> !texts(have@).contains(#[trigger] texts(wanted@)[k]),
        decreases wanted.len() - i,
    {
        if strings_contain(have, wanted[i].as_str()) {
            assert(texts(wanted@)[i as int] == wanted@[i as int]@);
            return true;
        }
        i += 1;
    }
    false
}

/// Whether `suite` is run under `config`.
pub fn suite_is_selected(config: &RunnerConfig, suite: &TestSuite) -> (r: bool)
    ensures
        r == is_selected(config@, traits_of(*suite)),
{
    if suite.attributes.ignore {
        return false;
    }
    if config.include_patterns.len() > 0 && !matches_any_pattern(
        &config.include_patterns,
        suite.name.as_str(),
        suite.meta.name.as_str(),
    ) {
        return false;
    }
    if matches_any_pattern(
        &config.exclude_patterns,
        suite.name.as_str(),
        suite.meta.name.as_str(),
    ) {
        return false;
    }
    if config.include_tags.len() > 0 && !has_any_of(&config.include_tags, &suite.attributes.tags) {
        return false;
    }
    if has_any_of(&config.exclude_tags, &suite.attributes.tags) {
        return false;
    }
    match &suite.attributes.category {
        Some(category) => {
            if config.include_categories.len() > 0 && !strings_contain(
                &config.include_categories,
                category.as_str(),
            ) {
                return false;
            }
            if strings_contain(&config.exclude_categories, category.as_str()) {
                return false;
            }
        },
        None => {
            if config.include_categories.len() > 0 {
                return false;
            }
        },
    }
    true
}

/// The suites of `suites` that are run under `config`, in their order.
pub fn select_suites(config: &RunnerConfig, suites: Vec<TestSuite>) -> (r: Vec<TestSuite>)
    ensures
        r@ == selected_suites(config@, suites@),
{
    let mut out: Vec<TestSuite> = Vec::new();
    let ghost all = suites@;
    assert(all.take(0) =~= Seq::empty());
    for suite in iter: suites
        invariant
            iter.seq() == all,
            out@ == selected_suites(config@, all.take(iter.index() as int)),
    {
        assert(all.take(iter.index() + 1).drop_last() =~= all.take(iter.index() as int));
        if suite_is_selected(config, &suite) {
            out.push(suite);
        }
    }
    assert(all.take(all.len() as int) =~= all);
    out
}

/// The error with which a run ends that stops at the first suite that did
/// not pass.
pub open spec fn fail_fast_error() -> ErrorView {
    ErrorView {
        kind: ErrorKind::TestExecution,
        stage: Seq::empty(),
        message: "Failing fast due to test failure"@,
    }
}

/// Something that runs suites. The configuration it hands out is the one
/// it was given last.
pub trait TestRunner {
    /// The configuration of the runner.
    spec fn configuration(&self) -> RunnerConfigView;

    /// Runs the suites and reports the run.
    fn run(&self, suites: Vec<TestSuite>) -> Result<RunResult, Error>
        requires
            forall|i: int| 0 <= i < suites@.len() ==> (#[trigger] suites@[i]).wf(),
    ;

    /// Runs one suite and reports it.
    fn run_suite(&self, suite: TestSuite) -> Result<SuiteResult, Error>
        requires
            suite.wf(),
    ;

    /// The configuration of the runner.
    fn config(&self) -> (r: &RunnerConfig)
        ensures
            r@ == self.configuration(),
    ;

    /// Gives the runner another configuration.
    fn set_config(&mut self, config: RunnerConfig)
        ensures
            final(self).configuration() == config@,
    ;

    /// The suites of `suites` that are run under the runner's configuration,
    /// in their order; see [`is_selected`].
    fn filter_suites(&self, suites: Vec<TestSuite>) -> (r: Vec<TestSuite>)
        ensures
            r@ == selected_suites(self.configuration(), suites@),
    {
        select_suites(self.config(), suites)
    }
}

/// The error with which a run ends whose tests can no longer be counted.
pub open spec fn too_many_tests() -> ErrorView {
    ErrorView {
        kind: ErrorKind::Generic,
        stage: Seq::empty(),
        message: "More tests than can be counted"@,
    }
}

/// Whether a run ended in the error of fail-fast: the run stops at the
/// first failure, its last suite did not pass, and its error says so.
pub open spec fn failed_fast(result: RunResultView, fail_fast: bool) -> bool {
    &&& fail_fast
    &&& result.suite_results.len() > 0
    &&& !result.suite_results.last().all_passed()
    &&& result.error == Some(fail_fast_error())
}

/// Whether a run ended because the tests of its next suite no longer fit
/// the counter: that suite's result is not among the results, and the
/// error says so.
pub open spec fn overflowed(result: RunResultView, names: Seq<Seq<char>>) -> bool {
    &&& result.suite_results.len() < names.len()
    &&& result.error == Some(too_many_tests())
}

/// What is known of a run of suites in a row, whatever the suites did: the
/// result is well formed and finished; it holds the results of the first
/// suites of `names`, in their order; where the run stops at the first
/// failure, every suite but the last passed; a run without an error ran
/// every suite; and a run with an error failed fast or could not count its
/// tests any more.
pub open spec fn is_run_of(result: RunResultView, fail_fast: bool, names: Seq<Seq<char>>) -> bool {
    &&& result.error is Some ==> failed_fast(result, fail_fast) || overflowed(result, names)
    &&& fail_fast && result.suite_results.len() > 0 && !result.suite_results.last().all_passed()
        ==> result.error == Some(fail_fast_error())
    &&& result.wf()
    &&& result.end_time is Some
    &&& result.suite_results.len() <= names.len()
    &&& forall|k: int|
        0 <= k < result.suite_results.len() ==> (#[trigger] result.suite_results[k]).name
            == names[k]
    &&& fail_fast ==> forall|k: int|
        0 <= k < result.suite_results.len() - 1 ==> (#[trigger] result.suite_results[k]).all_passed()
    &&& fail_fast && result.error is None ==> forall|k: int|
        0 <= k < result.suite_results.len() ==> (#[trigger] result.suite_results[k]).all_passed()
    &&& result.error is None ==> result.suite_results.len() == names.len()
}

/// The names of `suites`, in their order.
pub open spec fn suite_names(suites: Seq<TestSuite>) -> Seq<Seq<char>> {
    suites.map_values(|s: TestSuite| s.name@)
}

/// The runner that runs suites in this process, one after the other.
pub struct DefaultTestRunner {
    pub config: RunnerConfig,
}

impl DefaultTestRunner {
    /// A runner with the configuration `config`.
    pub fn new(config: RunnerConfig) -> (r: Self)
        ensures
            r.config == config,
    {
        DefaultTestRunner { config }
    }
}

impl Default for DefaultTestRunner {
    fn default() -> (r: Self)
        ensures
            !r.config.fail_fast,
            r.config@ == RunnerConfigView::standard(),
    {
        DefaultTestRunner::new(RunnerConfig::default())
    }
}

/// Whether the run `r` of `suites` stopped because the tests of the next
/// suite no longer fit the counter: the suite after those whose results
/// are held may give a result whose tests, added to those counted so far,
/// are more than can be counted.
pub open spec fn could_not_count(suites: Seq<TestSuite>, r: RunResult) -> bool {
    &&& r.suite_results@.len() < suites.len()
    &&& exists|next: SuiteResult| #[trigger]
        suites[r.suite_results@.len() as int].may_give(next) && r.total_tests + next.total_tests
            > usize::MAX
}

/// Whether `r` is a result that running `suites` in their order may give:
/// what [`is_run_of`] says of the suites' names; each result that is held
/// is one that the suite at its place may give; and a run ends in the
/// error of the counter only where the next suite's tests did not fit.
pub open spec fn ran_in_order(suites: Seq<TestSuite>, fail_fast: bool, r: RunResult) -> bool {
    &&& is_run_of(r@, fail_fast, suite_names(suites))
    &&& r.suite_results@.len() <= suites.len()
    &&& forall|k: int|
        0 <= k < r.suite_results@.len() ==> suites[k].may_give(#[trigger] r.suite_results@[k])
    &&& r@.error == Some(too_many_tests()) ==> could_not_count(suites, r)
}

/// Runs `suites` in their order and adds their results up. With
/// `fail_fast`, the run stops after the first suite that did not pass, with
/// an error that says so; the suites after it do not run. A suite whose
/// tests no longer fit the counter ends the run with an error too; its
/// result is not held.
pub fn run_in_order(config: &RunnerConfig, suites: Vec<TestSuite>) -> (r: RunResult)
    requires
        forall|i: int| 0 <= i < suites@.len() ==> (#[trigger] suites@[i]).wf(),
    ensures
        ran_in_order(suites@, config.fail_fast, r),
        is_run_of(r@, config.fail_fast, suite_names(suites@)),
        r.config@ == config@,
        r.suite_results@.len() <= suites@.len(),
        forall|k: int|
            0 <= k < r.suite_results@.len() ==> suites@[k].may_give(#[trigger] r.suite_results@[k]),
        r@.error == Some(too_many_tests()) ==> could_not_count(suites@, r),
{
    let mut result = RunResult::new(config.clone());
    let ghost all = suites@;
    let ghost names = suite_names(suites@);
    for suite in iter: suites
        invariant
            iter.seq() == all,
            names == suite_names(all),
            forall|i: int| 0 <= i < all.len() ==> (#[trigger] all[i]).wf(),
            result.wf(),
            result.config@ == config@,
            result.error is None,
            result@.suite_results.len() == iter.index(),
            result.suite_results@.len() == iter.index(),
            forall|k: int|
                0 <= k < result.suite_results@.len() ==> all[k].may_give(
                    #[trigger] result.suite_results@[k],
                ),
            forall|k: int|
                0 <= k < result@.suite_results.len() ==> (#[trigger] result@.suite_results[k]).name
                    == names[k],
            config.fail_fast ==> forall|k: int|
                0 <= k < result@.suite_results.len() ==> (
                #[trigger] result@.suite_results[k]).all_passed(),
    {
        let ghost before = result@.suite_results;
        let ghost held = result.suite_results@;
        let mut suite = suite;
        assert(suite == all[iter.index() as int]);
        assert(suite.wf());
        let suite_result = match suite.execute() {
            Ok(suite_result) => suite_result,
            Err(e) => {
                result.finish(Some(e));
                return result;
            },
        };
        if !result.has_room_for(&suite_result) {
            let ghost counted = result.total_tests;
            result.finish(Some(Error::generic("More tests than can be counted")));
            assert(result.total_tests == counted);
            assert(all[result.suite_results@.len() as int].may_give(suite_result));
            assert(could_not_count(all, result));
            return result;
        }
        let should_fail_fast = config.fail_fast && !suite_result.all_passed();
        result.add_suite_result(suite_result);
        assert forall|k: int| 0 <= k < result.suite_results@.len() implies all[k].may_give(
            #[trigger] result.suite_results@[k],
        ) by {
            if k < held.len() {
                assert(result.suite_results@[k] == held[k]);
            }
        }
        assert(result@.suite_results[iter.index() as int].name == names[iter.index() as int]);
        assert forall|k: int| 0 <= k < result@.suite_results.len() implies (
        #[trigger] result@.suite_results[k]).name == names[k] by {
            if k < before.len() {
                assert(result@.suite_results[k] == before[k]);
            }
        }
        if should_fail_fast {
            assert forall|k: int| 0 <= k < result@.suite_results.len() - 1 implies (
            #[trigger] result@.suite_results[k]).all_passed() by {
                assert(result@.suite_results[k] == before[k]);
            }
            result.finish(Some(Error::test_execution("Failing fast due to test failure")));
            return result;
        }
        assert(config.fail_fast ==> forall|k: int|
            0 <= k < result@.suite_results.len() ==> (
            #[trigger] result@.suite_results[k]).all_passed()) by {
            if config.fail_fast {
                assert forall|k: int| 0 <= k < result@.suite_results.len() implies (
                #[trigger] result@.suite_results[k]).all_passed() by {
                    if k < before.len() {
                        assert(result@.suite_results[k] == before[k]);
                    }
                }
            }
        }
    }
    result.finish(None);
    result
}

impl TestRunner for DefaultTestRunner {
    open spec fn configuration(&self) -> RunnerConfigView {
        self.config@
    }

    /// Runs the suites that the configuration selects, in their order; see
    /// [`run_in_order`]. The call itself always succeeds.
    fn run(&self, suites: Vec<TestSuite>) -> (r: Result<RunResult, Error>)
        ensures
            r is Ok,
            is_run_of(
                r->Ok_0@,
                self.config.fail_fast,
                suite_names(selected_suites(self.config@, suites@)),
            ),
            r->Ok_0.suite_results@.len() <= selected_suites(self.config@, suites@).len(),
            forall|k: int|
                0 <= k < r->Ok_0.suite_results@.len() ==> selected_suites(
                    self.config@,
                    suites@,
                )[k].may_give(#[trigger] r->Ok_0.suite_results@[k]),
            ran_in_order(selected_suites(self.config@, suites@), self.config.fail_fast, r->Ok_0),
            r->Ok_0.config@ == self.config@,
    {
        proof {
            lemma_selected_are_suites(self.config@, suites@);
        }
        let suites_to_run = self.filter_suites(suites);
        assert forall|i: int| 0 <= i < suites_to_run@.len() implies (
        #[trigger] suites_to_run@[i]).wf() by {
            assert(suites@.contains(suites_to_run@[i]));
        }
        Ok(run_in_order(&self.config, suites_to_run))
    }

    /// Runs one suite; see [`TestSuite::execute`].
    fn run_suite(&self, suite: TestSuite) -> (r: Result<SuiteResult, Error>)
        ensures
            r is Ok,
            r->Ok_0.wf(),
            r->Ok_0.name@ == suite.name@,
            suite.may_give(r->Ok_0),
    {
        let mut suite = suite;
        suite.execute()
    }

    fn config(&self) -> (r: &RunnerConfig)
        ensures
            *r == self.config,
    {
        &self.config
    }

    fn set_config(&mut self, config: RunnerConfig)
        ensures
            final(self).config == config,
    {
        self.config = config;
    }
}

} // verus!
