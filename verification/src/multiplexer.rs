//! The decisions of the run loop. The loop itself, which starts the test
//! binaries and reads what they write, lives outside this library: it
//! hands every line it has read to an [`ExecutableSession`] and every
//! binary's outcome to an [`ExecutableRun`], and does what they say.

use vstd::prelude::*;
use crate::clock::{elapsed_between, now_millis};
use crate::error::Error;
use crate::ids::new_id;
use crate::names::mod_name;
use crate::outcome::{
    is_failed_suite,
    bare_metadata, create_failed_suite_result, create_suite_result, system_error_name,
};
use crate::parser::{StandardLineParser, line_event, panic_event, parse_line};
use crate::runners::{RunResult, RunResultView, RunnerConfig, fail_fast_error};
use crate::suite::{SuiteResult, SuiteResultView, result_views};
use crate::test::{TestResult, TestResultView, TestStatus};
use crate::tracker::{TestRunState, TrackerView, finalized_results, opt_event_view};
use crate::types::{LifecycleEvent, ProcessOutput};

verus! {

/// The test result that a lifecycle event carries, if it carries one.
pub open spec fn event_result(event: Option<LifecycleEvent>) -> Option<TestResultView> {
    match event {
        Some(LifecycleEvent::TestPassed { result, .. }) => Some(result),
        Some(LifecycleEvent::TestFailed { result, .. }) => Some(result),
        Some(LifecycleEvent::TestSkipped { result }) => Some(result),
        _ => None,
    }
}

/// The mathematical content of an [`ExecutableSession`].
pub ghost struct SessionView {
    pub state: TrackerView,
    /// The results of the tests that have ended, in the order in which they
    /// ended.
    pub results: Seq<TestResultView>,
}

impl SessionView {
    /// The lifecycle event that a line of standard output gives, read at
    /// the time `now`.
    pub open spec fn event_for(self, line: Seq<char>, now: i64, id: uuid::Uuid) -> Option<
        LifecycleEvent,
    > {
        match line_event(line) {
            Some(l) => self.state.emitted(l, now, id),
            None => None,
        }
    }

    /// The session after a line of standard output was read at the time
    /// `now`: a line that says nothing changes nothing; the result of a test
    /// that ended is put at the end of the results.
    pub open spec fn after_stdout(self, line: Seq<char>, now: i64, id: uuid::Uuid) -> SessionView {
        match line_event(line) {
            Some(l) => SessionView {
                state: self.state.after(l, now),
                results: match event_result(self.state.emitted(l, now, id)) {
                    Some(r) => self.results.push(r),
                    None => self.results,
                },
            },
            None => self,
        }
    }

    /// The session after a panic group was read from the error stream: a
    /// group that is no panic report changes nothing.
    pub open spec fn after_stderr(self, group: Seq<char>) -> SessionView {
        match panic_event(group) {
            Some(l) => SessionView { state: self.state.after(l, 0), ..self },
            None => self,
        }
    }

    /// The session after what was left of the two streams was read.
    pub open spec fn after_flush(
        self,
        stdout_rest: Option<Seq<char>>,
        stderr_rest: Option<Seq<char>>,
        now: i64,
        id: uuid::Uuid,
    ) -> SessionView {
        let first = match stdout_rest {
            Some(line) => self.after_stdout(line, now, id),
            None => self,
        };
        match stderr_rest {
            Some(group) => first.after_stderr(group),
            None => first,
        }
    }
}

/// What is known of one binary while it runs: its tracker, and the results
/// of the tests that have ended.
pub struct ExecutableSession {
    pub state: TestRunState,
    pub results: Vec<TestResult>,
}

impl View for ExecutableSession {
    type V = SessionView;

    open spec fn view(&self) -> SessionView {
        SessionView { state: self.state@, results: result_views(self.results@) }
    }
}

impl ExecutableSession {
    /// A session for a binary that has written nothing yet.
    pub fn new() -> (r: Self)
        ensures
            r@ == (SessionView {
                state: TrackerView {
                    tests: Map::empty(),
                    pending_errors: Map::empty(),
                    current_suite: None,
                },
                results: Seq::empty(),
            }),
    {
        let r = ExecutableSession { state: TestRunState::new(), results: Vec::new() };
        assert(result_views(r.results@) =~= Seq::empty());
        r
    }

    /// A session for the binary `suite` that has written nothing yet.
    pub fn for_suite(suite: &str) -> (r: Self)
        ensures
            r@ == (SessionView {
                state: TrackerView {
                    tests: Map::empty(),
                    pending_errors: Map::empty(),
                    current_suite: Some(suite@),
                },
                results: Seq::empty(),
            }),
    {
        let r = ExecutableSession { state: TestRunState::for_suite(suite), results: Vec::new() };
        assert(result_views(r.results@) =~= Seq::empty());
        r
    }

    /// Takes one line of standard output, read at the time `now`: the line
    /// is decoded, the tracker takes what it says, and the result of a test
    /// that ended is kept. What comes back is the event to publish.
    pub fn on_stdout_line_at(&mut self, line: &str, now: i64, id: uuid::Uuid) -> (r: Option<
        ProcessOutput,
    >)
        ensures
            final(self)@ == old(self)@.after_stdout(line@, now, id),
            opt_event_view(r) == old(self)@.event_for(line@, now, id),
    {
        let parsed = match parse_line(line) {
            Some(parsed) => parsed,
            None => {
                return None;
            },
        };
        let output = self.state.handle_line_at(parsed, now, id);
        let ghost had = result_views(self.results@);
        match &output {
            Some(ProcessOutput::TestPassed { result, .. }) => {
                self.results.push(result.clone());
                assert(result_views(self.results@) =~= had.push(result@));
            },
            Some(ProcessOutput::TestFailed { result, .. }) => {
                self.results.push(result.clone());
                assert(result_views(self.results@) =~= had.push(result@));
            },
            Some(ProcessOutput::TestSkipped { result }) => {
                self.results.push(result.clone());
                assert(result_views(self.results@) =~= had.push(result@));
            },
            _ => {},
        }
        output
    }

    /// Takes one line of standard output, read now; see
    /// [`Self::on_stdout_line_at`], of which this is the case of the clock's
    /// time and a fresh identifier.
    pub fn on_stdout_line(&mut self, line: &str) -> (r: Option<ProcessOutput>)
        ensures
            exists|now: i64, id: uuid::Uuid|
                final(self)@ == old(self)@.after_stdout(line@, now, id) && opt_event_view(r)
                    == #[trigger] old(self)@.event_for(line@, now, id),
    {
        let now = now_millis();
        let id = new_id();
        let r = self.on_stdout_line_at(line, now, id);
        assert(self@ == old(self)@.after_stdout(line@, now, id));
        assert(opt_event_view(r) == old(self)@.event_for(line@, now, id));
        r
    }

    /// Takes one panic group from the error stream: what it says of a
    /// test's failure waits for the test's result. A group that is no panic
    /// report is dropped.
    pub fn on_stderr_group(&mut self, group: &str)
        ensures
            final(self)@ == old(self)@.after_stderr(group@),
    {
        match StandardLineParser::parse_panic(group) {
            Some(parsed) => {
                let ghost event = parsed@;
                let _ = self.state.handle_line_at(parsed, 0, new_id());
            },
            None => {},
        }
    }

    /// Ends the session when the binary has exited, at the time `now`: what
    /// was left of the two streams is read, the failure detail that still
    /// waits is given to the results it belongs to, and the results are put
    /// into a suite result for the binary `name`.
    pub fn finish_at(
        self,
        name: &str,
        stdout_rest: Option<&str>,
        stderr_rest: Option<&str>,
        now: i64,
        id: uuid::Uuid,
    ) -> (r: SuiteResult)
        ensures
            r.wf(),
            r@.name == mod_name(name@),
            r@.metadata == bare_metadata(mod_name(name@)),
            r@.error is None,
            r@.end_time is None,
            r@.duration is None,
            r@.test_results == finalized_results(
                self@.after_flush(
                    crate::text::opt_str_text(stdout_rest),
                    crate::text::opt_str_text(stderr_rest),
                    now,
                    id,
                ).results,
                self@.after_flush(
                    crate::text::opt_str_text(stdout_rest),
                    crate::text::opt_str_text(stderr_rest),
                    now,
                    id,
                ).state.pending_errors,
            ),
    {
        let mut session = self;
        match stdout_rest {
            Some(line) => {
                let _ = session.on_stdout_line_at(line, now, id);
            },
            None => {},
        }
        match stderr_rest {
            Some(group) => {
                session.on_stderr_group(group);
            },
            None => {},
        }
        let ExecutableSession { mut state, mut results } = session;
        state.finalize_pending_errors(&mut results);
        create_suite_result(name, results.as_slice())
    }

    /// Ends the session now; see [`Self::finish_at`].
    pub fn finish(self, name: &str, stdout_rest: Option<&str>, stderr_rest: Option<&str>) -> (r:
        SuiteResult)
        ensures
            r.wf(),
            r@.name == mod_name(name@),
            r@.metadata == bare_metadata(mod_name(name@)),
            r@.error is None,
            r@.end_time is None,
            r@.duration is None,
            exists|now: i64, id: uuid::Uuid|
                r@.test_results == finalized_results(
                    (#[trigger] self@.after_flush(
                        crate::text::opt_str_text(stdout_rest),
                        crate::text::opt_str_text(stderr_rest),
                        now,
                        id,
                    )).results,
                    self@.after_flush(
                        crate::text::opt_str_text(stdout_rest),
                        crate::text::opt_str_text(stderr_rest),
                        now,
                        id,
                    ).state.pending_errors,
                ),
    {
        let now = now_millis();
        let id = new_id();
        let ghost before = self@;
        let r = self.finish_at(name, stdout_rest, stderr_rest, now, id);
        assert(r@.test_results == finalized_results(
            before.after_flush(
                crate::text::opt_str_text(stdout_rest),
                crate::text::opt_str_text(stderr_rest),
                now,
                id,
            ).results,
            before.after_flush(
                crate::text::opt_str_text(stdout_rest),
                crate::text::opt_str_text(stderr_rest),
                now,
                id,
            ).state.pending_errors,
        ));
        r
    }
}

/// The mathematical content of an [`ExecutableRun`].
pub ghost struct RunView {
    pub result: RunResultView,
    pub fail_fast: bool,
    /// The number of binaries of the run.
    pub total: nat,
    /// The number of binaries whose outcome was recorded.
    pub done: nat,
    /// Whether the run stopped before all binaries were run.
    pub stopped: bool,
}

impl RunView {
    /// The index of the binary to run next; nothing once all are run or
    /// the run has stopped.
    pub open spec fn next(self) -> Option<nat> {
        if self.stopped || self.done >= self.total {
            None
        } else {
            Some(self.done)
        }
    }

    /// The run after the suite result `suite` of a binary was recorded at
    /// the time `now`. The result is added to the run's. With fail-fast, a
    /// suite that did not pass finishes the run with an error and stops it.
    pub open spec fn after(self, suite: SuiteResultView, now: i64) -> RunView {
        let added = self.result.with_suite(suite);
        if self.fail_fast && !suite.all_passed() {
            RunView {
                result: added.finished(Some(fail_fast_error()), now),
                done: self.done + 1,
                stopped: true,
                ..self
            }
        } else {
            RunView { result: added, done: self.done + 1, ..self }
        }
    }

    /// The result of the run once it is ended at the time `now`: a run
    /// that met no error is finished without one, which sets the time it
    /// ended and how long it took; a run that stopped keeps the error, the
    /// end and the duration it stopped with.
    pub open spec fn ended(self, now: i64) -> RunResultView {
        if self.result.error is None {
            self.result.finished(None, now)
        } else {
            self.result
        }
    }
}

/// A run of test binaries, one after the other.
pub struct ExecutableRun {
    pub result: RunResult,
    pub total: usize,
    pub done: usize,
    pub stopped: bool,
}

impl View for ExecutableRun {
    type V = RunView;

    open spec fn view(&self) -> RunView {
        RunView {
            result: self.result@,
            fail_fast: self.result.config.fail_fast,
            total: self.total as nat,
            done: self.done as nat,
            stopped: self.stopped,
        }
    }
}

impl ExecutableRun {
    /// The result is well formed and holds one suite result for each
    /// binary that was recorded.
    pub open spec fn wf(&self) -> bool {
        &&& self.result.wf()
        &&& self.done <= self.total
        &&& self.result@.suite_results.len() == self.done
        &&& !self.stopped ==> self.result@.error is None
        &&& self.stopped ==> self.result@.end_time is Some && self.result@.duration is Some
    }

    /// A run of `total` binaries under `config`, of which none has run yet.
    pub fn new(config: RunnerConfig, total: usize) -> (r: Self)
        ensures
            r.wf(),
            r.result.config == config,
            r@.fail_fast == config.fail_fast,
            r@.total == total,
            r@.done == 0,
            !r@.stopped,
            r@.result.suite_results.len() == 0,
            r@.result.error is None,
            r@.result == (RunResultView {
                id: r.result.id,
                start_time: r.result.start_time,
                end_time: None,
                duration: None,
                suite_results: Seq::empty(),
                total_suites: 0,
                passed_suites: 0,
                failed_suites: 0,
                skipped_suites: 0,
                total_tests: 0,
                passed_tests: 0,
                failed_tests: 0,
                skipped_tests: 0,
                error: None,
            }),
    {
        ExecutableRun { result: RunResult::new(config), total, done: 0, stopped: false }
    }

    /// The index of the binary to run next. Once a run with fail-fast has
    /// recorded a suite that did not pass, there is none: the binaries
    /// after it are never run.
    pub fn next(&self) -> (r: Option<usize>)
        ensures
            match r {
                Some(i) => self@.next() == Some(i as nat),
                None => self@.next() is None,
            },
    {
        if self.stopped || self.done >= self.total {
            None
        } else {
            Some(self.done)
        }
    }

    /// Whether the suite result `suite` can be recorded: a binary is left
    /// to run, and the number of tests still fits the counter.
    pub fn can_record(&self, suite: &SuiteResult) -> (r: bool)
        ensures
            r == (self@.next() is Some && self.result.total_tests + suite.total_tests
                <= usize::MAX),
    {
        !self.stopped && self.done < self.total && self.result.has_room_for(suite)
    }

    /// Records the suite result of the binary that was run, at the time
    /// `now`; see [`RunView::after`].
    pub fn record_at(&mut self, suite: SuiteResult, now: i64)
        requires
            old(self).wf(),
            suite.wf(),
            old(self)@.next() is Some,
            old(self).result.total_tests + suite.total_tests <= usize::MAX,
        ensures
            final(self).wf(),
            final(self).result.config == old(self).result.config,
            final(self)@ == old(self)@.after(suite@, now),
            old(self)@.fail_fast && !suite@.all_passed() ==> final(self)@.next() is None
                && final(self)@.result.error == Some(fail_fast_error()),
    {
        let all_passed = suite.all_passed();
        self.result.add_suite_result(suite);
        self.done += 1;
        if self.result.config.fail_fast && !all_passed {
            self.result.finish_at(
                Some(Error::test_execution("Failing fast due to test failure")),
                now,
            );
            self.stopped = true;
        }
    }

    /// Records the outcome of the binary `name` that was run. A binary that
    /// could not be run, or whose output could not be followed, is recorded
    /// as a suite with one failed test, so that it does not keep the other
    /// binaries from running. With fail-fast, a suite that did not pass
    /// stops the run.
    ///
    /// Nothing is recorded, and `false` is returned, where no binary is
    /// left to run or the number of tests no longer fits the counter.
    pub fn record(&mut self, name: &str, outcome: Result<SuiteResult, Error>) -> (recorded: bool)
        requires
            old(self).wf(),
            outcome is Ok ==> outcome->Ok_0.wf(),
        ensures
            final(self).wf(),
            final(self).result.config == old(self).result.config,
            recorded == (old(self)@.next() is Some && old(self).result.total_tests + (match outcome {
                Ok(suite) => suite.total_tests as int,
                Err(_) => 1int,
            }) <= usize::MAX),
            !recorded ==> final(self)@ == old(self)@,
            recorded ==> final(self)@.done == old(self)@.done + 1
                && final(self)@.result.suite_results.len() == old(self)@.result.suite_results.len()
                + 1 && final(self)@.total == old(self)@.total
                && final(self)@.fail_fast == old(self)@.fail_fast,
            recorded && outcome is Ok ==> exists|now: i64| #[trigger]
                final(self)@ == old(self)@.after(outcome->Ok_0@, now),
            recorded && outcome is Err ==> exists|suite: SuiteResultView, now: i64|
                is_failed_suite(suite, name@, outcome->Err_0@)
                    && final(self)@ == #[trigger] old(self)@.after(suite, now),
            recorded && outcome is Err ==> {
                let suite = final(self)@.result.suite_results.last();
                &&& suite.name == mod_name(name@)
                &&& suite.test_results.len() == 1
                &&& suite.test_results[0].name == system_error_name(name@)
                &&& suite.test_results[0].status == TestStatus::Failed
                &&& suite.test_results[0].error == Some(outcome->Err_0@)
            },
            recorded && old(self)@.fail_fast && (outcome is Err || !outcome->Ok_0@.all_passed())
                ==> final(self)@.next() is None && final(self)@.result.error == Some(
                fail_fast_error(),
            ),
            recorded && !(old(self)@.fail_fast && (outcome is Err || !outcome->Ok_0@.all_passed()))
                ==> final(self)@.stopped == old(self)@.stopped && final(self)@.result.error
                == old(self)@.result.error,
    {
        let suite = match outcome {
            Ok(suite) => suite,
            Err(e) => create_failed_suite_result(name, e),
        };
        if !self.can_record(&suite) {
            return false;
        }
        let now = now_millis();
        let ghost before = self@;
        let ghost added = suite@;
        self.record_at(suite, now);
        assert(self@ == before.after(added, now));
        true
    }

    /// Ends the run at the time `now`: a run that met no error is finished
    /// without one; a run that stopped keeps the error it stopped with.
    pub fn finish_at(self, now: i64) -> (r: RunResult)
        requires
            self.wf(),
        ensures
            r.wf(),
            r.config == self.result.config,
            r@ == self@.ended(now),
    {
        let mut result = self.result;
        if result.error.is_none() {
            result.finish_at(None, now);
        }
        result
    }

    /// Ends the run now; see [`Self::finish_at`]. The result holds the
    /// time the run ended and how long it took.
    pub fn finish(self) -> (r: RunResult)
        requires
            self.wf(),
        ensures
            r.wf(),
            r.config == self.result.config,
            exists|now: i64| r@ == #[trigger] self@.ended(now),
            r@.end_time is Some,
            r@.duration is Some,
            self@.result.error is None ==> r@.duration == Some(
                elapsed_between(self@.result.start_time, r@.end_time->0),
            ),
            self@.result.error is Some ==> r@ == self@.result,
            r@.suite_results == self@.result.suite_results,
            r@.error == self@.result.error,
            r@.total_tests == self@.result.total_tests,
            r@.failed_tests == self@.result.failed_tests,
    {
        let now = now_millis();
        let r = self.finish_at(now);
        assert(r@ == self@.ended(now));
        r
    }
}

} // verus!
