//! One build attempt: resolve the inputs, compile each of them, then link.
//!
//! The compile tasks of distinct inputs are independent and may be run in
//! any order, or at once. Their results are collected by position, so the
//! artifacts reach the linker in the order of the resolved inputs whatever
//! the order of completion. The first failure that is reported ends the
//! attempt: the link stage is never asked for, and what finishes later is
//! discarded.

use vstd::prelude::*;
use vstd::string::*;
use crate::assembler::{artifacts_of, assemble, assembly, expand_globs, expansion, list_result_is,
    ArtifactView, CompileArtifact, CompileStep, MatchingView, StepView};
use crate::cli::{Config, Settings};
use crate::error::{BuildError, Failure, Tool};
use crate::linker::{link, linking, opt_path, LinkStep, LinkView};
use crate::text::{is_least, lemma_least_exists, texts};
use crate::tool::{judge, run_failure, CommandLine, Invocation, Platform, RunView, ToolRun};

verus! {

/// One compile task: the command to run and the position its result is
/// collected at.
#[derive(Debug, PartialEq, Eq)]
pub struct Job {
    pub index: usize,
    pub command: Invocation,
}

/// The mathematical content of a [`Job`].
pub struct JobView {
    pub index: int,
    pub command: CommandLine,
}

impl View for Job {
    type V = JobView;

    open spec fn view(&self) -> JobView {
        JobView { index: self.index as int, command: self.command@ }
    }
}

/// Where a build attempt stands.
#[derive(Debug, PartialEq, Eq)]
pub enum Progress {
    /// Compile results are still outstanding.
    Waiting,
    /// Every input is compiled; these are the artifacts, in the order of the
    /// resolved inputs.
    Ready { artifacts: Vec<CompileArtifact> },
    /// The attempt has failed, with the first failure that was reported.
    Failed(BuildError),
}

/// The mathematical content of a [`Progress`].
pub enum ProgressView {
    Waiting,
    Ready { artifacts: Seq<ArtifactView> },
    Failed(Failure),
}

impl View for Progress {
    type V = ProgressView;

    open spec fn view(&self) -> ProgressView {
        match *self {
            Progress::Waiting => ProgressView::Waiting,
            Progress::Ready { artifacts } => ProgressView::Ready {
                artifacts: Seq::new(artifacts@.len(), |i: int| artifacts@[i]@),
            },
            Progress::Failed(e) => ProgressView::Failed(e@),
        }
    }
}

/// What is to be done next in a build attempt.
#[derive(Debug, PartialEq, Eq)]
pub enum Action {
    /// Wait for more compile results.
    Wait,
    /// Enter the link stage.
    Link(LinkStep),
    /// Give the attempt up and report this failure.
    Abort(BuildError),
}

/// The mathematical content of an [`Action`].
pub enum ActionView {
    Wait,
    Link(LinkView),
    Abort(Failure),
}

impl View for Action {
    type V = ActionView;

    open spec fn view(&self) -> ActionView {
        match *self {
            Action::Wait => ActionView::Wait,
            Action::Link(step) => ActionView::Link(step@),
            Action::Abort(e) => ActionView::Abort(e@),
        }
    }
}

/// The state of a build attempt: the compile step of every resolved input,
/// which positions are compiled, and the first failure reported.
pub struct Attempt {
    pub steps: Seq<StepView>,
    pub done: Seq<bool>,
    pub failure: Option<Failure>,
}

/// The compile stage of one build attempt, collecting results by position.
#[derive(Debug)]
pub struct Pipeline {
    steps: Vec<CompileStep>,
    done: Vec<bool>,
    failure: Option<BuildError>,
}

impl View for Pipeline {
    type V = Attempt;

    closed spec fn view(&self) -> Attempt {
        Attempt {
            steps: Seq::new(self.steps@.len(), |i: int| self.steps@[i]@),
            done: self.done@,
            failure: match self.failure {
                Some(e) => Some(e@),
                None => None,
            },
        }
    }
}

/// The artifact a compile step produces.
pub open spec fn step_artifact(step: StepView) -> ArtifactView {
    match step {
        StepView::Done { artifact } => artifact,
        StepView::Run { command, artifact } => artifact,
    }
}

/// The artifacts of the steps, position by position.
pub open spec fn artifacts(steps: Seq<StepView>) -> Seq<ArtifactView> {
    Seq::new(steps.len(), |i: int| step_artifact(steps[i]))
}

/// The object files of the artifacts, position by position: what the
/// linker is handed.
pub open spec fn objects(artifacts: Seq<ArtifactView>) -> Seq<Seq<char>> {
    Seq::new(artifacts.len(), |i: int| artifacts[i].object)
}

/// Every step has its place in the record of what is compiled.
pub open spec fn consistent(a: Attempt) -> bool {
    a.done.len() == a.steps.len()
}

/// Every position is compiled.
pub open spec fn all_done(a: Attempt) -> bool {
    forall|i: int| 0 <= i < a.done.len() ==> a.done[i]
}

/// Where an attempt stands: failed once a failure was reported, ready when
/// every position is compiled, and waiting otherwise.
pub open spec fn progress_of(a: Attempt) -> ProgressView {
    match a.failure {
        Some(failure) => ProgressView::Failed(failure),
        None => if all_done(a) {
            ProgressView::Ready { artifacts: artifacts(a.steps) }
        } else {
            ProgressView::Waiting
        },
    }
}

/// What is to be done next: the link stage is entered only when every
/// input is compiled, and never after a failure.
pub open spec fn action_of(
    a: Attempt,
    c: Settings,
    platform: Platform,
    sdk_path: Option<Seq<char>>,
) -> ActionView {
    match progress_of(a) {
        ProgressView::Waiting => ActionView::Wait,
        ProgressView::Failed(failure) => ActionView::Abort(failure),
        ProgressView::Ready { artifacts } => ActionView::Link(
            linking(objects(artifacts), c, platform, sdk_path),
        ),
    }
}

/// `i` is the position of the first input that still holds a `*`.
pub open spec fn is_first_unexpanded(inputs: Seq<Seq<char>>, i: int) -> bool {
    &&& 0 <= i < inputs.len()
    &&& inputs[i].contains('*')
    &&& forall|j: int| 0 <= j < i ==> !(#[trigger] inputs[j]).contains('*')
}

/// The attempt that the resolved inputs start: one compile step for each
/// input, in order. The steps of a dry run are compiled from the start. An
/// input that the compile stage refuses fails the attempt before anything
/// is run.
pub open spec fn planned(inputs: Seq<Seq<char>>, c: Settings) -> Result<Attempt, Failure> {
    if forall|i: int| 0 <= i < inputs.len() ==> !(#[trigger] inputs[i]).contains('*') {
        Ok(
            Attempt {
                steps: Seq::new(inputs.len(), |i: int| assembly(inputs[i], c)->Ok_0),
                done: Seq::new(inputs.len(), |i: int| c.dry_run),
                failure: None,
            },
        )
    } else {
        let first = choose|i: int| is_first_unexpanded(inputs, i);
        Err(Failure::Unexpanded { input: inputs[first] })
    }
}

/// `result` is what a build attempt begins as, given what its inputs
/// resolved to: the failure of the resolution, or else the failure of the
/// planning, or else the attempt planned for the resolved inputs.
pub open spec fn begun_as(
    result: Result<Pipeline, BuildError>,
    resolved: Result<Seq<Seq<char>>, Failure>,
    c: Settings,
) -> bool {
    match resolved {
        Err(failure) => result matches Err(e) && e@ == failure,
        Ok(inputs) => match planned(inputs, c) {
            Ok(attempt) => result matches Ok(p) && p@ == attempt && consistent(p@),
            Err(failure) => result matches Err(e) && e@ == failure,
        },
    }
}

/// The compile tasks of the steps: one for each step that is to be run, in
/// the order of the steps.
pub open spec fn jobs_of(steps: Seq<StepView>) -> Seq<JobView>
    decreases steps.len(),
{
    if steps.len() == 0 {
        Seq::empty()
    } else {
        let earlier = jobs_of(steps.drop_last());
        match steps.last() {
            StepView::Run { command, artifact } => earlier.push(
                JobView { index: steps.len() - 1, command },
            ),
            StepView::Done { artifact } => earlier,
        }
    }
}

/// The attempt after the compile task at `index` is reported to have ended
/// with `run`. A report is discarded when the attempt has failed already,
/// when no such position exists, and when the position is compiled already.
/// Otherwise a successful run marks the position as compiled, and any other
/// run is the attempt's failure.
pub open spec fn after_completion(a: Attempt, index: int, run: RunView) -> Attempt {
    if a.failure is Some || !(0 <= index < a.done.len()) || a.done[index] {
        a
    } else {
        match run_failure(Tool::Assembler, run) {
            None => Attempt { done: a.done.update(index, true), ..a },
            Some(failure) => Attempt { failure: Some(failure), ..a },
        }
    }
}

/// The attempt after a series of reports, taken in the order given.
pub open spec fn replay(a: Attempt, events: Seq<(int, RunView)>) -> Attempt
    decreases events.len(),
{
    if events.len() == 0 {
        a
    } else {
        after_completion(replay(a, events.drop_last()), events.last().0, events.last().1)
    }
}

/// One of the reports is for position `i`.
pub open spec fn reported(events: Seq<(int, RunView)>, i: int) -> bool {
    exists|k: int| 0 <= k < events.len() && (#[trigger] events[k]).0 == i
}

/// The run is a success of the assembler.
pub open spec fn succeeded(run: RunView) -> bool {
    run_failure(Tool::Assembler, run) is None
}

/// Successful reports change nothing but the record of what is compiled,
/// and a position is compiled after them exactly when it was before or one
/// of them reports it.
proof fn lemma_replay_successes(a: Attempt, events: Seq<(int, RunView)>)
    requires
        consistent(a),
        a.failure is None,
        forall|k: int| 0 <= k < events.len() ==> succeeded((#[trigger] events[k]).1),
    ensures
        replay(a, events).steps == a.steps,
        replay(a, events).failure is None,
        replay(a, events).done.len() == a.done.len(),
        forall|i: int|
            0 <= i < a.done.len() ==> (#[trigger] replay(a, events).done[i] <==> (a.done[i]
                || reported(events, i))),
    decreases events.len(),
{
    if events.len() > 0 {
        let earlier = events.drop_last();
        lemma_replay_successes(a, earlier);
        let before = replay(a, earlier);
        let after = replay(a, events);
        assert(succeeded(events[events.len() - 1].1));
        assert forall|i: int| 0 <= i < a.done.len() implies (#[trigger] after.done[i] <==> (
            a.done[i] || reported(events, i))) by {
            if after.done[i] {
                if !a.done[i] {
                    if before.done[i] {
                        let k = choose|k: int|
                            0 <= k < earlier.len() && (#[trigger] earlier[k]).0 == i;
                        assert(events[k].0 == i);
                    } else {
                        assert(events[events.len() - 1].0 == i);
                    }
                }
            } else {
                if reported(events, i) {
                    let k = choose|k: int| 0 <= k < events.len() && (#[trigger] events[k]).0 == i;
                    if k < earlier.len() {
                        assert(earlier[k].0 == i);
                    }
                }
            }
        }
    }
}

/// An attempt that has failed stays as it is, whatever is reported.
proof fn lemma_failure_absorbs(a: Attempt, events: Seq<(int, RunView)>)
    requires
        a.failure is Some,
    ensures
        replay(a, events) == a,
    decreases events.len(),
{
    if events.len() > 0 {
        lemma_failure_absorbs(a, events.drop_last());
    }
}

/// Replaying a series is replaying its first `k` reports and then the rest.
proof fn lemma_replay_split(a: Attempt, events: Seq<(int, RunView)>, k: int)
    requires
        0 <= k <= events.len(),
    ensures
        replay(a, events) == replay(replay(a, events.take(k)), events.skip(k)),
    decreases events.len(),
{
    if k == events.len() {
        assert(events.take(k) =~= events);
        assert(events.skip(k) =~= Seq::empty());
    } else {
        let earlier = events.drop_last();
        lemma_replay_split(a, earlier, k);
        assert(earlier.take(k) =~= events.take(k));
        assert(earlier.skip(k) =~= events.skip(k).drop_last());
        assert(events.skip(k).last() == events.last());
    }
}

/// An attempt is refused exactly when one of the inputs still holds a `*`,
/// and then in the name of the first input that does.
pub proof fn law_unexpanded_input_is_refused(inputs: Seq<Seq<char>>, c: Settings)
    ensures
        planned(inputs, c) is Err <==> exists|i: int|
            0 <= i < inputs.len() && (#[trigger] inputs[i]).contains('*'),
        planned(inputs, c) is Err ==> exists|i: int|
            is_first_unexpanded(inputs, i) && planned(inputs, c) == Err::<Attempt, Failure>(
                Failure::Unexpanded { input: inputs[i] },
            ),
{
    if planned(inputs, c) is Err {
        let starred = |i: int| inputs[i].contains('*');
        assert(exists|i: int| 0 <= i < inputs.len() && #[trigger] starred(i)) by {
            let i = choose|i: int| 0 <= i < inputs.len() && (#[trigger] inputs[i]).contains('*');
            assert(starred(i));
        }
        lemma_least_exists(starred, inputs.len() as int);
        let least = choose|i: int| is_least(starred, inputs.len() as int, i);
        assert(is_first_unexpanded(inputs, least)) by {
            assert forall|j: int| 0 <= j < least implies !(#[trigger] inputs[j]).contains('*') by {
                assert(!starred(j));
            }
        }
    }
}

/// The order of completion does not matter: once every position has been
/// reported as a success, in whatever order and however often, the attempt
/// is ready, and its artifacts are those of the resolved inputs in the
/// order of the resolved inputs.
pub proof fn law_collected_in_resolver_order(
    inputs: Seq<Seq<char>>,
    c: Settings,
    events: Seq<(int, RunView)>,
)
    requires
        planned(inputs, c) is Ok,
        forall|k: int| 0 <= k < events.len() ==> succeeded((#[trigger] events[k]).1),
        forall|i: int| 0 <= i < inputs.len() ==> #[trigger] reported(events, i),
    ensures
        progress_of(replay(planned(inputs, c)->Ok_0, events)) == (ProgressView::Ready {
            artifacts: artifacts_of(inputs),
        }),
{
    let a = planned(inputs, c)->Ok_0;
    lemma_replay_successes(a, events);
    let end = replay(a, events);
    assert forall|i: int| 0 <= i < end.done.len() implies end.done[i] by {
        assert(reported(events, i));
    }
    assert(artifacts(end.steps) =~= artifacts_of(inputs));
}

/// The first failure ends the attempt: when the first report that is no
/// success is for a position that is not compiled yet, the attempt has
/// failed with exactly that run's failure, whatever is reported later, and
/// the link stage is not entered.
pub proof fn law_first_failure_is_reported(
    a: Attempt,
    events: Seq<(int, RunView)>,
    k: int,
    c: Settings,
    platform: Platform,
    sdk_path: Option<Seq<char>>,
)
    requires
        consistent(a),
        a.failure is None,
        0 <= k < events.len(),
        forall|j: int| 0 <= j < k ==> succeeded((#[trigger] events[j]).1),
        !succeeded(events[k].1),
        0 <= events[k].0 < a.steps.len(),
        !a.done[events[k].0],
        forall|j: int| 0 <= j < k ==> (#[trigger] events[j]).0 != events[k].0,
    ensures
        progress_of(replay(a, events)) == ProgressView::Failed(
            run_failure(Tool::Assembler, events[k].1)->Some_0,
        ),
        action_of(replay(a, events), c, platform, sdk_path) == ActionView::Abort(
            run_failure(Tool::Assembler, events[k].1)->Some_0,
        ),
{
    let head = events.take(k);
    lemma_replay_successes(a, head);
    let before = replay(a, head);
    let i = events[k].0;
    assert(!before.done[i]) by {
        if reported(head, i) {
            let j = choose|j: int| 0 <= j < head.len() && (#[trigger] head[j]).0 == i;
            assert(events[j].0 == i);
        }
    }
    let upto = events.take(k + 1);
    assert(upto.drop_last() =~= head);
    assert(upto.last() == events[k]);
    let failed = replay(a, upto);
    assert(failed.failure == Some(run_failure(Tool::Assembler, events[k].1)->Some_0));
    lemma_replay_split(a, events, k + 1);
    lemma_failure_absorbs(failed, events.skip(k + 1));
}

/// A dry run starts no process: no compile task is handed out, the attempt
/// is ready from the start, and the link stage asks for nothing.
pub proof fn law_dry_run_runs_nothing(
    inputs: Seq<Seq<char>>,
    c: Settings,
    platform: Platform,
    sdk_path: Option<Seq<char>>,
)
    requires
        c.dry_run,
        planned(inputs, c) is Ok,
    ensures
        jobs_of(planned(inputs, c)->Ok_0.steps) == Seq::<JobView>::empty(),
        progress_of(planned(inputs, c)->Ok_0) == (ProgressView::Ready {
            artifacts: artifacts_of(inputs),
        }),
        action_of(planned(inputs, c)->Ok_0, c, platform, sdk_path) == ActionView::Link(
            LinkView::Done,
        ),
{
    let a = planned(inputs, c)->Ok_0;
    assert(artifacts(a.steps) =~= artifacts_of(inputs));
    lemma_no_jobs(a.steps);
}

/// Steps that are all done hand out no compile task.
proof fn lemma_no_jobs(steps: Seq<StepView>)
    requires
        forall|i: int| 0 <= i < steps.len() ==> (#[trigger] steps[i]) is Done,
    ensures
        jobs_of(steps) == Seq::<JobView>::empty(),
    decreases steps.len(),
{
    if steps.len() > 0 {
        lemma_no_jobs(steps.drop_last());
    }
}

/// The object files of the artifacts, in their order: what the linker is
/// handed.
pub fn object_files(artifacts: &[CompileArtifact]) -> (paths: Vec<String>)
    ensures
        texts(paths@) == objects(Seq::new(artifacts@.len(), |i: int| artifacts@[i]@)),
{
    let mut paths: Vec<String> = Vec::new();
    let mut i: usize = 0;
    while i < artifacts.len()
        invariant
            i <= artifacts.len(),
            paths.len() == i,
            forall|j: int| 0 <= j < i ==> (#[trigger] paths@[j])@ == artifacts@[j]@.object,
        decreases artifacts.len() - i,
    {
        paths.push(String::from_str(artifacts[i].object()));
        i += 1;
    }
    assert(texts(paths@) =~= objects(Seq::new(artifacts@.len(), |i: int| artifacts@[i]@)));
    paths
}

impl Pipeline {
    /// Plans the compile stage for the resolved inputs.
    pub fn start(inputs: &[String], config: &Config) -> (result: Result<Pipeline, BuildError>)
        ensures
            (match planned(texts(inputs@), config@) {
                Ok(attempt) => result matches Ok(p) && p@ == attempt && consistent(p@),
                Err(failure) => result matches Err(e) && e@ == failure,
            }),
    {
        let ghost all = texts(inputs@);
        let mut steps: Vec<CompileStep> = Vec::new();
        let mut done: Vec<bool> = Vec::new();
        let mut i: usize = 0;
        while i < inputs.len()
            invariant
                i <= inputs.len(),
                all == texts(inputs@),
                steps.len() == i,
                done.len() == i,
                forall|j: int| 0 <= j < i ==> !(#[trigger] all[j]).contains('*'),
                forall|j: int|
                    0 <= j < i ==> (#[trigger] steps@[j])@ == assembly(all[j], config@)->Ok_0,
                forall|j: int| 0 <= j < i ==> (#[trigger] done@[j]) == config@.dry_run,
            decreases inputs.len() - i,
        {
            match assemble(inputs[i].as_str(), config) {
                Ok(step) => {
                    steps.push(step);
                    done.push(config.dry_run);
                },
                Err(e) => {
                    proof {
                        assert(all[i as int] == inputs@[i as int]@);
                        assert(is_first_unexpanded(all, i as int));
                        let first = choose|k: int| is_first_unexpanded(all, k);
                        assert(first == i);
                    }
                    return Err(e);
                },
            }
            i += 1;
        }
        let pipeline = Pipeline { steps, done, failure: None };
        proof {
            let attempt = planned(all, config@)->Ok_0;
            assert(pipeline@.steps =~= attempt.steps);
            assert(pipeline@.done =~= attempt.done);
        }
        Ok(pipeline)
    }

    /// The number of resolved inputs.
    pub fn len(&self) -> (n: usize)
        ensures
            n == self@.steps.len(),
    {
        self.steps.len()
    }

    /// The compile tasks to run, in the order of the resolved inputs.
    pub fn jobs(&self) -> (jobs: Vec<Job>)
        ensures
            Seq::new(jobs@.len(), |i: int| jobs@[i]@) == jobs_of(self@.steps),
    {
        let ghost all = self@.steps;
        let mut jobs: Vec<Job> = Vec::new();
        let mut i: usize = 0;
        assert(all.take(0) =~= Seq::empty());
        while i < self.steps.len()
            invariant
                i <= self.steps.len(),
                all == self@.steps,
                all.len() == self.steps.len(),
                Seq::new(jobs@.len(), |k: int| jobs@[k]@) == jobs_of(all.take(i as int)),
            decreases self.steps.len() - i,
        {
            let ghost before = Seq::new(jobs@.len(), |k: int| jobs@[k]@);
            proof {
                assert(all.take(i as int + 1).drop_last() =~= all.take(i as int));
                assert(all.take(i as int + 1).last() == self.steps@[i as int]@);
            }
            match &self.steps[i] {
                CompileStep::Run { command, artifact: _ } => {
                    jobs.push(Job { index: i, command: command.clone() });
                    assert(Seq::new(jobs@.len(), |k: int| jobs@[k]@) =~= before.push(
                        JobView { index: i as int, command: command@ },
                    ));
                },
                CompileStep::Done { artifact: _ } => {},
            }
            i += 1;
        }
        assert(all.take(self.steps.len() as int) =~= all);
        jobs
    }

    /// Takes in the report that the compile task at `index` ended with
    /// `run`.
    pub fn completed(&mut self, index: usize, run: &ToolRun)
        ensures
            final(self)@ == after_completion(old(self)@, index as int, run@),
            consistent(old(self)@) ==> consistent(final(self)@),
    {
        if self.failure.is_some() || index >= self.done.len() || self.done[index] {
            return ;
        }
        match judge(Tool::Assembler, run) {
            Ok(()) => {
                self.done.set(index, true);
            },
            Err(e) => {
                self.failure = Some(e);
            },
        }
    }

    /// The artifacts the attempt is to produce, one for each resolved input
    /// and in their order, whether or not they are produced yet.
    pub fn artifacts(&self) -> (artifacts: Vec<CompileArtifact>)
        ensures
            Seq::new(artifacts@.len(), |i: int| artifacts@[i]@) == crate::pipeline::artifacts(
                self@.steps,
            ),
    {
        let mut artifacts: Vec<CompileArtifact> = Vec::new();
        let mut k: usize = 0;
        while k < self.steps.len()
            invariant
                k <= self.steps.len(),
                artifacts.len() == k,
                forall|j: int|
                    0 <= j < k ==> (#[trigger] artifacts@[j])@ == step_artifact(
                        self.steps@[j]@,
                    ),
            decreases self.steps.len() - k,
        {
            match &self.steps[k] {
                CompileStep::Done { artifact } => {
                    artifacts.push(artifact.clone());
                },
                CompileStep::Run { command: _, artifact } => {
                    artifacts.push(artifact.clone());
                },
            }
            k += 1;
        }
        assert(Seq::new(artifacts@.len(), |i: int| artifacts@[i]@) =~= crate::pipeline::artifacts(
            self@.steps,
        ));
        artifacts
    }

    /// Where the attempt stands.
    pub fn progress(&self) -> (progress: Progress)
        ensures
            progress@ == progress_of(self@),
    {
        if let Some(e) = &self.failure {
            return Progress::Failed(e.clone());
        }
        let mut i: usize = 0;
        while i < self.done.len()
            invariant
                i <= self.done.len(),
                self.failure is None,
                forall|j: int| 0 <= j < i ==> self.done@[j],
            decreases self.done.len() - i,
        {
            if !self.done[i] {
                assert(!self@.done[i as int]);
                return Progress::Waiting;
            }
            i += 1;
        }
        let artifacts = self.artifacts();
        Progress::Ready { artifacts }
    }

    /// What is to be done next. The link stage is entered only when every
    /// input is compiled; after a failure the attempt is given up.
    pub fn action(&self, config: &Config, platform: Platform, sdk_path: Option<String>) -> (next:
        Action)
        ensures
            next@ == action_of(self@, config@, platform, opt_path(sdk_path)),
    {
        match self.progress() {
            Progress::Waiting => Action::Wait,
            Progress::Failed(e) => Action::Abort(e),
            Progress::Ready { artifacts } => {
                let objects = object_files(&artifacts);
                Action::Link(link(&objects, config, platform, sdk_path))
            },
        }
    }
}

/// Begins a build attempt: resolves the configured inputs against the file
/// system and plans the compile stage for what they resolve to. Whatever
/// the matching gave, the outcome is the failure of the resolution, or the
/// attempt [`planned`] for the resolved inputs.
pub fn build_project(config: &Config) -> (result: Result<Pipeline, BuildError>)
    ensures
        exists|outcomes: Seq<MatchingView>|
            outcomes.len() == config.input_files.len() && begun_as(
                result,
                #[trigger] expansion(config@.input_files, outcomes),
                config@,
            ),
{
    let resolved = expand_globs(&config.input_files);
    let ghost outcomes = choose|outcomes: Seq<MatchingView>|
        outcomes.len() == config.input_files.len() && list_result_is(
            resolved,
            #[trigger] expansion(texts(config.input_files@), outcomes),
        );
    let result = match resolved {
        Ok(inputs) => Pipeline::start(&inputs, config),
        Err(e) => Err(e),
    };
    assert(begun_as(result, expansion(config@.input_files, outcomes), config@));
    result
}

} // verus!
