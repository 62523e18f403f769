//! The per-device step engine's observable state.
//!
//! An engine runs its steps strictly in order. Each step ends in exactly
//! one terminal outcome; a terminal error stops the engine, and the
//! outcomes of completed steps never change afterwards. The event buffer
//! that readers snapshot is an append-only log.

use vstd::prelude::*;

verus! {

/// The terminal outcome of one step.
#[derive(Clone, Copy, Debug, PartialEq, Eq, Structural)]
pub enum StepOutcome {
    /// The step did its work.
    Success,
    /// The step did its work, with a caveat.
    Warning,
    /// The step decided its work was not needed.
    Skipped,
    /// The step failed; the engine runs no further step.
    Failed,
    /// The step was cancelled by an abort; the engine runs no further step.
    Aborted,
}

impl StepOutcome {
    /// Whether this outcome lets the engine continue with the next step.
    pub open spec fn continues(self) -> bool {
        match self {
            StepOutcome::Success | StepOutcome::Warning | StepOutcome::Skipped => true,
            StepOutcome::Failed | StepOutcome::Aborted => false,
        }
    }
}

/// The recorded status of one step.
#[derive(Clone, Copy, Debug, PartialEq, Eq, Structural)]
pub enum StepStatus {
    /// The step has not started.
    NotStarted,
    /// The step is executing.
    Running,
    /// The step ended, once and for all, in this outcome.
    Terminal(StepOutcome),
}

/// One entry of the engine's append-only event log.
#[derive(Clone, Copy, Debug, PartialEq, Eq, Structural)]
pub enum StepEvent {
    /// The step at this index started executing.
    Started(usize),
    /// The step at this index published a progress sample.
    Progress(usize, u64, u64),
    /// The step at this index ended in this outcome.
    Ended(usize, StepOutcome),
}

/// The observable state of one engine: a status per registered step and
/// the ordered log of events so far.
#[derive(Clone, Debug, PartialEq, Eq)]
pub struct EngineState {
    pub steps: Vec<StepStatus>,
    pub events: Vec<StepEvent>,
}

impl EngineState {
    /// A well-formed engine's statuses read, in step order: terminal
    /// outcomes that continue, then at most one running or terminal step,
    /// then steps not started.
    pub open spec fn wf(self) -> bool {
        forall|i: int, j: int|
            #![trigger self.steps@[i], self.steps@[j]]
            0 <= i < j < self.steps@.len() ==> (self.steps@[j] != StepStatus::NotStarted
                ==> (self.steps@[i] matches StepStatus::Terminal(o) && o.continues()))
    }

    /// A new engine over `n` registered steps: nothing started, no events.
    pub fn new(n: usize) -> (r: EngineState)
        ensures
            r.steps@.len() == n,
            forall|i: int| 0 <= i < n ==> r.steps@[i] == StepStatus::NotStarted,
            r.events@.len() == 0,
            r.wf(),
    {
        let mut steps: Vec<StepStatus> = Vec::new();
        let mut i: usize = 0;
        while i < n
            invariant
                i <= n,
                steps@.len() == i,
                forall|q: int| 0 <= q < i ==> steps@[q] == StepStatus::NotStarted,
            decreases n - i,
        {
            steps.push(StepStatus::NotStarted);
            i += 1;
        }
        EngineState { steps, events: Vec::new() }
    }

    /// Start the step at `i`.
    ///
    /// A step starts only if it is the next one: every earlier step ended
    /// in an outcome that continues, and the step itself has not started.
    pub fn start_step(&mut self, i: usize)
        requires
            old(self).wf(),
            i < old(self).steps@.len(),
            old(self).steps@[i as int] == StepStatus::NotStarted,
            forall|q: int|
                0 <= q < i ==> ((#[trigger] old(self).steps@[q]) matches StepStatus::Terminal(o)
                    && o.continues()),
        ensures
            final(self).wf(),
            final(self).steps@ == old(self).steps@.update(i as int, StepStatus::Running),
            final(self).events@ == old(self).events@.push(StepEvent::Started(i)),
    {
        self.steps.set(i, StepStatus::Running);
        self.events.push(StepEvent::Started(i));
    }

    /// Record a progress sample of the running step at `i`.
    pub fn record_progress(&mut self, i: usize, current: u64, total: u64)
        requires
            old(self).wf(),
            i < old(self).steps@.len(),
            old(self).steps@[i as int] == StepStatus::Running,
        ensures
            final(self).wf(),
            final(self).steps@ == old(self).steps@,
            final(self).events@ == old(self).events@.push(
                StepEvent::Progress(i, current, total),
            ),
    {
        self.events.push(StepEvent::Progress(i, current, total));
    }

    /// Record the terminal outcome of the running step at `i`.
    ///
    /// Once recorded, the outcome never changes: terminal steps are not
    /// touched by any transition, as each transition's contract states.
    pub fn complete_step(&mut self, i: usize, outcome: StepOutcome)
        requires
            old(self).wf(),
            i < old(self).steps@.len(),
            old(self).steps@[i as int] == StepStatus::Running,
        ensures
            final(self).wf(),
            final(self).steps@ == old(self).steps@.update(
                i as int,
                StepStatus::Terminal(outcome),
            ),
            final(self).events@ == old(self).events@.push(StepEvent::Ended(i, outcome)),
            forall|q: int|
                0 <= q < old(self).steps@.len() && q != i ==> final(self).steps@[q] == old(
                    self,
                ).steps@[q],
    {
        proof {
            let s2 = old(self).steps@.update(i as int, StepStatus::Terminal(outcome));
            assert forall|a: int, b: int|
                #![trigger s2[a], s2[b]]
                0 <= a < b < s2.len() && s2[b] != StepStatus::NotStarted implies (s2[a] matches
            StepStatus::Terminal(o) && o.continues()) by {
                if a == i {
                    assert(old(self).steps@[b] != StepStatus::NotStarted);
                    assert(old(self).steps@[a as int] == StepStatus::Running);
                    assert(false);
                } else if b == i {
                    assert(old(self).steps@[a] != StepStatus::NotStarted ==> (
                    old(self).steps@[a] matches StepStatus::Terminal(o) && o.continues()));
                    assert(old(self).steps@[b as int] == StepStatus::Running);
                }
            }
        }
        self.steps.set(i, StepStatus::Terminal(outcome));
        self.events.push(StepEvent::Ended(i, outcome));
    }
}

/// Terminal outcomes are stable: no engine transition changes the
/// recorded outcome of a step that already ended.
///
/// Each transition's contract leaves every index other than its own
/// untouched, and each requires its own step not to be terminal; this
/// lemma restates the consequence for one step and one completed
/// transition.
pub proof fn lemma_step_outcome_stable(
    pre: EngineState,
    post: EngineState,
    i: int,
    j: usize,
    outcome: StepOutcome,
)
    requires
        pre.wf(),
        0 <= i < pre.steps@.len(),
        pre.steps@[i] matches StepStatus::Terminal(_),
        j < pre.steps@.len(),
        pre.steps@[j as int] == StepStatus::Running,
        post.steps@ == pre.steps@.update(j as int, StepStatus::Terminal(outcome)),
    ensures
        post.steps@[i] == pre.steps@[i],
{
}

/// The event log only grows: after any engine transition, the old log is
/// a prefix of the new one.
pub proof fn lemma_event_log_append_only(pre: Seq<StepEvent>, post: Seq<StepEvent>, e: StepEvent)
    requires
        post == pre.push(e),
    ensures
        post.len() == pre.len() + 1,
        forall|k: int| 0 <= k < pre.len() ==> post[k] == pre[k],
{
}

} // verus!
