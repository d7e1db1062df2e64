//! A workflow: an ordered list of steps, run one external command at a
//! time until all are done or one fails.

use vstd::prelude::*;
use vstd::string::*;
use crate::command::{command_line, Action, ActionView, CommandLine, ShellCommand};
use crate::text::{trim, trimmed};
use crate::virt::{ErrorView, VirtError};

verus! {

/// A step of a workflow: the action, and whether a run that ends
/// without an exit code counts as a failure.
#[derive(Clone, Debug, PartialEq, Eq)]
pub struct Step {
    pub action: Action,
    pub status_required: bool,
}

/// The mathematical value of a [`Step`].
pub struct StepView {
    pub action: ActionView,
    pub status_required: bool,
}

impl View for Step {
    type V = StepView;

    open spec fn view(&self) -> StepView {
        StepView { action: self.action@, status_required: self.status_required }
    }
}

/// The values of a sequence of steps.
pub open spec fn step_views(steps: Seq<Step>) -> Seq<StepView> {
    steps.map_values(|s: Step| s@)
}

/// How a run of an external command ended.
#[derive(Clone, Debug, PartialEq, Eq)]
pub struct Outcome {
    /// The exit code; none if the process was killed by a signal.
    pub code: Option<i32>,
    /// What the process wrote to its error stream.
    pub stderr: String,
}

/// The mathematical value of an [`Outcome`].
pub struct OutcomeView {
    pub code: Option<i32>,
    pub stderr: Seq<char>,
}

impl View for Outcome {
    type V = OutcomeView;

    open spec fn view(&self) -> OutcomeView {
        OutcomeView { code: self.code, stderr: self.stderr@ }
    }
}

/// The value of an optional error.
pub open spec fn opt_error(e: Option<VirtError>) -> Option<ErrorView> {
    match e {
        Some(e) => Some(e@),
        None => None,
    }
}

/// The failure that an outcome amounts to, if any: an exit code other
/// than zero fails with the trimmed error stream; a missing exit code
/// fails only where the step requires one.
pub open spec fn verdict(step: StepView, outcome: OutcomeView) -> Option<ErrorView> {
    match outcome.code {
        Some(code) => if code == 0 {
            None
        } else {
            Some(ErrorView::ShellCommandFailed(trimmed(outcome.stderr)))
        },
        None => if step.status_required {
            Some(ErrorView::ShellCommandFailed("No status code"@))
        } else {
            None
        },
    }
}

/// Judges the outcome of a step.
pub fn judge(step: &Step, outcome: &Outcome) -> (failure: Option<VirtError>)
    ensures
        opt_error(failure) == verdict(step@, outcome@),
{
    match outcome.code {
        Some(code) => if code == 0 {
            None
        } else {
            Some(VirtError::ShellCommandFailed(trim(outcome.stderr.as_str())))
        },
        None => if step.status_required {
            Some(VirtError::ShellCommandFailed(String::from_str("No status code")))
        } else {
            None
        },
    }
}

/// The mathematical value of a [`Workflow`].
pub struct WorkflowView {
    /// The steps, in the order in which they run.
    pub steps: Seq<StepView>,
    /// How many steps have succeeded.
    pub done: nat,
    /// The failure of the step after those, if it failed.
    pub failure: Option<ErrorView>,
    /// What the workflow answers when all steps have succeeded.
    pub reply: Seq<char>,
}

/// A workflow in which no more steps are done than there are.
pub open spec fn valid(w: WorkflowView) -> bool {
    w.done <= w.steps.len()
}

/// The action to carry out next: none once a step has failed or all are done.
pub open spec fn pending(w: WorkflowView) -> Option<ActionView> {
    if w.failure is None && w.done < w.steps.len() {
        Some(w.steps[w.done as int].action)
    } else {
        None
    }
}

/// The workflow after the pending step ended in `outcome`. A failure
/// stops the workflow where it is; nothing is undone.
pub open spec fn recorded(w: WorkflowView, outcome: OutcomeView) -> WorkflowView {
    if pending(w) is None {
        w
    } else {
        match verdict(w.steps[w.done as int], outcome) {
            Some(e) => WorkflowView { failure: Some(e), ..w },
            None => WorkflowView { done: w.done + 1, ..w },
        }
    }
}

/// The answer of a workflow: the failure, the reply once all steps are
/// done, or nothing while a step is pending.
pub open spec fn answer(w: WorkflowView) -> Option<Result<Seq<char>, ErrorView>> {
    match w.failure {
        Some(e) => Some(Err(e)),
        None => if w.done < w.steps.len() {
            None
        } else {
            Some(Ok(w.reply))
        },
    }
}

/// The workflow after its steps ended in `outcomes`, one after another.
pub open spec fn run(w: WorkflowView, outcomes: Seq<OutcomeView>) -> WorkflowView
    decreases outcomes.len(),
{
    if outcomes.len() == 0 {
        w
    } else {
        recorded(run(w, outcomes.drop_last()), outcomes.last())
    }
}

/// The value of an answer.
pub open spec fn answer_view(a: Option<Result<String, VirtError>>) -> Option<
    Result<Seq<char>, ErrorView>,
> {
    match a {
        Some(Ok(text)) => Some(Ok(text@)),
        Some(Err(e)) => Some(Err(e@)),
        None => None,
    }
}

/// The value of an optional command.
pub open spec fn opt_command(c: Option<ShellCommand>) -> Option<CommandLine> {
    match c {
        Some(c) => Some(c@),
        None => None,
    }
}

/// A workflow and how far it has come.
#[derive(Debug)]
pub struct Workflow {
    steps: Vec<Step>,
    done: usize,
    failure: Option<VirtError>,
    reply: String,
}

impl View for Workflow {
    type V = WorkflowView;

    closed spec fn view(&self) -> WorkflowView {
        WorkflowView {
            steps: step_views(self.steps@),
            done: self.done as nat,
            failure: opt_error(self.failure),
            reply: self.reply@,
        }
    }
}

impl Workflow {
    #[verifier::type_invariant]
    spec fn in_range(self) -> bool {
        self.done <= self.steps.len()
    }

    /// A workflow of the given steps, none of them run yet.
    pub fn new(steps: Vec<Step>, reply: &str) -> (w: Workflow)
        ensures
            w@ == (WorkflowView {
                steps: step_views(steps@),
                done: 0,
                failure: None,
                reply: reply@,
            }),
            valid(w@),
    {
        Workflow { steps, done: 0, failure: None, reply: reply.to_owned() }
    }

    /// The action to carry out next.
    pub fn next_action(&self) -> (a: Option<&Action>)
        ensures
            match a {
                Some(a) => pending(self@) == Some(a@),
                None => pending(self@) is None,
            },
            valid(self@),
    {
        proof {
            use_type_invariant(self);
        }
        if self.failure.is_none() && self.done < self.steps.len() {
            Some(&self.steps[self.done].action)
        } else {
            None
        }
    }

    /// The command to run next.
    pub fn next_command(&self) -> (c: Option<ShellCommand>)
        ensures
            opt_command(c) == match pending(self@) {
                Some(a) => Some(command_line(a)),
                None => None,
            },
    {
        match self.next_action() {
            Some(a) => Some(a.command()),
            None => None,
        }
    }

    /// Takes note of how the pending step ended.
    pub fn record(&mut self, outcome: &Outcome)
        ensures
            final(self)@ == recorded(old(self)@, outcome@),
            valid(final(self)@),
    {
        proof {
            use_type_invariant(&*self);
        }
        if self.failure.is_none() && self.done < self.steps.len() {
            match judge(&self.steps[self.done], outcome) {
                Some(e) => {
                    self.failure = Some(e);
                },
                None => {
                    self.done = self.done + 1;
                },
            }
        }
    }

    /// The number of steps that have succeeded.
    pub fn completed(&self) -> (n: usize)
        ensures
            n == self@.done,
            valid(self@),
    {
        proof {
            use_type_invariant(self);
        }
        self.done
    }

    /// The answer, once the workflow has ended.
    pub fn result(&self) -> (a: Option<Result<String, VirtError>>)
        ensures
            answer_view(a) == answer(self@),
    {
        proof {
            use_type_invariant(self);
        }
        match &self.failure {
            Some(e) => Some(Err(e.duplicate())),
            None => if self.done < self.steps.len() {
                None
            } else {
                Some(Ok(self.reply.clone()))
            },
        }
    }
}

/// Once a step has failed, no further command is issued and the answer
/// stays the failure, whatever outcomes are recorded after it.
pub proof fn lemma_failure_is_final(w: WorkflowView, outcomes: Seq<OutcomeView>)
    requires
        w.failure is Some,
    ensures
        run(w, outcomes) == w,
        pending(w) is None,
        answer(w) == Some(Err::<Seq<char>, ErrorView>(w.failure->0)),
    decreases outcomes.len(),
{
    if outcomes.len() > 0 {
        lemma_failure_is_final(w, outcomes.drop_last());
    }
}

/// A workflow ends well exactly when every step is done, and then
/// answers its reply.
pub proof fn lemma_answer_ok(w: WorkflowView)
    requires
        valid(w),
    ensures
        answer(w) is Some && answer(w)->0 is Ok <==> w.failure is None && w.done == w.steps.len(),
        pending(w) is None <==> answer(w) is Some,
{
}

} // verus!
