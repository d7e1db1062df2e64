//! The snapshot workflows and the domain workflows, each as the list of
//! steps that carries it out.

use vstd::prelude::*;
use vstd::string::*;
use crate::command::{Action, ActionView, StateVerb};
use crate::text::{decimal, decimal_text, lemma_decimal_injective, same_text};
use crate::virt::{AltDomStateCommand, CreateVirtConfig, SnapShotConfig, SnapShotConfigView};
use crate::workflow::{step_views, Step, StepView, Workflow, WorkflowView};

verus! {

/// A workflow of the given steps, none of them run yet.
pub open spec fn fresh(steps: Seq<StepView>, reply: Seq<char>) -> WorkflowView {
    WorkflowView { steps, done: 0, failure: None, reply }
}

/// The step that checkpoints a domain's current state under `name`.
pub open spec fn checkpoint_step(domain: Seq<char>, name: Seq<char>) -> StepView {
    StepView {
        action: ActionView::Create { domain, name, description: None, live: false },
        status_required: false,
    }
}

/// The step that makes `name` the current snapshot, inside a workflow.
pub open spec fn revert_step(domain: Seq<char>, name: Seq<char>) -> StepView {
    StepView { action: ActionView::Revert { domain, name, flagged: false }, status_required: false }
}

/// The step that removes the checkpoint `name`.
pub open spec fn discard_step(domain: Seq<char>, name: Seq<char>) -> StepView {
    StepView { action: ActionView::Delete { domain, name, flagged: false }, status_required: false }
}

/// The step that takes the snapshot that was asked for. It is live only
/// if the request says `yes`.
pub open spec fn target_step(c: SnapShotConfigView) -> StepView {
    StepView {
        action: ActionView::Create {
            domain: c.dom_name,
            name: c.snapshot_name,
            description: c.description,
            live: c.is_live == Some("yes"@),
        },
        status_required: true,
    }
}

/// The name of the checkpoint of a snapshot's creation at `stamp`.
pub open spec fn create_checkpoint(stamp: nat) -> Seq<char> {
    "temp_snapshot"@ + decimal_text(stamp)
}

/// The name of the checkpoint of a clone at `stamp`.
pub open spec fn clone_checkpoint(stamp: nat) -> Seq<char> {
    "temp_snapshot_for_clone"@ + decimal_text(stamp)
}

/// The steps that create a snapshot. Under a parent: checkpoint the
/// current state, go to the parent, take the snapshot, come back to the
/// checkpoint and remove it. Without one: take the snapshot.
pub open spec fn create_steps(c: SnapShotConfigView, stamp: nat) -> Seq<StepView> {
    let temp = create_checkpoint(stamp);
    match c.parent {
        Some(parent) => seq![
            checkpoint_step(c.dom_name, temp),
            revert_step(c.dom_name, parent),
            target_step(c),
            revert_step(c.dom_name, temp),
            discard_step(c.dom_name, temp),
        ],
        None => seq![target_step(c)],
    }
}

/// The steps that clone a snapshot as a new domain: checkpoint the
/// current state, go to the snapshot, clone, come back and remove the
/// checkpoint.
pub open spec fn clone_steps(c: SnapShotConfigView, stamp: nat) -> Seq<StepView> {
    let temp = clone_checkpoint(stamp);
    seq![
        checkpoint_step(c.dom_name, temp),
        revert_step(c.dom_name, c.snapshot_name),
        StepView { action: ActionView::Clone { domain: c.dom_name }, status_required: false },
        revert_step(c.dom_name, temp),
        discard_step(c.dom_name, temp),
    ]
}

/// The run state that a keyword asks for, if it is one of the five known.
pub open spec fn verb_of(keyword: Seq<char>) -> Option<StateVerb> {
    if keyword == "start"@ {
        Some(StateVerb::Start)
    } else if keyword == "shutdown"@ {
        Some(StateVerb::Shutdown)
    } else if keyword == "suspend"@ {
        Some(StateVerb::Suspend)
    } else if keyword == "destroy"@ {
        Some(StateVerb::Destroy)
    } else if keyword == "undefine"@ {
        Some(StateVerb::Undefine)
    } else {
        None
    }
}

/// Checkpoints that are taken at different times have different names.
pub proof fn lemma_checkpoint_names_differ(a: nat, b: nat)
    requires
        a != b,
    ensures
        create_checkpoint(a) != create_checkpoint(b),
        clone_checkpoint(a) != clone_checkpoint(b),
{
    let create = "temp_snapshot"@;
    let clone = "temp_snapshot_for_clone"@;
    if create_checkpoint(a) == create_checkpoint(b) {
        assert(decimal_text(a) =~= create_checkpoint(a).skip(create.len() as int));
        assert(decimal_text(b) =~= create_checkpoint(b).skip(create.len() as int));
        lemma_decimal_injective(a, b);
    }
    if clone_checkpoint(a) == clone_checkpoint(b) {
        assert(decimal_text(a) =~= clone_checkpoint(a).skip(clone.len() as int));
        assert(decimal_text(b) =~= clone_checkpoint(b).skip(clone.len() as int));
        lemma_decimal_injective(a, b);
    }
}

fn temp_name(prefix: &str, stamp: u128) -> (name: String)
    ensures
        name@ == prefix@ + decimal_text(stamp as nat),
{
    let mut name = prefix.to_owned();
    let digits = decimal(stamp);
    name.append(digits.as_str());
    name
}

fn checkpoint(domain: &String, name: &String) -> (s: Step)
    ensures
        s@ == checkpoint_step(domain@, name@),
{
    Step {
        action: Action::Create {
            domain: domain.clone(),
            name: name.clone(),
            description: None,
            live: false,
        },
        status_required: false,
    }
}

fn revert(domain: &String, name: &String) -> (s: Step)
    ensures
        s@ == revert_step(domain@, name@),
{
    Step {
        action: Action::Revert { domain: domain.clone(), name: name.clone(), flagged: false },
        status_required: false,
    }
}

fn discard(domain: &String, name: &String) -> (s: Step)
    ensures
        s@ == discard_step(domain@, name@),
{
    Step {
        action: Action::Delete { domain: domain.clone(), name: name.clone(), flagged: false },
        status_required: false,
    }
}

/// The workflow that creates the snapshot `configure.snapshot_name`,
/// under `configure.parent` if one is given. `now_millis` is the time
/// that the checkpoint is named after.
pub fn create_snapshot(configure: SnapShotConfig, now_millis: u128) -> (w: Workflow)
    ensures
        w@ == fresh(create_steps(configure@, now_millis as nat), "Success"@),
{
    let temp = temp_name("temp_snapshot", now_millis);
    let live = match &configure.is_live {
        Some(word) => same_text(word.as_str(), "yes"),
        None => false,
    };
    let mut steps: Vec<Step> = Vec::new();
    match &configure.parent {
        Some(parent) => {
            steps.push(checkpoint(&configure.dom_name, &temp));
            steps.push(revert(&configure.dom_name, parent));
        },
        None => {},
    }
    let target = Step {
        action: Action::Create {
            domain: configure.dom_name.clone(),
            name: configure.snapshot_name.clone(),
            description: configure.description.clone(),
            live,
        },
        status_required: true,
    };
    assert(target@ == target_step(configure@));
    steps.push(target);
    if configure.parent.is_some() {
        steps.push(revert(&configure.dom_name, &temp));
        steps.push(discard(&configure.dom_name, &temp));
    }
    assert(step_views(steps@) =~= create_steps(configure@, now_millis as nat));
    Workflow::new(steps, "Success")
}

/// The workflow that deletes a snapshot: one command. A run without an
/// exit code counts as done.
pub fn delete_snapshot(configure: SnapShotConfig) -> (w: Workflow)
    ensures
        w@ == fresh(
            seq![
                StepView {
                    action: ActionView::Delete {
                        domain: configure.dom_name@,
                        name: configure.snapshot_name@,
                        flagged: true,
                    },
                    status_required: false,
                },
            ],
            ""@,
        ),
{
    let mut steps: Vec<Step> = Vec::new();
    steps.push(
        Step {
            action: Action::Delete {
                domain: configure.dom_name,
                name: configure.snapshot_name,
                flagged: true,
            },
            status_required: false,
        },
    );
    assert(step_views(steps@) =~= seq![steps@[0]@]);
    Workflow::new(steps, "")
}

/// The workflow that makes a snapshot the current one: one command.
pub fn set_current_snapshot(configure: SnapShotConfig) -> (w: Workflow)
    ensures
        w@ == fresh(
            seq![
                StepView {
                    action: ActionView::Revert {
                        domain: configure.dom_name@,
                        name: configure.snapshot_name@,
                        flagged: true,
                    },
                    status_required: true,
                },
            ],
            ""@,
        ),
{
    let mut steps: Vec<Step> = Vec::new();
    steps.push(
        Step {
            action: Action::Revert {
                domain: configure.dom_name,
                name: configure.snapshot_name,
                flagged: true,
            },
            status_required: true,
        },
    );
    assert(step_views(steps@) =~= seq![steps@[0]@]);
    Workflow::new(steps, "")
}

/// The workflow that creates a domain: make its disk, then install it.
pub fn create_virt(configure: CreateVirtConfig) -> (w: Workflow)
    ensures
        w@ == fresh(
            seq![
                StepView {
                    action: ActionView::MakeDisk { size: configure.disk_size@ },
                    status_required: false,
                },
                StepView {
                    action: ActionView::Install {
                        name: configure.virt_name@,
                        memory: configure.memory@,
                        vcpu: configure.vcpu@,
                    },
                    status_required: true,
                },
            ],
            ""@,
        ),
{
    let mut steps: Vec<Step> = Vec::new();
    steps.push(Step { action: Action::MakeDisk { size: configure.disk_size }, status_required: false });
    steps.push(
        Step {
            action: Action::Install {
                name: configure.virt_name,
                memory: configure.memory,
                vcpu: configure.vcpu,
            },
            status_required: true,
        },
    );
    assert(step_views(steps@) =~= seq![steps@[0]@, steps@[1]@]);
    Workflow::new(steps, "")
}

/// The workflow that clones the snapshot `configure.snapshot_name` as a
/// new domain. `now_millis` is the time that the checkpoint is named after.
pub fn clone_snapshot_as_vm(configure: SnapShotConfig, now_millis: u128) -> (w: Workflow)
    ensures
        w@ == fresh(clone_steps(configure@, now_millis as nat), "Success"@),
{
    let temp = temp_name("temp_snapshot_for_clone", now_millis);
    let mut steps: Vec<Step> = Vec::new();
    steps.push(checkpoint(&configure.dom_name, &temp));
    steps.push(revert(&configure.dom_name, &configure.snapshot_name));
    steps.push(
        Step { action: Action::Clone { domain: configure.dom_name.clone() }, status_required: false },
    );
    steps.push(revert(&configure.dom_name, &temp));
    steps.push(discard(&configure.dom_name, &temp));
    assert(step_views(steps@) =~= clone_steps(configure@, now_millis as nat));
    Workflow::new(steps, "Success")
}

/// The run state that a keyword asks for.
pub fn state_verb(keyword: &str) -> (verb: Option<StateVerb>)
    ensures
        verb == verb_of(keyword@),
{
    if same_text(keyword, "start") {
        Some(StateVerb::Start)
    } else if same_text(keyword, "shutdown") {
        Some(StateVerb::Shutdown)
    } else if same_text(keyword, "suspend") {
        Some(StateVerb::Suspend)
    } else if same_text(keyword, "destroy") {
        Some(StateVerb::Destroy)
    } else if same_text(keyword, "undefine") {
        Some(StateVerb::Undefine)
    } else {
        None
    }
}

/// The workflow that sends a domain to a run state, and the run state
/// that was recognised. For a keyword that is none of the five known the
/// command names the domain alone, and the second component is `None`:
/// the caller can tell that the request was not understood.
pub fn alt_vm_state(config: AltDomStateCommand) -> (plan: (Workflow, Option<StateVerb>))
    ensures
        plan.1 == verb_of(config.state@),
        plan.0@ == fresh(
            seq![
                StepView {
                    action: ActionView::SetState {
                        domain: config.dom_name@,
                        verb: verb_of(config.state@),
                    },
                    status_required: true,
                },
            ],
            "Success"@,
        ),
{
    let verb = state_verb(config.state.as_str());
    let mut steps: Vec<Step> = Vec::new();
    steps.push(
        Step { action: Action::SetState { domain: config.dom_name, verb }, status_required: true },
    );
    assert(step_views(steps@) =~= seq![steps@[0]@]);
    (Workflow::new(steps, "Success"), verb)
}

} // verus!
