use virtctl::command::{Action, ShellCommand, StateVerb};
use virtctl::shell::{
    alt_vm_state, clone_snapshot_as_vm, create_snapshot, create_virt, delete_snapshot,
    set_current_snapshot, state_verb,
};
use virtctl::virt::{AltDomStateCommand, CreateVirtConfig, SnapShotConfig, SystemType, VirtError};
use virtctl::workflow::{judge, Outcome, Step, Workflow};

fn config(parent: Option<&str>) -> SnapShotConfig {
    SnapShotConfig {
        dom_name: "debian".to_string(),
        snapshot_name: "snap2".to_string(),
        description: None,
        is_live: None,
        parent: parent.map(|p| p.to_string()),
    }
}

fn ok() -> Outcome {
    Outcome { code: Some(0), stderr: String::new() }
}

fn failed(code: i32, stderr: &str) -> Outcome {
    Outcome { code: Some(code), stderr: stderr.to_string() }
}

fn killed() -> Outcome {
    Outcome { code: None, stderr: String::new() }
}

fn virsh(args: &[&str]) -> ShellCommand {
    ShellCommand {
        program: "virsh".to_string(),
        args: args.iter().map(|a| a.to_string()).collect(),
        dir: None,
    }
}

fn run_all(workflow: &mut Workflow) -> Vec<ShellCommand> {
    let mut commands = Vec::new();
    while let Some(command) = workflow.next_command() {
        commands.push(command);
        workflow.record(&ok());
    }
    commands
}

#[test]
fn create_under_a_parent_checkpoints_and_comes_back() {
    let mut workflow = create_snapshot(config(Some("snap1")), 1700000000123);
    assert_eq!(workflow.result(), None);
    let commands = run_all(&mut workflow);
    assert_eq!(
        commands,
        vec![
            virsh(&["snapshot-create-as", "debian", "--name", "temp_snapshot1700000000123"]),
            virsh(&["snapshot-revert", "debian", "snap1"]),
            virsh(&["snapshot-create-as", "debian", "--name", "snap2"]),
            virsh(&["snapshot-revert", "debian", "temp_snapshot1700000000123"]),
            virsh(&["snapshot-delete", "debian", "temp_snapshot1700000000123"]),
        ]
    );
    assert_eq!(workflow.completed(), 5);
    assert_eq!(workflow.result(), Some(Ok("Success".to_string())));
}

#[test]
fn create_without_a_parent_is_one_command() {
    let mut request = config(None);
    request.description = Some("before upgrade".to_string());
    request.is_live = Some("yes".to_string());
    let mut workflow = create_snapshot(request, 5);
    assert_eq!(
        run_all(&mut workflow),
        vec![virsh(&[
            "snapshot-create-as",
            "debian",
            "--name",
            "snap2",
            "--description",
            "before upgrade",
            "--live"
        ])]
    );
    assert_eq!(workflow.result(), Some(Ok("Success".to_string())));
}

#[test]
fn only_yes_asks_for_a_live_snapshot() {
    let mut request = config(None);
    request.is_live = Some("no".to_string());
    let workflow = create_snapshot(request, 0);
    assert_eq!(
        workflow.next_command(),
        Some(virsh(&["snapshot-create-as", "debian", "--name", "snap2"]))
    );
    let mut request = config(None);
    request.is_live = Some("Yes".to_string());
    assert_eq!(
        create_snapshot(request, 0).next_command(),
        Some(virsh(&["snapshot-create-as", "debian", "--name", "snap2"]))
    );
}

#[test]
fn a_failed_step_stops_the_workflow_where_it_is() {
    let mut workflow = create_snapshot(config(Some("snap1")), 7);
    workflow.record(&ok());
    workflow.record(&failed(1, "  error: Domain snapshot not found: snap1\n\n"));
    assert_eq!(workflow.completed(), 1);
    assert_eq!(workflow.next_command(), None);
    assert_eq!(workflow.next_action(), None);
    let failure = VirtError::ShellCommandFailed("error: Domain snapshot not found: snap1".to_string());
    assert_eq!(workflow.result(), Some(Err(failure.clone())));
    workflow.record(&ok());
    assert_eq!(workflow.completed(), 1);
    assert_eq!(workflow.result(), Some(Err(failure)));
}

#[test]
fn a_missing_exit_code_fails_only_where_one_is_required() {
    let mut workflow = create_snapshot(config(Some("snap1")), 7);
    workflow.record(&killed());
    workflow.record(&killed());
    assert_eq!(workflow.completed(), 2);
    workflow.record(&killed());
    assert_eq!(workflow.completed(), 2);
    assert_eq!(
        workflow.result(),
        Some(Err(VirtError::ShellCommandFailed("No status code".to_string())))
    );
}

#[test]
fn judge_reads_the_exit_code() {
    let step = |required| Step { action: Action::Clone { domain: "d".to_string() }, status_required: required };
    assert_eq!(judge(&step(true), &ok()), None);
    assert_eq!(judge(&step(false), &ok()), None);
    assert_eq!(
        judge(&step(false), &failed(-1, "\tno\u{a0}")),
        Some(VirtError::ShellCommandFailed("no".to_string()))
    );
    assert_eq!(
        judge(&step(true), &failed(255, "")),
        Some(VirtError::ShellCommandFailed(String::new()))
    );
    assert_eq!(judge(&step(false), &killed()), None);
    assert_eq!(
        judge(&step(true), &killed()),
        Some(VirtError::ShellCommandFailed("No status code".to_string()))
    );
}

#[test]
fn delete_is_one_command_and_forgives_a_missing_exit_code() {
    let mut workflow = delete_snapshot(config(None));
    assert_eq!(
        workflow.next_command(),
        Some(virsh(&["snapshot-delete", "debian", "--snapshotname", "snap2"]))
    );
    workflow.record(&killed());
    assert_eq!(workflow.result(), Some(Ok(String::new())));
    let mut workflow = delete_snapshot(config(None));
    workflow.record(&failed(1, "error: no such snapshot "));
    assert_eq!(
        workflow.result(),
        Some(Err(VirtError::ShellCommandFailed("error: no such snapshot".to_string())))
    );
}

#[test]
fn set_current_is_one_command_and_needs_an_exit_code() {
    let mut workflow = set_current_snapshot(config(None));
    assert_eq!(
        workflow.next_command(),
        Some(virsh(&["snapshot-revert", "debian", "--snapshotname", "snap2"]))
    );
    workflow.record(&killed());
    assert_eq!(
        workflow.result(),
        Some(Err(VirtError::ShellCommandFailed("No status code".to_string())))
    );
    let mut workflow = set_current_snapshot(config(None));
    workflow.record(&ok());
    assert_eq!(workflow.result(), Some(Ok(String::new())));
}

#[test]
fn clone_checkpoints_reverts_clones_and_comes_back() {
    let mut workflow = clone_snapshot_as_vm(config(None), 42);
    assert_eq!(
        run_all(&mut workflow),
        vec![
            virsh(&["snapshot-create-as", "debian", "--name", "temp_snapshot_for_clone42"]),
            virsh(&["snapshot-revert", "debian", "snap2"]),
            ShellCommand {
                program: "virt-clone".to_string(),
                args: vec!["--original".to_string(), "debian".to_string(), "--auto-clone".to_string()],
                dir: None,
            },
            virsh(&["snapshot-revert", "debian", "temp_snapshot_for_clone42"]),
            virsh(&["snapshot-delete", "debian", "temp_snapshot_for_clone42"]),
        ]
    );
    assert_eq!(workflow.result(), Some(Ok("Success".to_string())));
    let mut workflow = clone_snapshot_as_vm(config(None), 42);
    workflow.record(&ok());
    workflow.record(&ok());
    workflow.record(&failed(2, "clone failed"));
    assert_eq!(workflow.completed(), 2);
    assert_eq!(
        workflow.result(),
        Some(Err(VirtError::ShellCommandFailed("clone failed".to_string())))
    );
}

#[test]
fn create_virt_makes_the_disk_and_installs() {
    let request = CreateVirtConfig {
        virt_name: "vm1".to_string(),
        memory: "2048".to_string(),
        vcpu: "2".to_string(),
        system: SystemType::Linux,
        iso_filename: "debian.iso".to_string(),
        disk_size: "20G".to_string(),
    };
    let mut workflow = create_virt(request);
    let commands = run_all(&mut workflow);
    assert_eq!(commands.len(), 2);
    assert_eq!(commands[0].program, "qemu-img");
    assert_eq!(commands[0].args, vec!["create", "-f", "qcow2", "disk.qcow2", "20G"]);
    assert_eq!(commands[0].dir, Some("/data_disk/create_test".to_string()));
    assert_eq!(commands[1].program, "virt-install");
    assert_eq!(
        commands[1].args,
        vec![
            "--name",
            "vm1",
            "--memory",
            "2048",
            "--vcpu",
            "2",
            "--disk",
            "/data_disk/create_test/disk.qcow2",
            "--cdrom",
            "/data_disk/create_test/cdrom.iso",
            "--graphics",
            "vnc,port=5903,password=abc123,listen=0.0.0.0",
            "--network",
            "default",
            "--wait",
            "0"
        ]
    );
    assert_eq!(commands[1].dir, None);
    assert_eq!(workflow.result(), Some(Ok(String::new())));
}

#[test]
fn alt_vm_state_with_unrecognized_keyword_is_flagged() {
    let (workflow, verb) = alt_vm_state(AltDomStateCommand {
        dom_name: "debian".to_string(),
        state: "pause".to_string(),
    });
    assert_eq!(verb, None);
    assert_eq!(
        workflow.next_action(),
        Some(&Action::SetState { domain: "debian".to_string(), verb: None })
    );
    assert_eq!(workflow.next_command(), Some(virsh(&["debian"])));
}

#[test]
fn alt_vm_state_puts_the_verb_before_the_domain() {
    let cases = [
        ("start", StateVerb::Start),
        ("shutdown", StateVerb::Shutdown),
        ("suspend", StateVerb::Suspend),
        ("destroy", StateVerb::Destroy),
        ("undefine", StateVerb::Undefine),
    ];
    for (keyword, expected) in cases {
        let (mut workflow, verb) = alt_vm_state(AltDomStateCommand {
            dom_name: "debian".to_string(),
            state: keyword.to_string(),
        });
        assert_eq!(verb, Some(expected));
        assert_eq!(state_verb(keyword), Some(expected));
        assert_eq!(workflow.next_command(), Some(virsh(&[keyword, "debian"])));
        workflow.record(&ok());
        assert_eq!(workflow.result(), Some(Ok("Success".to_string())));
    }
    assert_eq!(state_verb("Start"), None);
    assert_eq!(state_verb(""), None);
    assert_eq!(state_verb("start "), None);
}

#[test]
fn an_empty_workflow_is_done_at_once() {
    let mut workflow = Workflow::new(Vec::new(), "nothing");
    assert_eq!(workflow.next_command(), None);
    assert_eq!(workflow.result(), Some(Ok("nothing".to_string())));
    workflow.record(&failed(1, "x"));
    assert_eq!(workflow.result(), Some(Ok("nothing".to_string())));
    assert_eq!(workflow.completed(), 0);
}

#[test]
fn actions_become_command_lines() {
    let revert = Action::Revert { domain: "d".to_string(), name: "s".to_string(), flagged: false };
    assert_eq!(revert.command(), virsh(&["snapshot-revert", "d", "s"]));
    let delete = Action::Delete { domain: "d".to_string(), name: "s".to_string(), flagged: true };
    assert_eq!(delete.command(), virsh(&["snapshot-delete", "d", "--snapshotname", "s"]));
    let create = Action::Create {
        domain: "d".to_string(),
        name: "s".to_string(),
        description: None,
        live: true,
    };
    assert_eq!(create.command(), virsh(&["snapshot-create-as", "d", "--name", "s", "--live"]));
}
