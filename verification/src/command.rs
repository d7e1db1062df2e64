//! The external commands of the snapshot workflows: the actions that a
//! workflow is made of and the command line that carries each out.

use vstd::prelude::*;
use vstd::string::*;
use crate::text::{opt_text, texts};

verus! {

/// The run states that a domain can be sent to.
#[derive(Clone, Copy, Debug, PartialEq, Eq, Structural)]
pub enum StateVerb {
    Start,
    Shutdown,
    Suspend,
    Destroy,
    Undefine,
}

/// One step of a workflow.
#[derive(Clone, Debug, PartialEq, Eq)]
pub enum Action {
    /// Take a snapshot of the domain's current state.
    Create { domain: String, name: String, description: Option<String>, live: bool },
    /// Make a snapshot the domain's current one. `flagged` passes the
    /// name behind `--snapshotname`.
    Revert { domain: String, name: String, flagged: bool },
    /// Delete a snapshot. `flagged` passes the name behind `--snapshotname`.
    Delete { domain: String, name: String, flagged: bool },
    /// Clone the domain in its current state as a new domain.
    Clone { domain: String },
    /// Send the domain to a run state; without a verb only the domain is named.
    SetState { domain: String, verb: Option<StateVerb> },
    /// Create the disk image of a new domain.
    MakeDisk { size: String },
    /// Install a new domain.
    Install { name: String, memory: String, vcpu: String },
}

/// The mathematical value of an [`Action`].
pub enum ActionView {
    Create { domain: Seq<char>, name: Seq<char>, description: Option<Seq<char>>, live: bool },
    Revert { domain: Seq<char>, name: Seq<char>, flagged: bool },
    Delete { domain: Seq<char>, name: Seq<char>, flagged: bool },
    Clone { domain: Seq<char> },
    SetState { domain: Seq<char>, verb: Option<StateVerb> },
    MakeDisk { size: Seq<char> },
    Install { name: Seq<char>, memory: Seq<char>, vcpu: Seq<char> },
}

impl View for Action {
    type V = ActionView;

    open spec fn view(&self) -> ActionView {
        match self {
            Action::Create { domain, name, description, live } => ActionView::Create {
                domain: domain@,
                name: name@,
                description: opt_text(*description),
                live: *live,
            },
            Action::Revert { domain, name, flagged } => ActionView::Revert {
                domain: domain@,
                name: name@,
                flagged: *flagged,
            },
            Action::Delete { domain, name, flagged } => ActionView::Delete {
                domain: domain@,
                name: name@,
                flagged: *flagged,
            },
            Action::Clone { domain } => ActionView::Clone { domain: domain@ },
            Action::SetState { domain, verb } => ActionView::SetState {
                domain: domain@,
                verb: *verb,
            },
            Action::MakeDisk { size } => ActionView::MakeDisk { size: size@ },
            Action::Install { name, memory, vcpu } => ActionView::Install {
                name: name@,
                memory: memory@,
                vcpu: vcpu@,
            },
        }
    }
}

/// A command line: the program, its arguments and the directory to run it in.
#[derive(Clone, Debug, PartialEq, Eq)]
pub struct ShellCommand {
    pub program: String,
    pub args: Vec<String>,
    pub dir: Option<String>,
}

/// The mathematical value of a [`ShellCommand`].
pub struct CommandLine {
    pub program: Seq<char>,
    pub args: Seq<Seq<char>>,
    pub dir: Option<Seq<char>>,
}

impl View for ShellCommand {
    type V = CommandLine;

    open spec fn view(&self) -> CommandLine {
        CommandLine { program: self.program@, args: texts(self.args@), dir: opt_text(self.dir) }
    }
}

/// The word that the hypervisor's tool knows a run state by.
pub open spec fn verb_text(verb: StateVerb) -> Seq<char> {
    match verb {
        StateVerb::Start => "start"@,
        StateVerb::Shutdown => "shutdown"@,
        StateVerb::Suspend => "suspend"@,
        StateVerb::Destroy => "destroy"@,
        StateVerb::Undefine => "undefine"@,
    }
}

/// The arguments that name a snapshot: the name, behind
/// `--snapshotname` if `flagged`.
pub open spec fn snapshot_args(name: Seq<char>, flagged: bool) -> Seq<Seq<char>> {
    if flagged {
        seq!["--snapshotname"@, name]
    } else {
        seq![name]
    }
}

/// The arguments of a snapshot's options.
pub open spec fn create_options(description: Option<Seq<char>>, live: bool) -> Seq<Seq<char>> {
    (match description {
        Some(d) => seq!["--description"@, d],
        None => Seq::empty(),
    }) + (if live {
        seq!["--live"@]
    } else {
        Seq::empty()
    })
}

/// The command line that carries out an action.
pub open spec fn command_line(a: ActionView) -> CommandLine {
    match a {
        ActionView::Create { domain, name, description, live } => CommandLine {
            program: "virsh"@,
            args: seq!["snapshot-create-as"@, domain, "--name"@, name] + create_options(
                description,
                live,
            ),
            dir: None,
        },
        ActionView::Revert { domain, name, flagged } => CommandLine {
            program: "virsh"@,
            args: seq!["snapshot-revert"@, domain] + snapshot_args(name, flagged),
            dir: None,
        },
        ActionView::Delete { domain, name, flagged } => CommandLine {
            program: "virsh"@,
            args: seq!["snapshot-delete"@, domain] + snapshot_args(name, flagged),
            dir: None,
        },
        ActionView::Clone { domain } => CommandLine {
            program: "virt-clone"@,
            args: seq!["--original"@, domain, "--auto-clone"@],
            dir: None,
        },
        ActionView::SetState { domain, verb } => CommandLine {
            program: "virsh"@,
            args: match verb {
                Some(v) => seq![verb_text(v), domain],
                None => seq![domain],
            },
            dir: None,
        },
        ActionView::MakeDisk { size } => CommandLine {
            program: "qemu-img"@,
            args: seq!["create"@, "-f"@, "qcow2"@, "disk.qcow2"@, size],
            dir: Some("/data_disk/create_test"@),
        },
        ActionView::Install { name, memory, vcpu } => CommandLine {
            program: "virt-install"@,
            args: seq![
                "--name"@,
                name,
                "--memory"@,
                memory,
                "--vcpu"@,
                vcpu,
                "--disk"@,
                "/data_disk/create_test/disk.qcow2"@,
                "--cdrom"@,
                "/data_disk/create_test/cdrom.iso"@,
                "--graphics"@,
                "vnc,port=5903,password=abc123,listen=0.0.0.0"@,
                "--network"@,
                "default"@,
                "--wait"@,
                "0"@,
            ],
            dir: None,
        },
    }
}

fn push_text(args: &mut Vec<String>, s: &str)
    ensures
        texts(final(args)@) == texts(old(args)@).push(s@),
{
    args.push(s.to_owned());
    assert(texts(args@) =~= texts(old(args)@).push(s@));
}

fn verb_word(verb: StateVerb) -> (word: &'static str)
    ensures
        word@ == verb_text(verb),
{
    match verb {
        StateVerb::Start => "start",
        StateVerb::Shutdown => "shutdown",
        StateVerb::Suspend => "suspend",
        StateVerb::Destroy => "destroy",
        StateVerb::Undefine => "undefine",
    }
}

fn push_snapshot(args: &mut Vec<String>, name: &str, flagged: bool)
    ensures
        texts(final(args)@) == texts(old(args)@) + snapshot_args(name@, flagged),
{
    if flagged {
        push_text(args, "--snapshotname");
    }
    push_text(args, name);
    assert(texts(args@) =~= texts(old(args)@) + snapshot_args(name@, flagged));
}

impl Action {
    /// The command line that carries out this action.
    pub fn command(&self) -> (c: ShellCommand)
        ensures
            c@ == command_line(self@),
    {
        let mut args: Vec<String> = Vec::new();
        assert(texts(args@) =~= Seq::<Seq<char>>::empty());
        match self {
            Action::Create { domain, name, description, live } => {
                push_text(&mut args, "snapshot-create-as");
                push_text(&mut args, domain.as_str());
                push_text(&mut args, "--name");
                push_text(&mut args, name.as_str());
                let ghost head = texts(args@);
                assert(head =~= seq!["snapshot-create-as"@, domain@, "--name"@, name@]);
                match description {
                    Some(d) => {
                        push_text(&mut args, "--description");
                        push_text(&mut args, d.as_str());
                    },
                    None => {},
                }
                if *live {
                    push_text(&mut args, "--live");
                }
                assert(texts(args@) =~= head + create_options(opt_text(*description), *live));
                ShellCommand { program: String::from_str("virsh"), args, dir: None }
            },
            Action::Revert { domain, name, flagged } => {
                push_text(&mut args, "snapshot-revert");
                push_text(&mut args, domain.as_str());
                assert(texts(args@) =~= seq!["snapshot-revert"@, domain@]);
                push_snapshot(&mut args, name.as_str(), *flagged);
                ShellCommand { program: String::from_str("virsh"), args, dir: None }
            },
            Action::Delete { domain, name, flagged } => {
                push_text(&mut args, "snapshot-delete");
                push_text(&mut args, domain.as_str());
                assert(texts(args@) =~= seq!["snapshot-delete"@, domain@]);
                push_snapshot(&mut args, name.as_str(), *flagged);
                ShellCommand { program: String::from_str("virsh"), args, dir: None }
            },
            Action::Clone { domain } => {
                push_text(&mut args, "--original");
                push_text(&mut args, domain.as_str());
                push_text(&mut args, "--auto-clone");
                assert(texts(args@) =~= seq!["--original"@, domain@, "--auto-clone"@]);
                ShellCommand { program: String::from_str("virt-clone"), args, dir: None }
            },
            Action::SetState { domain, verb } => {
                match verb {
                    Some(v) => {
                        push_text(&mut args, verb_word(*v));
                        push_text(&mut args, domain.as_str());
                        assert(texts(args@) =~= seq![verb_text(*v), domain@]);
                    },
                    None => {
                        push_text(&mut args, domain.as_str());
                        assert(texts(args@) =~= seq![domain@]);
                    },
                }
                ShellCommand { program: String::from_str("virsh"), args, dir: None }
            },
            Action::MakeDisk { size } => {
                push_text(&mut args, "create");
                push_text(&mut args, "-f");
                push_text(&mut args, "qcow2");
                push_text(&mut args, "disk.qcow2");
                push_text(&mut args, size.as_str());
                assert(texts(args@) =~= seq!["create"@, "-f"@, "qcow2"@, "disk.qcow2"@, size@]);
                ShellCommand {
                    program: String::from_str("qemu-img"),
                    args,
                    dir: Some(String::from_str("/data_disk/create_test")),
                }
            },
            Action::Install { name, memory, vcpu } => {
                push_text(&mut args, "--name");
                push_text(&mut args, name.as_str());
                push_text(&mut args, "--memory");
                push_text(&mut args, memory.as_str());
                push_text(&mut args, "--vcpu");
                push_text(&mut args, vcpu.as_str());
                push_text(&mut args, "--disk");
                push_text(&mut args, "/data_disk/create_test/disk.qcow2");
                push_text(&mut args, "--cdrom");
                push_text(&mut args, "/data_disk/create_test/cdrom.iso");
                push_text(&mut args, "--graphics");
                push_text(&mut args, "vnc,port=5903,password=abc123,listen=0.0.0.0");
                push_text(&mut args, "--network");
                push_text(&mut args, "default");
                push_text(&mut args, "--wait");
                push_text(&mut args, "0");
                assert(texts(args@) =~= command_line(self@).args);
                ShellCommand { program: String::from_str("virt-install"), args, dir: None }
            },
        }
    }
}

} // verus!
