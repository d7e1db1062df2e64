//! The command envelope of the connection actor, the error kinds and the
//! request payloads.

use vstd::prelude::*;
use vstd::string::*;
use crate::text::{opt_text, texts};

verus! {

/// What can go wrong in the control plane.
#[derive(Clone, Debug, PartialEq, Eq)]
pub enum VirtError {
    /// The hypervisor knows no domain of this name.
    DomainNotFound(String),
    /// The domain has no snapshot of this name.
    SnapShotNotFound { dom_name: String, snapshot_name: String },
    /// A command's parameters are missing or malformed.
    InvalidInput,
    /// The hypervisor failed in a way that is not modelled.
    VirtInternalError(String),
    /// An external command failed; the detail is what it wrote to its error stream.
    ShellCommandFailed(String),
    /// The actor is no longer running.
    TransportClosed,
    /// The scheduler refused a request.
    SchedulerError(String),
}

/// The mathematical value of a [`VirtError`].
pub enum ErrorView {
    DomainNotFound(Seq<char>),
    SnapShotNotFound { dom_name: Seq<char>, snapshot_name: Seq<char> },
    InvalidInput,
    VirtInternalError(Seq<char>),
    ShellCommandFailed(Seq<char>),
    TransportClosed,
    SchedulerError(Seq<char>),
}

impl View for VirtError {
    type V = ErrorView;

    open spec fn view(&self) -> ErrorView {
        match self {
            VirtError::DomainNotFound(name) => ErrorView::DomainNotFound(name@),
            VirtError::SnapShotNotFound { dom_name, snapshot_name } => ErrorView::SnapShotNotFound {
                dom_name: dom_name@,
                snapshot_name: snapshot_name@,
            },
            VirtError::InvalidInput => ErrorView::InvalidInput,
            VirtError::VirtInternalError(detail) => ErrorView::VirtInternalError(detail@),
            VirtError::ShellCommandFailed(detail) => ErrorView::ShellCommandFailed(detail@),
            VirtError::TransportClosed => ErrorView::TransportClosed,
            VirtError::SchedulerError(detail) => ErrorView::SchedulerError(detail@),
        }
    }
}

/// The stable code of an error kind.
pub open spec fn error_code(e: ErrorView) -> u16 {
    match e {
        ErrorView::DomainNotFound(_) => 1,
        ErrorView::SnapShotNotFound { .. } => 2,
        ErrorView::InvalidInput => 3,
        ErrorView::VirtInternalError(_) => 4,
        ErrorView::ShellCommandFailed(_) => 5,
        ErrorView::TransportClosed => 6,
        ErrorView::SchedulerError(_) => 7,
    }
}

/// Whether two errors are of the same kind.
pub open spec fn same_kind(a: ErrorView, b: ErrorView) -> bool {
    match (a, b) {
        (ErrorView::DomainNotFound(_), ErrorView::DomainNotFound(_)) => true,
        (ErrorView::SnapShotNotFound { .. }, ErrorView::SnapShotNotFound { .. }) => true,
        (ErrorView::InvalidInput, ErrorView::InvalidInput) => true,
        (ErrorView::VirtInternalError(_), ErrorView::VirtInternalError(_)) => true,
        (ErrorView::ShellCommandFailed(_), ErrorView::ShellCommandFailed(_)) => true,
        (ErrorView::TransportClosed, ErrorView::TransportClosed) => true,
        (ErrorView::SchedulerError(_), ErrorView::SchedulerError(_)) => true,
        _ => false,
    }
}

/// Every error kind has a code of its own.
pub proof fn lemma_codes_distinct(a: ErrorView, b: ErrorView)
    ensures
        error_code(a) == error_code(b) <==> same_kind(a, b),
        1 <= error_code(a) <= 7,
{
}

/// The text of `s` as `{:?}` prints it.
pub uninterp spec fn quoted(s: Seq<char>) -> Seq<char>;

/// The `Debug` form of a string: the text in double quotes, with the
/// characters that need it escaped. It depends on the text alone.
#[verifier::external_body]
fn debug_text(s: &str) -> (out: String)
    ensures
        out@ == quoted(s@),
{
    format!("{:?}", s)
}

/// The message of an error.
pub open spec fn message_text(e: ErrorView) -> Seq<char> {
    match e {
        ErrorView::DomainNotFound(name) => "Domain "@ + name + " not found"@,
        ErrorView::SnapShotNotFound { dom_name, snapshot_name } => "No Snapshot named "@ + quoted(
            snapshot_name,
        ) + " in Domain "@ + quoted(dom_name),
        ErrorView::InvalidInput => "Input Invalid"@,
        ErrorView::VirtInternalError(_) => "System Internal Error"@,
        ErrorView::ShellCommandFailed(detail) => detail,
        ErrorView::TransportClosed => "Actor is not running"@,
        ErrorView::SchedulerError(detail) => detail,
    }
}

impl VirtError {
    /// A copy of this error.
    pub fn duplicate(&self) -> (e: VirtError)
        ensures
            e@ == self@,
    {
        match self {
            VirtError::DomainNotFound(name) => VirtError::DomainNotFound(name.clone()),
            VirtError::SnapShotNotFound { dom_name, snapshot_name } => VirtError::SnapShotNotFound {
                dom_name: dom_name.clone(),
                snapshot_name: snapshot_name.clone(),
            },
            VirtError::InvalidInput => VirtError::InvalidInput,
            VirtError::VirtInternalError(detail) => VirtError::VirtInternalError(detail.clone()),
            VirtError::ShellCommandFailed(detail) => VirtError::ShellCommandFailed(detail.clone()),
            VirtError::TransportClosed => VirtError::TransportClosed,
            VirtError::SchedulerError(detail) => VirtError::SchedulerError(detail.clone()),
        }
    }

    /// The stable code of this error's kind.
    pub fn code(&self) -> (c: u16)
        ensures
            c == error_code(self@),
    {
        match self {
            VirtError::DomainNotFound(_) => 1,
            VirtError::SnapShotNotFound { .. } => 2,
            VirtError::InvalidInput => 3,
            VirtError::VirtInternalError(_) => 4,
            VirtError::ShellCommandFailed(_) => 5,
            VirtError::TransportClosed => 6,
            VirtError::SchedulerError(_) => 7,
        }
    }

    /// The message of this error.
    pub fn message(&self) -> (text: String)
        ensures
            text@ == message_text(self@),
    {
        match self {
            VirtError::DomainNotFound(name) => {
                let mut text = String::from_str("Domain ");
                text.append(name.as_str());
                text.append(" not found");
                text
            },
            VirtError::SnapShotNotFound { dom_name, snapshot_name } => {
                let mut text = String::from_str("No Snapshot named ");
                let snapshot = debug_text(snapshot_name.as_str());
                let domain = debug_text(dom_name.as_str());
                text.append(snapshot.as_str());
                text.append(" in Domain ");
                text.append(domain.as_str());
                text
            },
            VirtError::InvalidInput => String::from_str("Input Invalid"),
            VirtError::VirtInternalError(_) => String::from_str("System Internal Error"),
            VirtError::ShellCommandFailed(detail) => detail.clone(),
            VirtError::TransportClosed => String::from_str("Actor is not running"),
            VirtError::SchedulerError(detail) => detail.clone(),
        }
    }
}

/// The operations of the connection actor.
#[derive(Clone, Copy, Debug, PartialEq, Eq, Structural)]
pub enum VirtCommandType {
    ListAll,
    ListSnapshot,
    ListSnapshotTree,
    SysInfo,
    EditSnapshot,
}

/// A command for the connection actor: an operation and its parameters.
#[derive(Clone, Debug, PartialEq, Eq)]
pub struct VirtCommand {
    pub cmd: VirtCommandType,
    pub params: Vec<String>,
}

/// The mathematical value of a [`VirtCommand`].
pub struct CommandView {
    pub cmd: VirtCommandType,
    pub params: Seq<Seq<char>>,
}

impl View for VirtCommand {
    type V = CommandView;

    open spec fn view(&self) -> CommandView {
        CommandView { cmd: self.cmd, params: texts(self.params@) }
    }
}

impl VirtCommand {
    /// A command without parameters.
    pub fn create(cmd: VirtCommandType) -> (command: Self)
        ensures
            command@ == (CommandView { cmd, params: Seq::empty() }),
    {
        let command = VirtCommand { cmd, params: Vec::new() };
        assert(texts(command.params@) =~= Seq::<Seq<char>>::empty());
        command
    }

    /// A command with the given parameters.
    pub fn create_with_params(cmd: VirtCommandType, params: Vec<String>) -> (command: Self)
        ensures
            command@ == (CommandView { cmd, params: texts(params@) }),
            command.params == params,
    {
        VirtCommand { cmd, params }
    }
}

/// A request to create, delete, clone or make current a snapshot.
#[derive(Clone, Debug, PartialEq, Eq)]
pub struct SnapShotConfig {
    pub dom_name: String,
    pub snapshot_name: String,
    pub description: Option<String>,
    /// `"yes"` asks for a live snapshot.
    pub is_live: Option<String>,
    /// The snapshot under which the new one is to hang.
    pub parent: Option<String>,
}

/// The mathematical value of a [`SnapShotConfig`].
pub struct SnapShotConfigView {
    pub dom_name: Seq<char>,
    pub snapshot_name: Seq<char>,
    pub description: Option<Seq<char>>,
    pub is_live: Option<Seq<char>>,
    pub parent: Option<Seq<char>>,
}

impl View for SnapShotConfig {
    type V = SnapShotConfigView;

    open spec fn view(&self) -> SnapShotConfigView {
        SnapShotConfigView {
            dom_name: self.dom_name@,
            snapshot_name: self.snapshot_name@,
            description: opt_text(self.description),
            is_live: opt_text(self.is_live),
            parent: opt_text(self.parent),
        }
    }
}

/// A request to change a snapshot's description.
#[derive(Clone, Debug, PartialEq, Eq)]
pub struct SnapShotEditConfig {
    pub dom_name: String,
    pub snapshot_name: String,
    pub description: String,
}

/// The mathematical value of a [`SnapShotEditConfig`].
pub struct SnapShotEditConfigView {
    pub dom_name: Seq<char>,
    pub snapshot_name: Seq<char>,
    pub description: Seq<char>,
}

impl View for SnapShotEditConfig {
    type V = SnapShotEditConfigView;

    open spec fn view(&self) -> SnapShotEditConfigView {
        SnapShotEditConfigView {
            dom_name: self.dom_name@,
            snapshot_name: self.snapshot_name@,
            description: self.description@,
        }
    }
}

/// A request to change a domain's run state.
#[derive(Clone, Debug, PartialEq, Eq)]
pub struct AltDomStateCommand {
    pub dom_name: String,
    pub state: String,
}

/// The guest system of a new domain.
#[derive(Clone, Copy, Debug, PartialEq, Eq, Structural)]
pub enum SystemType {
    Linux,
    Windows,
}

/// A request to create a domain.
#[derive(Clone, Debug, PartialEq, Eq)]
pub struct CreateVirtConfig {
    pub virt_name: String,
    pub memory: String,
    pub vcpu: String,
    pub system: SystemType,
    pub iso_filename: String,
    pub disk_size: String,
}

} // verus!
