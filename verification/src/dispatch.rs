//! What the connection actor asks of the hypervisor for a command.

use vstd::prelude::*;
use crate::text::{copy_texts, opt_text, texts};
use crate::virt::{
    CommandView, ErrorView, SnapShotEditConfig, SnapShotEditConfigView, VirtCommand,
    VirtCommandType, VirtError,
};

verus! {

/// The string under `key` in the JSON object `doc`; `None` if `doc` is
/// not JSON, has no such key, or holds something else than a string there.
pub uninterp spec fn json_field(doc: Seq<char>, key: Seq<char>) -> Option<Seq<char>>;

/// `serde_json::from_str` to a `Value`, then `Value::get` and
/// `Value::as_str`: the string under `key`, which depends on `doc` and
/// `key` alone.
#[verifier::external_body]
fn json_text_field(doc: &str, key: &str) -> (field: Option<String>)
    ensures
        opt_text(field) == json_field(doc@, key@),
{
    let value: serde_json::Value = serde_json::from_str(doc).ok()?;
    Some(value.get(key)?.as_str()?.to_string())
}

/// The edit request made of three fields; none if one is missing.
pub open spec fn edit_request(
    dom_name: Option<Seq<char>>,
    snapshot_name: Option<Seq<char>>,
    description: Option<Seq<char>>,
) -> Option<SnapShotEditConfigView> {
    match (dom_name, snapshot_name, description) {
        (Some(dom_name), Some(snapshot_name), Some(description)) => Some(
            SnapShotEditConfigView { dom_name, snapshot_name, description },
        ),
        _ => None,
    }
}

/// The edit request that a parameter encodes: a JSON object with the
/// strings `dom_name`, `snapshot_name` and `description`.
pub open spec fn decoded_edit(param: Seq<char>) -> Option<SnapShotEditConfigView> {
    edit_request(
        json_field(param, "dom_name"@),
        json_field(param, "snapshot_name"@),
        json_field(param, "description"@),
    )
}

/// The value of an edit request or an error.
pub open spec fn request_view(r: Result<SnapShotEditConfig, VirtError>) -> Result<
    SnapShotEditConfigView,
    ErrorView,
> {
    match r {
        Ok(config) => Ok(config@),
        Err(e) => Err(e@),
    }
}

/// The edit request made of three fields; `InvalidInput` if one is missing.
pub fn edit_request_of(
    dom_name: Option<String>,
    snapshot_name: Option<String>,
    description: Option<String>,
) -> (request: Result<SnapShotEditConfig, VirtError>)
    ensures
        request_view(request) == match edit_request(
            opt_text(dom_name),
            opt_text(snapshot_name),
            opt_text(description),
        ) {
            Some(config) => Ok(config),
            None => Err(ErrorView::InvalidInput),
        },
{
    match (dom_name, snapshot_name, description) {
        (Some(dom_name), Some(snapshot_name), Some(description)) => Ok(
            SnapShotEditConfig { dom_name, snapshot_name, description },
        ),
        _ => Err(VirtError::InvalidInput),
    }
}

/// Decodes the parameter of `EditSnapshot`.
pub fn decode_edit_request(param: &str) -> (request: Result<SnapShotEditConfig, VirtError>)
    ensures
        request_view(request) == match decoded_edit(param@) {
            Some(config) => Ok(config),
            None => Err(ErrorView::InvalidInput),
        },
{
    let dom_name = json_text_field(param, "dom_name");
    let snapshot_name = json_text_field(param, "snapshot_name");
    let description = json_text_field(param, "description");
    edit_request_of(dom_name, snapshot_name, description)
}

/// What the actor needs to learn from the hypervisor to answer a command.
#[derive(Clone, Debug, PartialEq, Eq)]
pub enum Query {
    /// Every domain, with its name, processors and memory.
    AllDomains,
    /// The snapshots of each of these domains.
    Snapshots(Vec<String>),
    /// The snapshots of this domain, each with its children.
    SnapshotTree(String),
    /// A sample of the host's processor and memory counters.
    HostSample,
    /// The description of the snapshot that the request names.
    Snapshot(SnapShotEditConfig),
}

/// The mathematical value of a [`Query`].
pub enum QueryView {
    AllDomains,
    Snapshots(Seq<Seq<char>>),
    SnapshotTree(Seq<char>),
    HostSample,
    Snapshot(SnapShotEditConfigView),
}

impl View for Query {
    type V = QueryView;

    open spec fn view(&self) -> QueryView {
        match self {
            Query::AllDomains => QueryView::AllDomains,
            Query::Snapshots(names) => QueryView::Snapshots(texts(names@)),
            Query::SnapshotTree(name) => QueryView::SnapshotTree(name@),
            Query::HostSample => QueryView::HostSample,
            Query::Snapshot(config) => QueryView::Snapshot(config@),
        }
    }
}

/// The query for a command, or `InvalidInput` where the number of
/// parameters is not the one that the operation takes or a parameter
/// cannot be decoded. `ListAll` and `SysInfo` take none, `ListSnapshot`
/// any number of domain names, `ListSnapshotTree` one domain name and
/// `EditSnapshot` one encoded edit request.
pub open spec fn planned(c: CommandView) -> Result<QueryView, ErrorView> {
    match c.cmd {
        VirtCommandType::ListAll => if c.params.len() == 0 {
            Ok(QueryView::AllDomains)
        } else {
            Err(ErrorView::InvalidInput)
        },
        VirtCommandType::ListSnapshot => Ok(QueryView::Snapshots(c.params)),
        VirtCommandType::ListSnapshotTree => if c.params.len() == 1 {
            Ok(QueryView::SnapshotTree(c.params[0]))
        } else {
            Err(ErrorView::InvalidInput)
        },
        VirtCommandType::SysInfo => if c.params.len() == 0 {
            Ok(QueryView::HostSample)
        } else {
            Err(ErrorView::InvalidInput)
        },
        VirtCommandType::EditSnapshot => if c.params.len() == 1 {
            match decoded_edit(c.params[0]) {
                Some(config) => Ok(QueryView::Snapshot(config)),
                None => Err(ErrorView::InvalidInput),
            }
        } else {
            Err(ErrorView::InvalidInput)
        },
    }
}

/// The value of a query or an error.
pub open spec fn query_view(r: Result<Query, VirtError>) -> Result<QueryView, ErrorView> {
    match r {
        Ok(query) => Ok(query@),
        Err(e) => Err(e@),
    }
}

/// The query for a command.
pub fn plan(command: &VirtCommand) -> (query: Result<Query, VirtError>)
    ensures
        query_view(query) == planned(command@),
{
    let count = command.params.len();
    assert(texts(command.params@).len() == count);
    match command.cmd {
        VirtCommandType::ListAll => if count == 0 {
            Ok(Query::AllDomains)
        } else {
            Err(VirtError::InvalidInput)
        },
        VirtCommandType::ListSnapshot => Ok(Query::Snapshots(copy_texts(&command.params))),
        VirtCommandType::ListSnapshotTree => if count == 1 {
            assert(texts(command.params@)[0] == command.params@[0]@);
            Ok(Query::SnapshotTree(command.params[0].clone()))
        } else {
            Err(VirtError::InvalidInput)
        },
        VirtCommandType::SysInfo => if count == 0 {
            Ok(Query::HostSample)
        } else {
            Err(VirtError::InvalidInput)
        },
        VirtCommandType::EditSnapshot => if count == 1 {
            assert(texts(command.params@)[0] == command.params@[0]@);
            match decode_edit_request(command.params[0].as_str()) {
                Ok(config) => Ok(Query::Snapshot(config)),
                Err(_) => Err(VirtError::InvalidInput),
            }
        } else {
            Err(VirtError::InvalidInput)
        },
    }
}

} // verus!
