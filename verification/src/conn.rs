//! The answers of the connection actor: what it replies to each command,
//! given what the hypervisor reported.

use vstd::prelude::*;
use vstd::string::*;
use crate::snapshot_info::{
    node_views, parse_nodes, record_of, snapshot_record, xml_nodes, RecordView, SnapshotRecord,
};
use crate::text::{decimal, decimal_text, texts};
use crate::virt::{ErrorView, SnapShotEditConfig, VirtError};
use crate::xml_codec::{edit_xml_text, edited};

verus! {

/// A domain as the hypervisor reports it.
#[derive(Clone, Debug, PartialEq, Eq)]
pub struct DomainInfo {
    pub name: String,
    pub vcpu: u32,
    pub memory: u64,
}

/// A domain as the actor reports it: the numbers as decimal numerals.
#[derive(Clone, Debug, PartialEq, Eq)]
pub struct DomainRecord {
    pub name: String,
    pub vcpu: String,
    pub memory: String,
}

/// The mathematical value of a [`DomainRecord`].
pub struct DomainRecordView {
    pub name: Seq<char>,
    pub vcpu: Seq<char>,
    pub memory: Seq<char>,
}

impl View for DomainRecord {
    type V = DomainRecordView;

    open spec fn view(&self) -> DomainRecordView {
        DomainRecordView { name: self.name@, vcpu: self.vcpu@, memory: self.memory@ }
    }
}

/// The record of a domain.
pub open spec fn domain_record(d: DomainInfo) -> DomainRecordView {
    DomainRecordView {
        name: d.name@,
        vcpu: decimal_text(d.vcpu as nat),
        memory: decimal_text(d.memory as nat),
    }
}

/// The records of the domains, in their order.
pub open spec fn domain_records(domains: Seq<DomainInfo>) -> Seq<DomainRecordView> {
    domains.map_values(|d: DomainInfo| domain_record(d))
}

/// The values of a sequence of domain records.
pub open spec fn domain_views(records: Seq<DomainRecord>) -> Seq<DomainRecordView> {
    records.map_values(|r: DomainRecord| r@)
}

/// The value of a list of domain records or an error.
pub open spec fn domains_view(r: Result<Vec<DomainRecord>, VirtError>) -> Result<
    Seq<DomainRecordView>,
    ErrorView,
> {
    match r {
        Ok(records) => Ok(domain_views(records@)),
        Err(e) => Err(e@),
    }
}

/// The reply to `ListAll`: every domain that the hypervisor listed, in
/// its order; if the listing failed, the failure.
pub fn list_all(observed: Result<Vec<DomainInfo>, String>) -> (reply: Result<
    Vec<DomainRecord>,
    VirtError,
>)
    ensures
        domains_view(reply) == match observed {
            Ok(domains) => Ok(domain_records(domains@)),
            Err(detail) => Err(ErrorView::VirtInternalError(detail@)),
        },
{
    match observed {
        Ok(domains) => {
            let mut records: Vec<DomainRecord> = Vec::new();
            let mut i: usize = 0;
            while i < domains.len()
                invariant
                    i <= domains.len(),
                    records.len() == i,
                    forall|j: int| 0 <= j < i ==> (#[trigger] records[j])@ == domain_record(domains[j]),
                decreases domains.len() - i,
            {
                let d = &domains[i];
                records.push(
                    DomainRecord {
                        name: d.name.clone(),
                        vcpu: decimal(d.vcpu as u128),
                        memory: decimal(d.memory as u128),
                    },
                );
                i += 1;
            }
            assert(domain_views(records@) =~= domain_records(domains@));
            Ok(records)
        },
        Err(detail) => Err(VirtError::VirtInternalError(detail)),
    }
}

/// A snapshot as the hypervisor reports it.
#[derive(Clone, Debug, PartialEq, Eq)]
pub struct SnapshotInfo {
    /// The hypervisor's description of the snapshot.
    pub xml: String,
    /// Whether it is the domain's current snapshot.
    pub is_current: bool,
}

/// The mathematical value of a [`SnapshotInfo`].
pub struct SnapshotInfoView {
    pub xml: Seq<char>,
    pub is_current: bool,
}

impl View for SnapshotInfo {
    type V = SnapshotInfoView;

    open spec fn view(&self) -> SnapshotInfoView {
        SnapshotInfoView { xml: self.xml@, is_current: self.is_current }
    }
}

/// The values of a sequence of snapshots.
pub open spec fn info_views(snapshots: Seq<SnapshotInfo>) -> Seq<SnapshotInfoView> {
    snapshots.map_values(|s: SnapshotInfo| s@)
}

/// What looking up a domain's snapshots gave.
#[derive(Clone, Debug, PartialEq, Eq)]
pub enum Found {
    /// The domain exists and has these snapshots.
    Snapshots(Vec<SnapshotInfo>),
    /// The hypervisor knows no such domain.
    Missing,
    /// The domain exists, but its snapshots could not be listed.
    Failed(String),
}

/// The mathematical value of a [`Found`].
pub enum FoundView {
    Snapshots(Seq<SnapshotInfoView>),
    Missing,
    Failed(Seq<char>),
}

impl View for Found {
    type V = FoundView;

    open spec fn view(&self) -> FoundView {
        match self {
            Found::Snapshots(snapshots) => FoundView::Snapshots(info_views(snapshots@)),
            Found::Missing => FoundView::Missing,
            Found::Failed(detail) => FoundView::Failed(detail@),
        }
    }
}

/// A domain name and what looking it up gave.
#[derive(Clone, Debug, PartialEq, Eq)]
pub struct DomainLookup {
    pub name: String,
    pub found: Found,
}

/// The mathematical value of a [`DomainLookup`].
pub struct LookupView {
    pub name: Seq<char>,
    pub found: FoundView,
}

impl View for DomainLookup {
    type V = LookupView;

    open spec fn view(&self) -> LookupView {
        LookupView { name: self.name@, found: self.found@ }
    }
}

/// The values of a sequence of lookups.
pub open spec fn lookup_views(lookups: Seq<DomainLookup>) -> Seq<LookupView> {
    lookups.map_values(|l: DomainLookup| l@)
}

/// The snapshots of one domain, as the actor reports them.
#[derive(Clone, Debug, PartialEq, Eq)]
pub struct SnapshotList {
    pub domain: String,
    pub snapshots: Vec<SnapshotRecord>,
}

/// The values of a sequence of snapshot records.
pub open spec fn record_views(records: Seq<SnapshotRecord>) -> Seq<RecordView> {
    records.map_values(|r: SnapshotRecord| r@)
}

/// The mathematical value of a [`SnapshotList`].
pub struct ListView {
    pub domain: Seq<char>,
    pub snapshots: Seq<RecordView>,
}

impl View for SnapshotList {
    type V = ListView;

    open spec fn view(&self) -> ListView {
        ListView { domain: self.domain@, snapshots: record_views(self.snapshots@) }
    }
}

/// The values of a sequence of snapshot lists.
pub open spec fn list_views(lists: Seq<SnapshotList>) -> Seq<ListView> {
    lists.map_values(|l: SnapshotList| l@)
}

/// The records of `snapshots`; `None` if the description of one of
/// them is not a well-formed document.
pub open spec fn records_of(snapshots: Seq<SnapshotInfoView>) -> Option<Seq<RecordView>>
    decreases snapshots.len(),
{
    if snapshots.len() == 0 {
        Some(Seq::empty())
    } else {
        match (records_of(snapshots.drop_last()), xml_nodes(snapshots.last().xml)) {
            (Some(records), Some(nodes)) => Some(
                records.push(record_of(nodes, snapshots.last().is_current)),
            ),
            _ => None,
        }
    }
}

/// The detail of the error for a description that cannot be read.
pub open spec fn unreadable() -> Seq<char> {
    "XML from LibVirt can't be parsed"@
}

/// The list for one lookup, or the error that it amounts to.
pub open spec fn entry_of(l: LookupView) -> Result<ListView, ErrorView> {
    match l.found {
        FoundView::Missing => Err(ErrorView::DomainNotFound(l.name)),
        FoundView::Failed(detail) => Err(ErrorView::VirtInternalError(detail)),
        FoundView::Snapshots(snapshots) => match records_of(snapshots) {
            Some(records) => Ok(ListView { domain: l.name, snapshots: records }),
            None => Err(ErrorView::VirtInternalError(unreadable())),
        },
    }
}

/// The reply to `ListSnapshot`: the list of every domain in the order of
/// the request, or the error of the first lookup that amounts to one.
pub open spec fn listed(lookups: Seq<LookupView>) -> Result<Seq<ListView>, ErrorView>
    decreases lookups.len(),
{
    if lookups.len() == 0 {
        Ok(Seq::empty())
    } else {
        match listed(lookups.drop_last()) {
            Err(e) => Err(e),
            Ok(lists) => match entry_of(lookups.last()) {
                Ok(list) => Ok(lists.push(list)),
                Err(e) => Err(e),
            },
        }
    }
}

proof fn lemma_records_none(snapshots: Seq<SnapshotInfoView>, n: int)
    requires
        0 <= n <= snapshots.len(),
        records_of(snapshots.take(n)) is None,
    ensures
        records_of(snapshots) is None,
    decreases snapshots.len() - n,
{
    if n == snapshots.len() {
        assert(snapshots.take(n) =~= snapshots);
    } else {
        assert(snapshots.drop_last().take(n) =~= snapshots.take(n));
        lemma_records_none(snapshots.drop_last(), n);
    }
}

proof fn lemma_listed_err(lookups: Seq<LookupView>, n: int)
    requires
        0 <= n <= lookups.len(),
        listed(lookups.take(n)) is Err,
    ensures
        listed(lookups) == listed(lookups.take(n)),
    decreases lookups.len() - n,
{
    if n == lookups.len() {
        assert(lookups.take(n) =~= lookups);
    } else {
        assert(lookups.drop_last().take(n) =~= lookups.take(n));
        lemma_listed_err(lookups.drop_last(), n);
    }
}

/// The reply is the error of the first lookup that amounts to one: no
/// list is handed out, whatever the lookups after it gave.
pub proof fn lemma_listed_first_failure(lookups: Seq<LookupView>, at: int)
    requires
        0 <= at < lookups.len(),
        entry_of(lookups[at]) is Err,
        forall|j: int| 0 <= j < at ==> entry_of(#[trigger] lookups[j]) is Ok,
    ensures
        listed(lookups) == Err::<Seq<ListView>, ErrorView>(entry_of(lookups[at])->Err_0),
{
    lemma_listed_all_found(lookups.take(at));
    assert(lookups.take(at + 1).drop_last() =~= lookups.take(at));
    assert(lookups.take(at + 1).last() == lookups[at]);
    lemma_listed_err(lookups, at + 1);
}

/// Where every lookup found its domain and every description can be
/// read, the reply has the list of each domain, in the order of the request.
pub proof fn lemma_listed_all_found(lookups: Seq<LookupView>)
    requires
        forall|j: int| 0 <= j < lookups.len() ==> entry_of(#[trigger] lookups[j]) is Ok,
    ensures
        listed(lookups) matches Ok(lists) && lists.len() == lookups.len() && forall|j: int|
            0 <= j < lookups.len() ==> Ok::<ListView, ErrorView>(#[trigger] lists[j]) == entry_of(
                lookups[j],
            ),
    decreases lookups.len(),
{
    if lookups.len() > 0 {
        lemma_listed_all_found(lookups.drop_last());
    }
}

/// The value of an optional list of records.
pub open spec fn opt_records(r: Option<Vec<SnapshotRecord>>) -> Option<Seq<RecordView>> {
    match r {
        Some(records) => Some(record_views(records@)),
        None => None,
    }
}

/// The records of a domain's snapshots.
pub fn snapshot_records(snapshots: &Vec<SnapshotInfo>) -> (records: Option<Vec<SnapshotRecord>>)
    ensures
        opt_records(records) == records_of(info_views(snapshots@)),
{
    let ghost all = info_views(snapshots@);
    let mut records: Vec<SnapshotRecord> = Vec::new();
    let mut i: usize = 0;
    assert(all.take(0) =~= Seq::<SnapshotInfoView>::empty());
    assert(record_views(records@) =~= Seq::<RecordView>::empty());
    while i < snapshots.len()
        invariant
            i <= snapshots.len(),
            all == info_views(snapshots@),
            records_of(all.take(i as int)) == Some(record_views(records@)),
        decreases snapshots.len() - i,
    {
        let snapshot = &snapshots[i];
        let ghost before = record_views(records@);
        proof {
            assert(all.take(i + 1).drop_last() =~= all.take(i as int));
            assert(all.take(i + 1).last() == snapshot@);
        }
        match parse_nodes(snapshot.xml.as_str()) {
            Some(nodes) => {
                records.push(snapshot_record(&nodes, snapshot.is_current));
                assert(record_views(records@) =~= before.push(
                    record_of(node_views(nodes@), snapshot.is_current),
                ));
            },
            None => {
                proof {
                    lemma_records_none(all, i + 1);
                }
                return None;
            },
        }
        i += 1;
    }
    assert(all.take(i as int) =~= all);
    Some(records)
}

/// The reply is settled by the first lookup that amounts to an error:
/// what comes after it does not matter.
pub proof fn lemma_listed_stops_at_failure(lookups: Seq<LookupView>, at: int)
    requires
        0 <= at < lookups.len(),
        entry_of(lookups[at]) is Err,
    ensures
        listed(lookups.take(at + 1)) is Err,
        listed(lookups) == listed(lookups.take(at + 1)),
{
    assert(lookups.take(at + 1).last() == lookups[at]);
    lemma_listed_err(lookups, at + 1);
}

/// Whether a lookup ends the batch: it found no domain, or failed, or
/// gave a description that cannot be read.
pub fn ends_batch(lookup: &DomainLookup) -> (ends: bool)
    ensures
        ends == (entry_of(lookup@) is Err),
{
    match &lookup.found {
        Found::Missing => true,
        Found::Failed(_) => true,
        Found::Snapshots(snapshots) => snapshot_records(snapshots).is_none(),
    }
}

/// The value of a list of snapshot lists or an error.
pub open spec fn lists_view(r: Result<Vec<SnapshotList>, VirtError>) -> Result<
    Seq<ListView>,
    ErrorView,
> {
    match r {
        Ok(lists) => Ok(list_views(lists@)),
        Err(e) => Err(e@),
    }
}

/// The reply to `ListSnapshot`. It is all or nothing: the first lookup
/// that found no domain, or failed, or gave a description that cannot
/// be read, is the reply, and no list is handed out.
pub fn list_snapshot(lookups: &Vec<DomainLookup>) -> (reply: Result<Vec<SnapshotList>, VirtError>)
    ensures
        lists_view(reply) == listed(lookup_views(lookups@)),
{
    let ghost all = lookup_views(lookups@);
    let mut lists: Vec<SnapshotList> = Vec::new();
    let mut i: usize = 0;
    assert(all.take(0) =~= Seq::<LookupView>::empty());
    assert(list_views(lists@) =~= Seq::<ListView>::empty());
    while i < lookups.len()
        invariant
            i <= lookups.len(),
            all == lookup_views(lookups@),
            listed(all.take(i as int)) == Ok::<Seq<ListView>, ErrorView>(list_views(lists@)),
        decreases lookups.len() - i,
    {
        let lookup = &lookups[i];
        let ghost before = list_views(lists@);
        proof {
            assert(all.take(i + 1).drop_last() =~= all.take(i as int));
            assert(all.take(i + 1).last() == lookup@);
        }
        let failure = match &lookup.found {
            Found::Missing => Some(VirtError::DomainNotFound(lookup.name.clone())),
            Found::Failed(detail) => Some(VirtError::VirtInternalError(detail.clone())),
            Found::Snapshots(snapshots) => match snapshot_records(snapshots) {
                Some(records) => {
                    lists.push(SnapshotList { domain: lookup.name.clone(), snapshots: records });
                    assert(list_views(lists@) =~= before.push(
                        ListView { domain: lookup.name@, snapshots: record_views(records@) },
                    ));
                    None
                },
                None => Some(
                    VirtError::VirtInternalError(String::from_str("XML from LibVirt can't be parsed")),
                ),
            },
        };
        match failure {
            Some(e) => {
                proof {
                    lemma_listed_err(all, i + 1);
                }
                return Err(e);
            },
            None => {},
        }
        i += 1;
    }
    assert(all.take(i as int) =~= all);
    Ok(lists)
}

/// A snapshot and the names of its direct children.
#[derive(Clone, Debug, PartialEq, Eq)]
pub struct SnapshotNode {
    pub name: String,
    pub children: Vec<String>,
}

/// The mathematical value of a [`SnapshotNode`].
pub struct SnapshotNodeView {
    pub name: Seq<char>,
    pub children: Seq<Seq<char>>,
}

impl View for SnapshotNode {
    type V = SnapshotNodeView;

    open spec fn view(&self) -> SnapshotNodeView {
        SnapshotNodeView { name: self.name@, children: texts(self.children@) }
    }
}

/// The values of a sequence of snapshot nodes.
pub open spec fn tree_views(nodes: Seq<SnapshotNode>) -> Seq<SnapshotNodeView> {
    nodes.map_values(|n: SnapshotNode| n@)
}

/// The value of a tree or an error.
pub open spec fn tree_view(r: Result<Vec<SnapshotNode>, VirtError>) -> Result<
    Seq<SnapshotNodeView>,
    ErrorView,
> {
    match r {
        Ok(nodes) => Ok(tree_views(nodes@)),
        Err(e) => Err(e@),
    }
}

/// The reply to `ListSnapshotTree`: every snapshot of the domain with
/// its children, as the hypervisor listed them; `DomainNotFound` if it
/// knows no such domain.
pub fn list_snapshot_tree(domain: &str, observed: Option<Vec<SnapshotNode>>) -> (reply: Result<
    Vec<SnapshotNode>,
    VirtError,
>)
    ensures
        tree_view(reply) == match observed {
            Some(nodes) => Ok(tree_views(nodes@)),
            None => Err(ErrorView::DomainNotFound(domain@)),
        },
{
    match observed {
        Some(nodes) => Ok(nodes),
        None => Err(VirtError::DomainNotFound(domain.to_owned())),
    }
}

/// A domain name and the name of its current snapshot, if the domain
/// exists and has one.
#[derive(Clone, Debug, PartialEq, Eq)]
pub struct CurrentLookup {
    pub domain: String,
    pub current: Option<String>,
}

/// A domain name and the name of its current snapshot, or `None` as text.
#[derive(Clone, Debug, PartialEq, Eq)]
pub struct CurrentSnapshot {
    pub domain: String,
    pub snapshot: String,
}

/// The mathematical value of a [`CurrentSnapshot`].
pub struct CurrentView {
    pub domain: Seq<char>,
    pub snapshot: Seq<char>,
}

impl View for CurrentSnapshot {
    type V = CurrentView;

    open spec fn view(&self) -> CurrentView {
        CurrentView { domain: self.domain@, snapshot: self.snapshot@ }
    }
}

/// What is reported for one lookup of a current snapshot.
pub open spec fn current_of(l: CurrentLookup) -> CurrentView {
    CurrentView {
        domain: l.domain@,
        snapshot: match l.current {
            Some(name) => name@,
            None => "None"@,
        },
    }
}

/// The current snapshot of each domain, in the order of the request;
/// the text `None` stands for a domain that does not exist or has no
/// current snapshot.
pub fn snapshot_current(lookups: &Vec<CurrentLookup>) -> (reply: Vec<CurrentSnapshot>)
    ensures
        reply.len() == lookups.len(),
        forall|j: int| 0 <= j < lookups.len() ==> (#[trigger] reply[j])@ == current_of(lookups[j]),
{
    let mut reply: Vec<CurrentSnapshot> = Vec::new();
    let mut i: usize = 0;
    while i < lookups.len()
        invariant
            i <= lookups.len(),
            reply.len() == i,
            forall|j: int| 0 <= j < i ==> (#[trigger] reply[j])@ == current_of(lookups[j]),
        decreases lookups.len() - i,
    {
        let lookup = &lookups[i];
        let snapshot = match &lookup.current {
            Some(name) => name.clone(),
            None => String::from_str("None"),
        };
        reply.push(CurrentSnapshot { domain: lookup.domain.clone(), snapshot });
        i += 1;
    }
    reply
}

/// What looking up a snapshot gave.
#[derive(Clone, Debug, PartialEq, Eq)]
pub enum SnapshotLookup {
    /// The hypervisor knows no such domain.
    DomainMissing,
    /// The domain has no such snapshot.
    SnapshotMissing,
    /// The hypervisor's description of the snapshot.
    Description(String),
}

/// The description of a snapshot after an edit: its `name` element
/// holds the snapshot's name and its `description` element the new
/// description, both as children of the document's root. `None` if the
/// description is malformed.
pub open spec fn edited_description(
    xml: Seq<char>,
    snapshot_name: Seq<char>,
    description: Seq<char>,
) -> Option<Seq<char>> {
    match edited(xml, "name"@, snapshot_name, 1) {
        Some(named) => edited(named, "description"@, description, 1),
        None => None,
    }
}

/// The value of a text or an error.
pub open spec fn text_view(r: Result<String, VirtError>) -> Result<Seq<char>, ErrorView> {
    match r {
        Ok(text) => Ok(text@),
        Err(e) => Err(e@),
    }
}

/// The reply to `EditSnapshot`: the snapshot's description with the
/// new name and description patched in, for the caller to hand to the
/// hypervisor; `DomainNotFound` or `SnapShotNotFound` if the lookup
/// found none.
pub fn edit_snapshot(config: &SnapShotEditConfig, found: SnapshotLookup) -> (reply: Result<
    String,
    VirtError,
>)
    ensures
        text_view(reply) == match found {
            SnapshotLookup::DomainMissing => Err(ErrorView::DomainNotFound(config.dom_name@)),
            SnapshotLookup::SnapshotMissing => Err(
                ErrorView::SnapShotNotFound {
                    dom_name: config.dom_name@,
                    snapshot_name: config.snapshot_name@,
                },
            ),
            SnapshotLookup::Description(xml) => match edited_description(
                xml@,
                config.snapshot_name@,
                config.description@,
            ) {
                Some(text) => Ok(text),
                None => Err(ErrorView::VirtInternalError(unreadable())),
            },
        },
{
    match found {
        SnapshotLookup::DomainMissing => Err(VirtError::DomainNotFound(config.dom_name.clone())),
        SnapshotLookup::SnapshotMissing => Err(
            VirtError::SnapShotNotFound {
                dom_name: config.dom_name.clone(),
                snapshot_name: config.snapshot_name.clone(),
            },
        ),
        SnapshotLookup::Description(xml) => {
            let named = edit_xml_text(&xml, "name", config.snapshot_name.as_str(), 1);
            let described = match named {
                Some(named) => edit_xml_text(&named, "description", config.description.as_str(), 1),
                None => None,
            };
            match described {
                Some(text) => Ok(text),
                None => Err(
                    VirtError::VirtInternalError(String::from_str("XML from LibVirt can't be parsed")),
                ),
            }
        },
    }
}

} // verus!
