use virtctl::actor::{ActorState, Refusal, VirtConnect, QUEUE_CAPACITY};
use virtctl::conn::{
    edit_snapshot, ends_batch, list_all, list_snapshot, list_snapshot_tree, snapshot_current,
    snapshot_records,
    CurrentLookup, CurrentSnapshot, DomainInfo, DomainLookup, DomainRecord, Found, SnapshotInfo,
    SnapshotList, SnapshotLookup, SnapshotNode,
};
use virtctl::dispatch::{decode_edit_request, edit_request_of, plan, Query};
use virtctl::snapshot_info::{snapshot_record, text_by_tag, SnapshotRecord, XmlNode};
use virtctl::virt::{SnapShotEditConfig, VirtCommand, VirtCommandType, VirtError};

fn names(list: &[&str]) -> Vec<String> {
    list.iter().map(|s| s.to_string()).collect()
}

fn command(kind: VirtCommandType, params: &[&str]) -> VirtCommand {
    VirtCommand::create_with_params(kind, names(params))
}

const SNAP: &str = "<domainsnapshot><name>snap1</name><description>first</description>\
<state>running</state><creationTime>1700000000</creationTime>\
<domain><name>debian</name><description>inner</description></domain></domainsnapshot>";

fn unreadable() -> VirtError {
    VirtError::VirtInternalError("XML from LibVirt can't be parsed".to_string())
}

#[test]
fn create_makes_a_command_without_parameters() {
    let c = VirtCommand::create(VirtCommandType::ListAll);
    assert_eq!(c.cmd, VirtCommandType::ListAll);
    assert!(c.params.is_empty());
    let c = VirtCommand::create_with_params(VirtCommandType::ListSnapshot, names(&["a", "b"]));
    assert_eq!(c.cmd, VirtCommandType::ListSnapshot);
    assert_eq!(c.params, names(&["a", "b"]));
}

#[test]
fn commands_are_served_in_the_order_of_submission() {
    let mut actor = VirtConnect::new();
    assert_eq!(actor.state(), ActorState::Running);
    assert_eq!(actor.take(), None);
    let first = command(VirtCommandType::ListSnapshotTree, &["debian"]);
    let second = VirtCommand::create(VirtCommandType::ListAll);
    assert_eq!(actor.submit(first.clone()), Ok(()));
    assert_eq!(actor.submit(second.clone()), Ok(()));
    assert_eq!(actor.waiting(), 2);
    assert_eq!(actor.take(), Some(first));
    assert_eq!(actor.take(), None);
    assert_eq!(actor.waiting(), 1);
    actor.finish();
    assert_eq!(actor.take(), Some(second));
    actor.finish();
    actor.finish();
    assert_eq!(actor.take(), None);
    assert_eq!(actor.state(), ActorState::Running);
}

#[test]
fn a_full_queue_hands_the_command_back() {
    let mut actor = VirtConnect::new();
    assert_eq!(QUEUE_CAPACITY, 2);
    for _ in 0..QUEUE_CAPACITY {
        assert!(actor.submit(VirtCommand::create(VirtCommandType::SysInfo)).is_ok());
    }
    let extra = command(VirtCommandType::ListSnapshot, &["x"]);
    assert_eq!(actor.submit(extra.clone()), Err((Refusal::Full, extra.clone())));
    assert!(actor.take().is_some());
    assert_eq!(actor.submit(extra), Ok(()));
}

#[test]
fn a_closed_actor_drains_and_stops() {
    let mut actor = VirtConnect::new();
    let waiting = VirtCommand::create(VirtCommandType::ListAll);
    assert!(actor.submit(waiting.clone()).is_ok());
    actor.close();
    assert_eq!(actor.state(), ActorState::Running);
    let late = VirtCommand::create(VirtCommandType::SysInfo);
    assert_eq!(actor.submit(late.clone()), Err((Refusal::Closed, late.clone())));
    assert_eq!(actor.take(), Some(waiting));
    assert_eq!(actor.state(), ActorState::Running);
    actor.finish();
    assert_eq!(actor.state(), ActorState::Stopped);
    assert_eq!(actor.take(), None);
    assert_eq!(actor.submit(late.clone()), Err((Refusal::Closed, late)));
    assert_eq!(actor.state(), ActorState::Stopped);
}

#[test]
fn only_a_closed_mailbox_is_an_error() {
    assert_eq!(Refusal::Closed.error(), Some(VirtError::TransportClosed));
    assert_eq!(Refusal::Full.error(), None);
}

#[test]
fn plan_checks_the_number_of_parameters() {
    assert_eq!(plan(&VirtCommand::create(VirtCommandType::ListAll)), Ok(Query::AllDomains));
    assert_eq!(plan(&command(VirtCommandType::ListAll, &["x"])), Err(VirtError::InvalidInput));
    assert_eq!(plan(&VirtCommand::create(VirtCommandType::SysInfo)), Ok(Query::HostSample));
    assert_eq!(plan(&command(VirtCommandType::SysInfo, &["x"])), Err(VirtError::InvalidInput));
    assert_eq!(
        plan(&VirtCommand::create(VirtCommandType::ListSnapshot)),
        Ok(Query::Snapshots(Vec::new()))
    );
    assert_eq!(
        plan(&command(VirtCommandType::ListSnapshot, &["a", "b"])),
        Ok(Query::Snapshots(names(&["a", "b"])))
    );
    assert_eq!(
        plan(&VirtCommand::create(VirtCommandType::ListSnapshotTree)),
        Err(VirtError::InvalidInput)
    );
    assert_eq!(
        plan(&command(VirtCommandType::ListSnapshotTree, &["debian"])),
        Ok(Query::SnapshotTree("debian".to_string()))
    );
    assert_eq!(
        plan(&command(VirtCommandType::ListSnapshotTree, &["a", "b"])),
        Err(VirtError::InvalidInput)
    );
    assert_eq!(
        plan(&VirtCommand::create(VirtCommandType::EditSnapshot)),
        Err(VirtError::InvalidInput)
    );
}

#[test]
fn plan_decodes_the_edit_request() {
    let param = r#"{"dom_name":"debian","snapshot_name":"snap1","description":"a \"note\""}"#;
    let expected = SnapShotEditConfig {
        dom_name: "debian".to_string(),
        snapshot_name: "snap1".to_string(),
        description: "a \"note\"".to_string(),
    };
    assert_eq!(decode_edit_request(param), Ok(expected.clone()));
    assert_eq!(
        plan(&command(VirtCommandType::EditSnapshot, &[param])),
        Ok(Query::Snapshot(expected))
    );
    for bad in [
        "",
        "not json",
        "[]",
        r#"{"dom_name":"debian","snapshot_name":"snap1"}"#,
        r#"{"dom_name":"debian","snapshot_name":"snap1","description":5}"#,
        r#"{"dom_name":null,"snapshot_name":"snap1","description":"d"}"#,
    ] {
        assert_eq!(decode_edit_request(bad), Err(VirtError::InvalidInput));
        assert_eq!(
            plan(&command(VirtCommandType::EditSnapshot, &[bad])),
            Err(VirtError::InvalidInput)
        );
    }
}

#[test]
fn edit_request_needs_all_three_fields() {
    let s = |t: &str| Some(t.to_string());
    assert_eq!(
        edit_request_of(s("d"), s("s"), s("")),
        Ok(SnapShotEditConfig {
            dom_name: "d".to_string(),
            snapshot_name: "s".to_string(),
            description: String::new()
        })
    );
    assert_eq!(edit_request_of(None, s("s"), s("x")), Err(VirtError::InvalidInput));
    assert_eq!(edit_request_of(s("d"), None, s("x")), Err(VirtError::InvalidInput));
    assert_eq!(edit_request_of(s("d"), s("s"), None), Err(VirtError::InvalidInput));
}

#[test]
fn list_all_reports_numbers_as_text_in_order() {
    let observed = vec![
        DomainInfo { name: "win11".to_string(), vcpu: 2, memory: 8388608 },
        DomainInfo { name: "debian".to_string(), vcpu: 0, memory: u64::MAX },
    ];
    assert_eq!(
        list_all(Ok(observed)),
        Ok(vec![
            DomainRecord {
                name: "win11".to_string(),
                vcpu: "2".to_string(),
                memory: "8388608".to_string()
            },
            DomainRecord {
                name: "debian".to_string(),
                vcpu: "0".to_string(),
                memory: "18446744073709551615".to_string()
            },
        ])
    );
    assert_eq!(list_all(Ok(Vec::new())), Ok(Vec::new()));
    assert_eq!(
        list_all(Err("connection lost".to_string())),
        Err(VirtError::VirtInternalError("connection lost".to_string()))
    );
}

#[test]
fn list_snapshots_of_a_domain_that_does_not_exist() {
    let lookups = vec![DomainLookup { name: "ghost-vm".to_string(), found: Found::Missing }];
    assert_eq!(list_snapshot(&lookups), Err(VirtError::DomainNotFound("ghost-vm".to_string())));
}

#[test]
fn list_snapshot_is_all_or_nothing() {
    let good = |name: &str| DomainLookup {
        name: name.to_string(),
        found: Found::Snapshots(vec![SnapshotInfo { xml: SNAP.to_string(), is_current: true }]),
    };
    let lookups = vec![
        good("debian"),
        DomainLookup { name: "ghost-vm".to_string(), found: Found::Missing },
        DomainLookup { name: "other".to_string(), found: Found::Failed("later".to_string()) },
    ];
    assert_eq!(list_snapshot(&lookups), Err(VirtError::DomainNotFound("ghost-vm".to_string())));
    let lookups = vec![
        good("debian"),
        DomainLookup { name: "other".to_string(), found: Found::Failed("no access".to_string()) },
        DomainLookup { name: "ghost-vm".to_string(), found: Found::Missing },
    ];
    assert_eq!(
        list_snapshot(&lookups),
        Err(VirtError::VirtInternalError("no access".to_string()))
    );
}

#[test]
fn the_first_failure_ends_the_batch() {
    let good = DomainLookup {
        name: "debian".to_string(),
        found: Found::Snapshots(vec![SnapshotInfo { xml: SNAP.to_string(), is_current: true }]),
    };
    let missing = DomainLookup { name: "ghost-vm".to_string(), found: Found::Missing };
    let failed = DomainLookup { name: "x".to_string(), found: Found::Failed("no".to_string()) };
    let broken = DomainLookup {
        name: "y".to_string(),
        found: Found::Snapshots(vec![SnapshotInfo { xml: "<a>".to_string(), is_current: false }]),
    };
    assert!(!ends_batch(&good));
    assert!(ends_batch(&missing));
    assert!(ends_batch(&failed));
    assert!(ends_batch(&broken));
    let all = vec![good.clone(), missing.clone(), failed, broken];
    let upto = vec![good, missing];
    assert_eq!(list_snapshot(&all), list_snapshot(&upto));
}

#[test]
fn list_snapshot_reads_each_description() {
    let lookups = vec![
        DomainLookup {
            name: "debian".to_string(),
            found: Found::Snapshots(vec![
                SnapshotInfo { xml: SNAP.to_string(), is_current: false },
                SnapshotInfo {
                    xml: "<domainsnapshot><name>snap2</name><description/></domainsnapshot>"
                        .to_string(),
                    is_current: true,
                },
            ]),
        },
        DomainLookup { name: "empty".to_string(), found: Found::Snapshots(Vec::new()) },
    ];
    assert_eq!(
        list_snapshot(&lookups),
        Ok(vec![
            SnapshotList {
                domain: "debian".to_string(),
                snapshots: vec![
                    SnapshotRecord {
                        name: "snap1".to_string(),
                        description: "first".to_string(),
                        state: "running".to_string(),
                        creation_time: "1700000000".to_string(),
                        is_current: false,
                    },
                    SnapshotRecord {
                        name: "snap2".to_string(),
                        description: String::new(),
                        state: String::new(),
                        creation_time: String::new(),
                        is_current: true,
                    },
                ],
            },
            SnapshotList { domain: "empty".to_string(), snapshots: Vec::new() },
        ])
    );
    assert_eq!(list_snapshot(&Vec::new()), Ok(Vec::new()));
}

#[test]
fn a_description_that_cannot_be_read_fails_the_batch() {
    let snapshots = vec![
        SnapshotInfo { xml: SNAP.to_string(), is_current: false },
        SnapshotInfo { xml: "<domainsnapshot>".to_string(), is_current: false },
    ];
    assert_eq!(snapshot_records(&snapshots), None);
    let lookups = vec![DomainLookup { name: "debian".to_string(), found: Found::Snapshots(snapshots) }];
    assert_eq!(list_snapshot(&lookups), Err(unreadable()));
}

#[test]
fn text_by_tag_takes_the_first_element_of_that_name() {
    let node = |element: bool, name: &str, text: Option<&str>| XmlNode {
        element,
        name: name.to_string(),
        text: text.map(|t| t.to_string()),
    };
    let nodes = vec![
        node(false, "", None),
        node(true, "root", None),
        node(false, "name", Some("not an element")),
        node(true, "name", Some("first")),
        node(false, "", Some("first")),
        node(true, "name", Some("second")),
        node(true, "empty", None),
    ];
    assert_eq!(text_by_tag(&nodes, "name"), "first");
    assert_eq!(text_by_tag(&nodes, "empty"), "");
    assert_eq!(text_by_tag(&nodes, "root"), "");
    assert_eq!(text_by_tag(&nodes, "missing"), "");
    assert_eq!(text_by_tag(&Vec::new(), "name"), "");
    let record = snapshot_record(&nodes, true);
    assert_eq!(record.name, "first");
    assert_eq!(record.description, "");
    assert!(record.is_current);
}

#[test]
fn list_snapshot_tree_passes_the_tree_or_reports_the_domain() {
    let tree = vec![
        SnapshotNode { name: "root".to_string(), children: names(&["a", "b"]) },
        SnapshotNode { name: "a".to_string(), children: Vec::new() },
    ];
    assert_eq!(list_snapshot_tree("debian", Some(tree.clone())), Ok(tree));
    assert_eq!(
        list_snapshot_tree("ghost-vm", None),
        Err(VirtError::DomainNotFound("ghost-vm".to_string()))
    );
}

#[test]
fn snapshot_current_writes_none_for_what_is_absent() {
    let lookups = vec![
        CurrentLookup { domain: "debian".to_string(), current: Some("snap1".to_string()) },
        CurrentLookup { domain: "ghost-vm".to_string(), current: None },
    ];
    assert_eq!(
        snapshot_current(&lookups),
        vec![
            CurrentSnapshot { domain: "debian".to_string(), snapshot: "snap1".to_string() },
            CurrentSnapshot { domain: "ghost-vm".to_string(), snapshot: "None".to_string() },
        ]
    );
}

#[test]
fn edit_snapshot_patches_name_and_description() {
    let config = SnapShotEditConfig {
        dom_name: "debian".to_string(),
        snapshot_name: "snap1".to_string(),
        description: "second <try>".to_string(),
    };
    let xml = "<domainsnapshot><name>snap1</name><state>running</state></domainsnapshot>";
    assert_eq!(
        edit_snapshot(&config, SnapshotLookup::Description(xml.to_string())),
        Ok("<domainsnapshot>\n  <name>snap1</name>\n  <state>running</state>\n  \
<description>second &lt;try&gt;</description>\n</domainsnapshot>"
            .to_string())
    );
    assert_eq!(
        edit_snapshot(&config, SnapshotLookup::Description(SNAP.to_string())),
        Ok("<domainsnapshot>\n  <name>snap1</name>\n  <description>second &lt;try&gt;</description>\n  \
<state>running</state>\n  <creationTime>1700000000</creationTime>\n  <domain>\n    \
<name>debian</name>\n    <description>inner</description>\n  </domain>\n</domainsnapshot>"
            .to_string())
    );
}

#[test]
fn edit_snapshot_reports_what_is_missing() {
    let config = SnapShotEditConfig {
        dom_name: "debian".to_string(),
        snapshot_name: "snap9".to_string(),
        description: "d".to_string(),
    };
    assert_eq!(
        edit_snapshot(&config, SnapshotLookup::DomainMissing),
        Err(VirtError::DomainNotFound("debian".to_string()))
    );
    assert_eq!(
        edit_snapshot(&config, SnapshotLookup::SnapshotMissing),
        Err(VirtError::SnapShotNotFound {
            dom_name: "debian".to_string(),
            snapshot_name: "snap9".to_string()
        })
    );
    assert_eq!(
        edit_snapshot(&config, SnapshotLookup::Description("<a><b></a>".to_string())),
        Err(unreadable())
    );
}
