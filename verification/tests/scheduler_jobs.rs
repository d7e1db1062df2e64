use virtctl::scheduler::{
    count_fields, persist_after, with_seconds, Persist, SchedAction, SchedCommand, SchedConnect,
    SchedTaskConfig, ScheduledJob,
};
use virtctl::virt::VirtError;

fn add(domain: &str, cron: &str) -> SchedCommand {
    SchedCommand::Add(SchedTaskConfig { dom_name: domain.to_string(), cron: cron.to_string() })
}

fn unknown() -> VirtError {
    VirtError::SchedulerError("unknown job identifier".to_string())
}

#[test]
fn add_then_delete_then_delete_again() {
    let mut sched = SchedConnect::new();
    let command = add("debian", "0 0 * * *");
    assert_eq!(sched.decide(&command), SchedAction::Register("0 0 0 * * *".to_string()));
    let id = "6f1c1e0a-4b7e-4c53-9d0c-1f2a3b4c5d6e".to_string();
    assert_eq!(sched.settle(command, Ok(id.clone())), Ok(id.clone()));
    assert_eq!(
        sched.jobs(),
        &vec![ScheduledJob {
            id: id.clone(),
            dom_name: "debian".to_string(),
            cron: "0 0 * * *".to_string()
        }]
    );

    let delete = SchedCommand::Delete(id.clone());
    assert_eq!(sched.decide(&delete), SchedAction::Unregister(id.clone()));
    assert_eq!(sched.settle(delete.clone(), Ok(String::new())), Ok("Delete Sucessfully".to_string()));
    assert!(sched.jobs().is_empty());

    assert_eq!(sched.decide(&delete), SchedAction::Refuse(unknown()));
    assert_eq!(sched.settle(delete, Ok(String::new())), Err(unknown()));
}

#[test]
fn each_add_gets_the_identifier_that_the_scheduler_assigned() {
    let mut sched = SchedConnect::new();
    assert_eq!(sched.settle(add("debian", "0 0 * * *"), Ok("u1".to_string())), Ok("u1".to_string()));
    assert_eq!(sched.settle(add("debian", "0 0 * * *"), Ok("u2".to_string())), Ok("u2".to_string()));
    let ids: Vec<&str> = sched.jobs().iter().map(|j| j.id.as_str()).collect();
    assert_eq!(ids, vec!["u1", "u2"]);
}

#[test]
fn an_expression_of_five_fields_gets_a_seconds_field() {
    assert_eq!(with_seconds("0 0 * * *"), "0 0 0 * * *");
    assert_eq!(with_seconds("  */5 1,2 * * MON  "), "0   */5 1,2 * * MON  ");
    assert_eq!(with_seconds("0\t0\n* *\u{a0}*"), "0 0\t0\n* *\u{a0}*");
    assert_eq!(with_seconds("0 0 0 * * *"), "0 0 0 * * *");
    assert_eq!(with_seconds("0 0 0 * * * 2030"), "0 0 0 * * * 2030");
    assert_eq!(with_seconds("* * * *"), "* * * *");
    assert_eq!(with_seconds(""), "");
    assert_eq!(with_seconds("@daily"), "@daily");
}

#[test]
fn fields_are_runs_without_white_space() {
    assert_eq!(count_fields(""), 0);
    assert_eq!(count_fields("   "), 0);
    assert_eq!(count_fields("a"), 1);
    assert_eq!(count_fields(" a  b "), 2);
    assert_eq!(count_fields("0 0 * * *"), 5);
    assert_eq!(count_fields("0 0 0 * * *"), 6);
    for s in ["", " ", "x y", "\tx\u{2003}y z\n", "a\u{200b}b c"] {
        assert_eq!(count_fields(s), s.split_whitespace().count());
    }
}

#[test]
fn the_verdict_of_the_scheduler_decides_an_add() {
    let mut sched = SchedConnect::new();
    let bad = VirtError::SchedulerError("invalid cron expression".to_string());
    let command = add("debian", "0 0 * * *");
    assert_eq!(sched.decide_with(&command, true), SchedAction::Register("0 0 0 * * *".to_string()));
    assert_eq!(sched.decide_with(&command, false), SchedAction::Refuse(bad.clone()));
    assert_eq!(sched.settle_with(command.clone(), false, Ok("u".to_string())), Err(bad));
    assert!(sched.jobs().is_empty());
    assert_eq!(sched.settle_with(command, true, Ok("u".to_string())), Ok("u".to_string()));
    let delete = SchedCommand::Delete("u".to_string());
    assert_eq!(sched.decide_with(&delete, false), SchedAction::Unregister("u".to_string()));
    assert_eq!(
        sched.settle_with(delete, false, Ok(String::new())),
        Ok("Delete Sucessfully".to_string())
    );
    assert!(!SchedConnect::accepts(&SchedCommand::Delete("u".to_string())));
    assert!(SchedConnect::accepts(&add("debian", "0 0 * * *")));
    assert!(SchedConnect::accepts(&add("debian", "30 0 0 * * *")));
    assert!(!SchedConnect::accepts(&add("debian", "a b c d e")));
}

#[test]
fn malformed_cron_is_refused_without_asking_the_scheduler() {
    let mut sched = SchedConnect::new();
    let bad = VirtError::SchedulerError("invalid cron expression".to_string());
    assert_eq!(sched.decide(&add("debian", "not a schedule")), SchedAction::Refuse(bad.clone()));
    assert_eq!(sched.decide(&add("debian", "")), SchedAction::Refuse(bad.clone()));
    assert_eq!(sched.settle(add("debian", "not a schedule"), Ok("x".to_string())), Err(bad));
    assert!(sched.jobs().is_empty());
}

#[test]
fn scheduler_error_is_passed_on_and_changes_nothing() {
    let mut sched = SchedConnect::new();
    assert_eq!(
        sched.settle(add("debian", "0 0 0 * * *"), Err("store is down".to_string())),
        Err(VirtError::SchedulerError("store is down".to_string()))
    );
    assert!(sched.jobs().is_empty());
    assert_eq!(sched.settle(add("debian", "0 0 0 * * *"), Ok("a".to_string())), Ok("a".to_string()));
    assert_eq!(
        sched.settle(SchedCommand::Delete("a".to_string()), Err("busy".to_string())),
        Err(VirtError::SchedulerError("busy".to_string()))
    );
    assert_eq!(sched.jobs().len(), 1);
}

#[test]
fn identifier_is_registered_once() {
    let mut sched = SchedConnect::new();
    assert_eq!(sched.settle(add("a", "0 0 0 * * *"), Ok("id".to_string())), Ok("id".to_string()));
    assert_eq!(
        sched.settle(add("b", "0 0 0 * * *"), Ok("id".to_string())),
        Err(VirtError::SchedulerError("duplicate job identifier".to_string()))
    );
    assert_eq!(sched.jobs().len(), 1);
    assert_eq!(sched.jobs()[0].dom_name, "a");
}

#[test]
fn delete_removes_only_the_named_job() {
    let mut sched = SchedConnect::new();
    for id in ["a", "b", "c"] {
        assert_eq!(sched.settle(add(id, "0 0 0 * * *"), Ok(id.to_string())), Ok(id.to_string()));
    }
    assert!(sched.settle(SchedCommand::Delete("b".to_string()), Ok(String::new())).is_ok());
    let left: Vec<&str> = sched.jobs().iter().map(|j| j.id.as_str()).collect();
    assert_eq!(left, vec!["a", "c"]);
}

#[test]
fn records_follow_the_actor() {
    let command = add("debian", "0 0 0 * * *");
    assert_eq!(
        persist_after(&command, &Ok("u".to_string())),
        Persist::Insert(ScheduledJob {
            id: "u".to_string(),
            dom_name: "debian".to_string(),
            cron: "0 0 0 * * *".to_string()
        })
    );
    assert_eq!(persist_after(&command, &Err(VirtError::InvalidInput)), Persist::Nothing);
    let delete = SchedCommand::Delete("u".to_string());
    assert_eq!(persist_after(&delete, &Ok("done".to_string())), Persist::Remove("u".to_string()));
    assert_eq!(persist_after(&delete, &Err(unknown())), Persist::Nothing);
}
