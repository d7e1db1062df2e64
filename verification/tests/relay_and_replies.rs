use virtctl::relay::{target_address, Relay, RelayAction, RelayEvent, WINDOW};
use virtctl::response::NetworkResponse;
use virtctl::utils::sha256_hash;
use virtctl::virt::VirtError;

#[test]
fn payloads_cross_whole_and_unchanged() {
    let mut relay = Relay::new();
    assert!(relay.active());
    assert_eq!(
        relay.step(RelayEvent::ClientMessage(vec![1, 2, 3])),
        RelayAction::ToSocket(vec![1, 2, 3])
    );
    assert_eq!(relay.step(RelayEvent::ClientMessage(Vec::new())), RelayAction::ToSocket(Vec::new()));
    let window = vec![7u8; WINDOW];
    assert_eq!(relay.step(RelayEvent::SocketData(window.clone())), RelayAction::ToClient(window));
    assert!(relay.active());
}

#[test]
fn an_empty_read_tears_the_session_down() {
    let mut relay = Relay::new();
    assert_eq!(relay.step(RelayEvent::SocketData(Vec::new())), RelayAction::Teardown);
    assert!(!relay.active());
    assert_eq!(relay.step(RelayEvent::ClientMessage(vec![1])), RelayAction::Teardown);
    assert_eq!(relay.step(RelayEvent::SocketData(vec![1])), RelayAction::Teardown);
    assert!(!relay.active());
}

#[test]
fn a_client_that_is_gone_tears_the_session_down() {
    let mut relay = Relay::new();
    assert_eq!(relay.step(RelayEvent::SocketData(vec![9])), RelayAction::ToClient(vec![9]));
    assert_eq!(relay.step(RelayEvent::ClientGone), RelayAction::Teardown);
    assert!(!relay.active());
    assert_eq!(relay.step(RelayEvent::SocketData(vec![9])), RelayAction::Teardown);
}

#[test]
fn a_socket_failure_tears_the_session_down() {
    let mut relay = Relay::new();
    assert_eq!(relay.step(RelayEvent::SocketFailed), RelayAction::Teardown);
    assert!(!relay.active());
    assert_eq!(relay.step(RelayEvent::ClientMessage(vec![1])), RelayAction::Teardown);
}

#[test]
fn the_console_is_on_the_local_host() {
    assert_eq!(WINDOW, 4096);
    assert_eq!(target_address(5900), "127.0.0.1:5900");
    assert_eq!(target_address(0), "127.0.0.1:0");
    assert_eq!(target_address(65535), "127.0.0.1:65535");
}

#[test]
fn sha256_in_upper_case_hexadecimal() {
    assert_eq!(
        sha256_hash("abc"),
        "BA7816BF8F01CFEA414140DE5DAE2223B00361A396177A9CB410FF61F20015AD"
    );
    assert_eq!(
        sha256_hash(""),
        "E3B0C44298FC1C149AFBF4C8996FB92427AE41E4649B934CA495991B7852B855"
    );
    assert_ne!(sha256_hash("abc"), "abc");
}

#[test]
fn error_messages() {
    assert_eq!(VirtError::DomainNotFound("ghost-vm".to_string()).message(), "Domain ghost-vm not found");
    assert_eq!(
        VirtError::SnapShotNotFound {
            dom_name: "debian".to_string(),
            snapshot_name: "s\"1".to_string()
        }
        .message(),
        "No Snapshot named \"s\\\"1\" in Domain \"debian\""
    );
    assert_eq!(VirtError::InvalidInput.message(), "Input Invalid");
    assert_eq!(VirtError::VirtInternalError("x".to_string()).message(), "System Internal Error");
    assert_eq!(VirtError::ShellCommandFailed("boom".to_string()).message(), "boom");
    assert_eq!(VirtError::TransportClosed.message(), "Actor is not running");
    assert_eq!(VirtError::SchedulerError("bad".to_string()).message(), "bad");
}

#[test]
fn every_error_kind_has_its_own_code() {
    let errors = vec![
        VirtError::DomainNotFound("a".to_string()),
        VirtError::SnapShotNotFound { dom_name: "a".to_string(), snapshot_name: "b".to_string() },
        VirtError::InvalidInput,
        VirtError::VirtInternalError("a".to_string()),
        VirtError::ShellCommandFailed("a".to_string()),
        VirtError::TransportClosed,
        VirtError::SchedulerError("a".to_string()),
    ];
    let codes: Vec<u16> = errors.iter().map(|e| e.code()).collect();
    assert_eq!(codes, vec![1, 2, 3, 4, 5, 6, 7]);
    for e in &errors {
        assert_eq!(&e.duplicate(), e);
    }
    assert_eq!(VirtError::DomainNotFound("other".to_string()).code(), 1);
}

#[test]
fn responses_carry_a_status() {
    assert_eq!(NetworkResponse::Success(String::new()).status(), 200);
    assert_eq!(NetworkResponse::BadRequest(String::new()).status(), 400);
    assert_eq!(NetworkResponse::Unauthorized(String::new()).status(), 401);
    assert_eq!(NetworkResponse::InternalError(String::new()).status(), 500);
    assert_eq!(NetworkResponse::of(Ok("[]".to_string())), NetworkResponse::Success("[]".to_string()));
    assert_eq!(
        NetworkResponse::of(Err(VirtError::InvalidInput)),
        NetworkResponse::BadRequest("Input Invalid".to_string())
    );
    assert_eq!(
        NetworkResponse::of(Err(VirtError::DomainNotFound("ghost-vm".to_string()))),
        NetworkResponse::InternalError("Domain ghost-vm not found".to_string())
    );
}
