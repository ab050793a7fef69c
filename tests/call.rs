use notification_service::call::{AppMqttError, CallStep, PendingCall, CALL_TIMEOUT_MS, POLL_INTERVAL_MS};
use notification_service::envelope::{DecodeError, MqttRequest};
use notification_service::http::HttpMethod;

#[test]
fn times_out_after_the_deadline_only() {
    let call = PendingCall::new("svc/res", "X");
    assert_eq!(CALL_TIMEOUT_MS, 10_000);
    assert_eq!(POLL_INTERVAL_MS, 100);
    assert!(!call.timed_out(0));
    assert!(!call.timed_out(9_999));
    assert!(!call.timed_out(10_000));
    assert!(call.timed_out(10_001));
    assert!(call.timed_out(10_000 + POLL_INTERVAL_MS));
    match call.timeout_error() {
        AppMqttError::Timeout(m) => assert_eq!(m, "Timeout waiting for response"),
        other => panic!("unexpected {:?}", other),
    }
}

#[test]
fn polling_loop_ends_within_one_interval_of_deadline() {
    let call = PendingCall::new("svc/res", "X");
    let mut elapsed: u64 = 0;
    let mut checks = 0;
    while !call.timed_out(elapsed) {
        elapsed += POLL_INTERVAL_MS;
        checks += 1;
    }
    assert!(elapsed > CALL_TIMEOUT_MS);
    assert!(elapsed <= CALL_TIMEOUT_MS + POLL_INTERVAL_MS);
    assert_eq!(checks, 101);
}

#[test]
fn unrelated_response_is_ignored() {
    let call = PendingCall::new("svc/res", "X");
    let other = b"{\"msgId\":\"Y\",\"status\":200,\"data\":null}";
    assert!(matches!(call.on_message("svc/res", other), CallStep::Pending));
    let mine = b"{\"msgId\":\"X\",\"status\":200,\"data\":[1]}";
    assert!(matches!(call.on_message("svc/other", mine), CallStep::Pending));
    match call.on_message("svc/res", mine) {
        CallStep::Answered(r) => {
            assert_eq!(r.msg_id, "X");
            assert_eq!(r.data.to_string(), "[1]");
        }
        other => panic!("unexpected {:?}", other),
    }
}

#[test]
fn undecodable_response_fails_the_call() {
    let call = PendingCall::new("svc/res", "X");
    match call.on_message("svc/res", b"garbage") {
        CallStep::Failed(AppMqttError::Serde(e)) => assert_eq!(e, DecodeError::InvalidJson),
        other => panic!("unexpected {:?}", other),
    }
    assert!(matches!(call.on_message("svc/other", b"garbage"), CallStep::Pending));
}

#[test]
fn start_draws_fresh_id_and_encodes_request() {
    let (a, payload) = PendingCall::start("u/res", HttpMethod::GET, "/users/preferences", None);
    let (b, _) = PendingCall::start("u/res", HttpMethod::GET, "/users/preferences", None);
    assert_eq!(a.msg_id().len(), 36);
    assert_ne!(a.msg_id(), b.msg_id());
    assert_eq!(a.response_topic(), "u/res");
    let req = MqttRequest::decode(payload.as_bytes()).unwrap();
    assert_eq!(req.msg_id, a.msg_id());
    assert_eq!(req.method, HttpMethod::GET);
    assert_eq!(req.path, "/users/preferences");
    assert!(req.data.is_none());
}
