use notification_service::config::Config;
use notification_service::correlation::{find_pending, join_token, token_keys};
use notification_service::dispatch::TopicDispatcher;
use notification_service::listeners::{
    takes_effect, PendingKind, appointment_request_entry, appointment_request_router, user_request_entry, user_request_router,
    APPOINTMENT_CANCEL_REQUESTS, USER_PREFERENCE_CREATE_REQUESTS, USER_PREFERENCE_DELETE_REQUESTS,
};
use notification_service::notification::{notification_id, notification_query, response_topic_for, unsent_ids};
use notification_service::router::MqttRouter;
use notification_service::status::MqttStatus;
use notification_service::user::{aggregate_user_preferences_by_user_id, Date, TimeSlot, UserPreference};

fn payload(id: &str, method: &str, path: &str) -> Vec<u8> {
    format!("{{\"msgId\":\"{}\",\"method\":\"{}\",\"path\":\"{}\",\"data\":null}}", id, method, path).into_bytes()
}

#[test]
fn dispatcher_routes_by_exact_topic() {
    let mut d = TopicDispatcher::new();
    let a = d.mount("svc/notifications/req");
    let b = d.mount("svc/users/res");
    let again = d.mount("svc/notifications/req");
    assert_eq!(a, 0);
    assert_eq!(b, 1);
    assert_eq!(again, a);
    assert_eq!(d.topics().len(), 2);
    assert_eq!(d.route("svc/users/res"), Some(1));
    assert_eq!(d.route("svc/users/+"), None);
    assert_eq!(d.route("svc/users"), None);
}

#[test]
fn user_requests_are_recorded_with_tokens() {
    let router = user_request_router();
    let create = router.decode_request(&payload("m1", "POST", "/users/u1/preferences")).unwrap();
    let (key, token) = user_request_entry(&create).unwrap();
    assert_eq!(key, USER_PREFERENCE_CREATE_REQUESTS);
    assert_eq!(token, "m1");
    let delete = router.decode_request(&payload("m2", "DELETE", "/users/u1/preferences/pz")).unwrap();
    let (key, token) = user_request_entry(&delete).unwrap();
    assert_eq!(key, USER_PREFERENCE_DELETE_REQUESTS);
    assert_eq!(token, "m2:u1:pz");
}

#[test]
fn appointment_requests_are_recorded_with_tokens() {
    let router = appointment_request_router();
    let cancel = router.decode_request(&payload("m3", "DELETE", "/appointments/a7")).unwrap();
    let (key, token) = appointment_request_entry(&cancel).unwrap();
    assert_eq!(key, APPOINTMENT_CANCEL_REQUESTS);
    assert_eq!(token, "m3:a7");
    let create = router.decode_request(&payload("m4", "POST", "/appointments")).unwrap();
    let (_, token) = appointment_request_entry(&create).unwrap();
    assert_eq!(token, "m4");
}

#[test]
fn pending_tokens_are_found_and_read_back() {
    let entries = vec!["a1:u:p".to_string(), "m2:u1:pz".to_string(), "m2:x:y".to_string()];
    assert_eq!(find_pending(&entries, "m2"), Some(1));
    assert_eq!(find_pending(&entries, "zz"), None);
    assert_eq!(token_keys("m2:u1:pz", 2), Some(vec!["u1".to_string(), "pz".to_string()]));
    assert_eq!(token_keys("m3:a7", 1), Some(vec!["a7".to_string()]));
    assert_eq!(token_keys("m3", 1), None);
    assert_eq!(token_keys("m3:a7", 2), None);
    assert_eq!(join_token(&vec!["a".to_string(), "".to_string(), "c".to_string()]), "a::c");
    assert_eq!(join_token(&vec![]), "");
}

#[test]
fn config_defaults_apply() {
    let c = Config::from_values(None, Some("tcp://b:1".to_string()), None, None, None, None, None);
    assert_eq!(c.db_url, "./data/main.db");
    assert_eq!(c.mqtt_broker_uri, "tcp://b:1");
    assert_eq!(c.mqtt_client_id, "notification-service");
    assert_eq!(c.mqtt_broker_ws_uri, "ws://localhost:9001");
    assert_eq!(c.mqtt_client_ws_id, "notification-service-ws");
    assert_eq!(c.redis_hostname, "localhost");
    assert_eq!(c.redis_password, "");
}

fn pref(id: &str, user: &str) -> UserPreference {
    UserPreference {
        id: id.to_string(),
        user_id: user.to_string(),
        start_date: Date { year: 2024, month: 1, day: 1 },
        end_date: Date { year: 2024, month: 12, day: 31 },
        is_active: true,
        days_of_week: vec!["monday".to_string()],
        time_slots: vec![TimeSlot { id: "t".to_string(), start_time: "09:00".to_string() }],
    }
}

#[test]
fn preferences_group_by_user() {
    let groups = aggregate_user_preferences_by_user_id(vec![
        pref("pa", "u1"),
        pref("pb", "u2"),
        pref("pc", "u1"),
    ]);
    assert_eq!(groups.len(), 2);
    assert_eq!(groups[0].0, "u1");
    assert_eq!(groups[0].1.iter().map(|p| p.id.as_str()).collect::<Vec<_>>(), vec!["pa", "pc"]);
    assert_eq!(groups[1].0, "u2");
    assert_eq!(groups[1].1.len(), 1);
    assert!(aggregate_user_preferences_by_user_id(vec![]).is_empty());
}

#[test]
fn unsent_ids_keep_order() {
    let ids = vec!["a".to_string(), "b".to_string(), "c".to_string(), "b".to_string()];
    let sent = vec!["b".to_string()];
    assert_eq!(unsent_ids(&ids, &sent), vec!["a".to_string(), "c".to_string()]);
    assert_eq!(unsent_ids(&ids, &vec![]), ids);
}

#[test]
fn response_topic_replaces_req() {
    assert_eq!(response_topic_for("dit356g2/notifications/req"), "dit356g2/notifications/res");
    assert_eq!(response_topic_for("/req/x/req"), "/res/x/res");
    assert_eq!(response_topic_for("/re"), "/re");
    assert_eq!(response_topic_for(""), "");
}

#[test]
fn notification_requests_are_read() {
    let p = MqttRouter::match_route("/notifications/42?status=unread", "/notifications/:user_id").unwrap();
    assert_eq!(notification_query(&p).unwrap(), ("42".to_string(), true));
    let p = MqttRouter::match_route("/notifications/42?status=all", "/notifications/:user_id").unwrap();
    assert_eq!(notification_query(&p).unwrap(), ("42".to_string(), false));
    let p = MqttRouter::match_route("/notifications/42", "/notifications/:id").unwrap();
    let e = notification_query(&p).unwrap_err();
    assert_eq!(e.status, MqttStatus::Status404NotFound);
    assert_eq!(e.error, "User ID not found");
}

#[test]
fn notification_ids_are_parsed() {
    let p = MqttRouter::match_route("/notifications/-17", "/notifications/:notification_id").unwrap();
    assert_eq!(notification_id(&p).unwrap(), -17);
    let p = MqttRouter::match_route("/notifications/x1", "/notifications/:notification_id").unwrap();
    let e = notification_id(&p).unwrap_err();
    assert_eq!(e.status, MqttStatus::Status400BadRequest);
    assert_eq!(e.error, "Invalid notification ID provided");
    assert_eq!(e.details, "invalid digit found in string");
    let p = MqttRouter::match_route("/notifications/99999999999", "/notifications/:notification_id").unwrap();
    assert_eq!(notification_id(&p).unwrap_err().status, MqttStatus::Status400BadRequest);
    let p = MqttRouter::match_route("/notifications/5", "/notifications/:id").unwrap();
    assert_eq!(notification_id(&p).unwrap_err().status, MqttStatus::Status404NotFound);
}

#[test]
fn responses_take_effect_by_status() {
    assert!(takes_effect(PendingKind::CreatePreference, MqttStatus::Status201Created));
    assert!(!takes_effect(PendingKind::CreatePreference, MqttStatus::Status200Ok));
    assert!(takes_effect(PendingKind::DeletePreference, MqttStatus::Status204NoContent));
    assert!(!takes_effect(PendingKind::DeletePreference, MqttStatus::Status404NotFound));
    assert!(takes_effect(PendingKind::CreateAppointment, MqttStatus::Status500InternalError));
    assert!(takes_effect(PendingKind::CancelAppointment, MqttStatus::Status200Ok));
}
