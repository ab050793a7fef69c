use notification_service::http::HttpMethod;
use notification_service::listeners::{appointment_request_router, notification_router};
use notification_service::router::{ListenerToken, MqttListenerRouter, MqttRouter};

fn request_payload(method: &str, path: &str) -> Vec<u8> {
    format!(
        "{{\"msgId\":\"m-1\",\"method\":\"{}\",\"path\":\"{}\",\"data\":null}}",
        method, path
    )
    .into_bytes()
}

#[test]
fn disjoint_patterns_route_deterministically() {
    let router = appointment_request_router();

    let delete = router
        .decode_request(&request_payload("DELETE", "/appointments/123"))
        .expect("delete is routed");
    assert!(delete.token.eq_str("CancelAppointment"));
    assert_eq!(
        delete.req_params.path_parameters.get("appointment_id"),
        Some(&"123".to_string())
    );
    assert_eq!(delete.req_params.path_parameters.keys(), vec!["appointment_id".to_string()]);

    let post = router
        .decode_request(&request_payload("POST", "/appointments"))
        .expect("post is routed");
    assert!(post.token.eq_str("CreateAppointment"));
    assert!(post.req_params.path_parameters.is_empty());
    assert!(post.req_params.query_parameters.is_empty());
}

#[test]
fn disjoint_patterns_route_in_either_order() {
    let mut router = MqttListenerRouter::new();
    router.register_listener(
        HttpMethod::DELETE,
        "/appointments/:appointment_id".to_string(),
        ListenerToken::new_dynamic("CancelAppointment"),
    );
    router.register_listener(
        HttpMethod::POST,
        "/appointments".to_string(),
        ListenerToken::new_dynamic("CreateAppointment"),
    );
    let delete = router
        .decode_request(&request_payload("DELETE", "/appointments/123"))
        .unwrap();
    assert!(delete.token.eq_str("CancelAppointment"));
    let post = router.decode_request(&request_payload("POST", "/appointments")).unwrap();
    assert!(post.token.eq_str("CreateAppointment"));
}

#[test]
fn query_string_is_parsed() {
    let params = MqttRouter::match_route("/notifications/42?status=unread", "/notifications/:user_id")
        .expect("matches");
    assert_eq!(params.path_parameters.get("user_id"), Some(&"42".to_string()));
    assert_eq!(params.path_parameters.keys(), vec!["user_id".to_string()]);
    assert_eq!(params.query_parameters.get("status"), Some(&"unread".to_string()));
    assert_eq!(params.query_parameters.keys(), vec!["status".to_string()]);
}

#[test]
fn segment_count_mismatch_does_not_match() {
    assert!(MqttRouter::match_route("/a", "/a/:b").is_none());
    assert!(MqttRouter::match_route("/a/b/c", "/a/:b").is_none());
    let params = MqttRouter::match_route("/a/b", "/a/:b").unwrap();
    assert_eq!(params.path_parameters.get("b"), Some(&"b".to_string()));
}

#[test]
fn literal_segments_must_be_equal() {
    assert!(MqttRouter::match_route("/users/1/settings", "/users/:id/preferences").is_none());
    assert!(MqttRouter::match_route("/Users/1", "/users/:id").is_none());
}

#[test]
fn empty_pattern_matches_empty_path() {
    let params = MqttRouter::match_route("/", "").unwrap();
    assert!(params.path_parameters.is_empty());
    let params = MqttRouter::match_route("", "///").unwrap();
    assert!(params.path_parameters.is_empty());
}

#[test]
fn capture_binds_empty_segment() {
    let params = MqttRouter::match_route("/a//c", "/a/:b/c").unwrap();
    assert_eq!(params.path_parameters.get("b"), Some(&String::new()));
}

#[test]
fn outer_slashes_are_trimmed() {
    let params = MqttRouter::match_route("//appointments/7//", "appointments/:id").unwrap();
    assert_eq!(params.path_parameters.get("id"), Some(&"7".to_string()));
    let params = MqttRouter::match_route("/a/?x=1", "/a").unwrap();
    assert_eq!(params.query_parameters.get("x"), Some(&"1".to_string()));
}

#[test]
fn malformed_query_pairs_are_dropped() {
    let params = MqttRouter::match_route("/n/1?flag&a=1&b=x=y&a=2&", "/n/:id").unwrap();
    assert_eq!(params.query_parameters.get("flag"), None);
    assert_eq!(params.query_parameters.get("a"), Some(&"2".to_string()));
    assert_eq!(params.query_parameters.get("b"), Some(&"x=y".to_string()));
    assert_eq!(params.query_parameters.keys(), vec!["a".to_string(), "b".to_string()]);
}

#[test]
fn only_the_first_question_mark_splits() {
    let params = MqttRouter::match_route("/n/1?q=a?b", "/n/:id").unwrap();
    assert_eq!(params.query_parameters.get("q"), Some(&"a?b".to_string()));
}

#[test]
fn register_twice_overwrites_token() {
    let mut router = MqttRouter::new();
    router.register_route(HttpMethod::GET, "/x".to_string(), ListenerToken::new_dynamic("first"));
    router.register_route(HttpMethod::GET, "/x".to_string(), ListenerToken::new_dynamic("second"));
    let decoded = router.decode_request(&request_payload("GET", "/x")).unwrap();
    assert!(decoded.token.eq_str("second"));
    assert!(!decoded.token.eq_str("first"));
}

#[test]
fn unknown_verb_or_path_is_dropped() {
    let router = notification_router();
    assert!(router.decode_request(&request_payload("DELETE", "/notifications/1")).is_none());
    assert!(router.decode_request(&request_payload("GET", "/users/1")).is_none());
    assert!(router.decode_request(&request_payload("get", "/notifications/1")).is_none());
    assert!(router.decode_request(b"not json").is_none());
}

#[test]
fn notification_routes_bind_parameters() {
    let router = notification_router();
    let d = router
        .decode_request(&request_payload("GET", "/notifications/42?status=unread"))
        .unwrap();
    assert!(d.token.eq_str("get-user-notifications"));
    assert_eq!(d.mqtt_request.msg_id, "m-1");
    assert_eq!(d.mqtt_request.method, HttpMethod::GET);
    assert_eq!(d.mqtt_request.path, "/notifications/42?status=unread");
    assert!(d.mqtt_request.data.is_none());
    let d = router.decode_request(&request_payload("PUT", "/notifications/5")).unwrap();
    assert!(d.token.eq_str("mark-notification-as-read"));
    assert_eq!(d.req_params.path_parameters.get("notification_id"), Some(&"5".to_string()));
}

#[test]
fn method_names_round_trip() {
    for m in [HttpMethod::GET, HttpMethod::PUT, HttpMethod::POST, HttpMethod::PATCH, HttpMethod::DELETE] {
        assert_eq!(HttpMethod::parse(m.as_str()), Some(m));
    }
    assert_eq!(HttpMethod::DELETE.as_str(), "DELETE");
    assert_eq!(HttpMethod::parse("Get"), None);
    assert_eq!(HttpMethod::parse(""), None);
}
