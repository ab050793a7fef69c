use notification_service::envelope::{
    error_response_payload, DecodeError, ErrorBody, Field, MqttRequest, MqttResponse,
};
use notification_service::http::HttpMethod;
use notification_service::router::MqttListenerRouter;
use notification_service::status::{MqttStatus, QoS};

#[test]
fn status_204_round_trips() {
    let response = MqttResponse {
        msg_id: "abc".to_string(),
        status: MqttStatus::Status204NoContent,
        data: serde_json::Value::Null,
    };
    let text = response.encode();
    assert_eq!(text, "{\"msgId\":\"abc\",\"status\":204,\"data\":null}");
    let back = MqttResponse::decode(text.as_bytes()).expect("decodes");
    assert_eq!(back.status, MqttStatus::Status204NoContent);
    assert_eq!(back.msg_id, "abc");
    assert!(back.data.is_null());
}

#[test]
fn every_status_round_trips() {
    for s in [
        MqttStatus::Status200Ok,
        MqttStatus::Status201Created,
        MqttStatus::Status204NoContent,
        MqttStatus::Status400BadRequest,
        MqttStatus::Status401Unauthorized,
        MqttStatus::Status404NotFound,
        MqttStatus::Status500InternalError,
    ] {
        assert_eq!(MqttStatus::from_code(s.code() as u64), Some(s));
        let text = MqttResponse { msg_id: "i".to_string(), status: s, data: serde_json::Value::Bool(true) }
            .encode();
        assert_eq!(MqttResponse::decode(text.as_bytes()).unwrap().status, s);
    }
}

#[test]
fn status_off_whitelist_fails() {
    let r = MqttResponse::decode(b"{\"msgId\":\"x\",\"status\":999,\"data\":null}");
    assert_eq!(r.unwrap_err(), DecodeError::InvalidField(Field::Status));
    let r = MqttResponse::decode(b"{\"msgId\":\"x\",\"status\":\"200\",\"data\":null}");
    assert_eq!(r.unwrap_err(), DecodeError::InvalidField(Field::Status));
    assert_eq!(MqttStatus::from_code(202), None);
    assert_eq!(MqttStatus::from_code(0), None);
}

#[test]
fn response_requires_fields() {
    let r = MqttResponse::decode(b"{\"status\":200,\"data\":1}");
    assert_eq!(r.unwrap_err(), DecodeError::MissingField(Field::MsgId));
    let r = MqttResponse::decode(b"{\"msgId\":\"x\",\"data\":1}");
    assert_eq!(r.unwrap_err(), DecodeError::MissingField(Field::Status));
    let r = MqttResponse::decode(b"{\"msgId\":\"x\",\"status\":200}");
    assert_eq!(r.unwrap_err(), DecodeError::MissingField(Field::Data));
    let r = MqttResponse::decode(b"{\"msgId\":7,\"status\":200,\"data\":1}");
    assert_eq!(r.unwrap_err(), DecodeError::InvalidField(Field::MsgId));
    let r = MqttResponse::decode(b"[1,2]");
    assert_eq!(r.unwrap_err(), DecodeError::MissingField(Field::MsgId));
    let r = MqttResponse::decode(b"{oops");
    assert_eq!(r.unwrap_err(), DecodeError::InvalidJson);
}

#[test]
fn request_decodes_all_fields() {
    let r = MqttRequest::decode(
        b"{\"msgId\":\"id-9\",\"method\":\"PATCH\",\"path\":\"/a?b=c\",\"data\":{\"k\":[1,2]}}",
    )
    .unwrap();
    assert_eq!(r.msg_id, "id-9");
    assert_eq!(r.method, HttpMethod::PATCH);
    assert_eq!(r.path, "/a?b=c");
    let data = r.data.unwrap();
    assert_eq!(data.to_string(), "{\"k\":[1,2]}");
}

#[test]
fn request_decode_errors() {
    let r = MqttRequest::decode(b"{\"msgId\":\"i\",\"method\":\"FETCH\",\"path\":\"/\",\"data\":null}");
    assert_eq!(r.unwrap_err(), DecodeError::InvalidField(Field::Method));
    let r = MqttRequest::decode(b"{\"msgId\":\"i\",\"method\":\"get\",\"path\":\"/\",\"data\":null}");
    assert_eq!(r.unwrap_err(), DecodeError::InvalidField(Field::Method));
    let r = MqttRequest::decode(b"{\"msgId\":\"i\",\"path\":\"/\",\"data\":null}");
    assert_eq!(r.unwrap_err(), DecodeError::MissingField(Field::Method));
    let r = MqttRequest::decode(b"{\"msgId\":\"i\",\"method\":\"GET\",\"data\":null}");
    assert_eq!(r.unwrap_err(), DecodeError::MissingField(Field::Path));
    let r = MqttRequest::decode(b"{\"msgId\":\"i\",\"method\":\"GET\",\"path\":\"/\"}");
    assert_eq!(r.unwrap_err(), DecodeError::MissingField(Field::Data));
    let r = MqttRequest::decode(b"{\"msgId\":\"i\",\"method\":\"GET\",\"path\":3,\"data\":null}");
    assert_eq!(r.unwrap_err(), DecodeError::InvalidField(Field::Path));
    let r = MqttRequest::decode(b"");
    assert_eq!(r.unwrap_err(), DecodeError::InvalidJson);
}

#[test]
fn request_encodes_exactly() {
    let req = MqttRequest {
        msg_id: "a\"b".to_string(),
        method: HttpMethod::GET,
        path: "/users/preferences".to_string(),
        data: None,
    };
    assert_eq!(
        req.encode(),
        "{\"msgId\":\"a\\\"b\",\"method\":\"GET\",\"path\":\"/users/preferences\",\"data\":null}"
    );
    let req = MqttRequest {
        msg_id: "x".to_string(),
        method: HttpMethod::POST,
        path: "/p".to_string(),
        data: Some(serde_json::from_str("{\"a\":1}").unwrap()),
    };
    let text = req.encode();
    assert_eq!(text, "{\"msgId\":\"x\",\"method\":\"POST\",\"path\":\"/p\",\"data\":{\"a\":1}}");
    let back = MqttRequest::decode(text.as_bytes()).unwrap();
    assert_eq!(back.msg_id, "x");
    assert_eq!(back.method, HttpMethod::POST);
    assert_eq!(back.data.unwrap().to_string(), "{\"a\":1}");
}

#[test]
fn error_response_carries_error_body() {
    let text = error_response_payload(
        "id1",
        MqttStatus::Status404NotFound,
        "User ID not found",
        "User ID not found in the request path",
    );
    assert_eq!(
        text,
        "{\"msgId\":\"id1\",\"status\":404,\"data\":{\"message\":\"User ID not found\",\"details\":\"User ID not found in the request path\"}}"
    );
    let body = ErrorBody { message: "m".to_string(), details: "d\n".to_string() };
    assert_eq!(body.encode(), "{\"message\":\"m\",\"details\":\"d\\n\"}");
}

#[test]
fn listener_decodes_response() {
    let router = MqttListenerRouter::new();
    let d = router
        .decode_response(b"{\"msgId\":\"r\",\"status\":201,\"data\":{\"id\":\"p\"}}")
        .unwrap();
    assert_eq!(d.mqtt_response.status, MqttStatus::Status201Created);
    assert_eq!(d.mqtt_response.msg_id, "r");
    assert!(router.decode_response(b"{\"msgId\":\"r\",\"status\":202,\"data\":1}").is_none());
}

#[test]
fn status_codes_and_qos() {
    assert_eq!(MqttStatus::Status500InternalError.code(), 500);
    assert_eq!(MqttStatus::Status401Unauthorized.digits(), "401");
    assert_eq!(QoS::AtMostOnce.as_i32(), 0);
}

#[test]
fn control_characters_are_escaped() {
    let req = MqttRequest {
        msg_id: "t\u{1}\\".to_string(),
        method: HttpMethod::PUT,
        path: "/p\u{7f}".to_string(),
        data: None,
    };
    assert_eq!(
        req.encode(),
        "{\"msgId\":\"t\\u0001\\\\\",\"method\":\"PUT\",\"path\":\"/p\u{7f}\",\"data\":null}"
    );
}
