//! The two wire shapes, request and response, and their JSON encoding.
use vstd::prelude::*;

use crate::http::{method_name, method_of_name, HttpMethod};
use crate::json::{
    json_get, json_null, json_member, json_parse, json_quoted, json_str, json_text_of, json_u64,
    parse_json, quoted, value_text,
};
use crate::status::{status_digits, status_of_code, MqttStatus};

verus! {

/// The envelope fields that decoding reads.
#[derive(Debug, Clone, Copy, PartialEq, Eq, Structural)]
pub enum Field {
    MsgId,
    Method,
    Path,
    Data,
    Status,
}

/// Why a payload is not an envelope.
#[derive(Debug, Clone, Copy, PartialEq, Eq, Structural)]
pub enum DecodeError {
    /// The payload is not JSON.
    InvalidJson,
    /// A required field is absent (or the payload is no JSON object).
    MissingField(Field),
    /// A field holds a value of the wrong kind, a verb other than the five,
    /// or a status off the whitelist.
    InvalidField(Field),
}

/// The wire key of a field.
pub open spec fn field_key(f: Field) -> Seq<char> {
    match f {
        Field::MsgId => "msgId"@,
        Field::Method => "method"@,
        Field::Path => "path"@,
        Field::Data => "data"@,
        Field::Status => "status"@,
    }
}

pub open spec fn member_of(v: serde_json::Value, f: Field) -> Result<serde_json::Value, DecodeError> {
    match json_get(v, field_key(f)) {
        Some(m) => Ok(m),
        None => Err(DecodeError::MissingField(f)),
    }
}

pub open spec fn string_of(v: serde_json::Value, f: Field) -> Result<Seq<char>, DecodeError> {
    match member_of(v, f) {
        Ok(m) => match json_str(m) {
            Some(s) => Ok(s),
            None => Err(DecodeError::InvalidField(f)),
        },
        Err(e) => Err(e),
    }
}

/// A request envelope as values: id, verb, path (with its query) and data.
pub type RequestView = (Seq<char>, HttpMethod, Seq<char>, Option<serde_json::Value>);

/// A response envelope as values: id, status and data.
pub type ResponseView = (Seq<char>, MqttStatus, serde_json::Value);

/// The request that a JSON value holds. The fields are read in the order
/// id, verb, path, data, and the first one amiss decides the error; a
/// `null` data is no data.
pub open spec fn request_from_json(v: serde_json::Value) -> Result<RequestView, DecodeError> {
    match string_of(v, Field::MsgId) {
        Err(e) => Err(e),
        Ok(id) => match string_of(v, Field::Method) {
            Err(e) => Err(e),
            Ok(m) => match method_of_name(m) {
                None => Err(DecodeError::InvalidField(Field::Method)),
                Some(method) => match string_of(v, Field::Path) {
                    Err(e) => Err(e),
                    Ok(p) => match member_of(v, Field::Data) {
                        Err(e) => Err(e),
                        Ok(d) => Ok(
                            (
                                id,
                                method,
                                p,
                                if json_null(d) {
                                    None
                                } else {
                                    Some(d)
                                },
                            ),
                        ),
                    },
                },
            },
        },
    }
}

/// The request that a payload holds.
pub open spec fn request_from_bytes(b: Seq<u8>) -> Result<RequestView, DecodeError> {
    match json_parse(b) {
        Some(v) => request_from_json(v),
        None => Err(DecodeError::InvalidJson),
    }
}

/// The response that a JSON value holds, its fields read in the order id,
/// status, data.
pub open spec fn response_from_json(v: serde_json::Value) -> Result<ResponseView, DecodeError> {
    match string_of(v, Field::MsgId) {
        Err(e) => Err(e),
        Ok(id) => match member_of(v, Field::Status) {
            Err(e) => Err(e),
            Ok(s) => match json_u64(s) {
                None => Err(DecodeError::InvalidField(Field::Status)),
                Some(n) => match status_of_code(n) {
                    None => Err(DecodeError::InvalidField(Field::Status)),
                    Some(status) => match member_of(v, Field::Data) {
                        Err(e) => Err(e),
                        Ok(d) => Ok((id, status, d)),
                    },
                },
            },
        },
    }
}

/// The response that a payload holds.
pub open spec fn response_from_bytes(b: Seq<u8>) -> Result<ResponseView, DecodeError> {
    match json_parse(b) {
        Some(v) => response_from_json(v),
        None => Err(DecodeError::InvalidJson),
    }
}

/// The text of a data member: the value's JSON, or `null` for none.
pub open spec fn data_text(d: Option<serde_json::Value>) -> Seq<char> {
    match d {
        Some(v) => json_text_of(v),
        None => "null"@,
    }
}

/// The wire text of a request, given its quoted id and path and the text
/// of its data.
pub open spec fn request_frame(
    id_q: Seq<char>,
    method: HttpMethod,
    path_q: Seq<char>,
    data: Seq<char>,
) -> Seq<char> {
    "{\"msgId\":"@ + id_q + ",\"method\":\""@ + method_name(method) + "\",\"path\":"@ + path_q
        + ",\"data\":"@ + data + "}"@
}

/// The wire text of a response, given its quoted id and the text of its
/// data.
pub open spec fn response_frame(id_q: Seq<char>, status: MqttStatus, data: Seq<char>) -> Seq<
    char,
> {
    "{\"msgId\":"@ + id_q + ",\"status\":"@ + status_digits(status) + ",\"data\":"@ + data + "}"@
}

/// The wire text of an error body, given its quoted message and details.
pub open spec fn error_frame(message_q: Seq<char>, details_q: Seq<char>) -> Seq<char> {
    "{\"message\":"@ + message_q + ",\"details\":"@ + details_q + "}"@
}

fn field_key_str(f: Field) -> (r: &'static str)
    ensures
        r@ == field_key(f),
{
    match f {
        Field::MsgId => "msgId",
        Field::Method => "method",
        Field::Path => "path",
        Field::Data => "data",
        Field::Status => "status",
    }
}

fn member<'a>(v: &'a serde_json::Value, f: Field) -> (r: Result<&'a serde_json::Value, DecodeError>)
    ensures
        match r {
            Ok(m) => member_of(*v, f) == Ok::<serde_json::Value, DecodeError>(*m),
            Err(e) => member_of(*v, f) == Err::<serde_json::Value, DecodeError>(e),
        },
{
    match json_member(v, field_key_str(f)) {
        Some(m) => Ok(m),
        None => Err(DecodeError::MissingField(f)),
    }
}

fn string_member(v: &serde_json::Value, f: Field) -> (r: Result<String, DecodeError>)
    ensures
        match r {
            Ok(s) => string_of(*v, f) == Ok::<Seq<char>, DecodeError>(s@),
            Err(e) => string_of(*v, f) == Err::<Seq<char>, DecodeError>(e),
        },
{
    let m = member(v, f)?;
    match m.as_str() {
        Some(s) => Ok(String::from_str(s)),
        None => Err(DecodeError::InvalidField(f)),
    }
}

/// A request envelope.
#[derive(Debug)]
pub struct MqttRequest {
    pub msg_id: String,
    pub method: HttpMethod,
    pub path: String,
    pub data: Option<serde_json::Value>,
}

impl View for MqttRequest {
    type V = RequestView;

    open spec fn view(&self) -> RequestView {
        (self.msg_id@, self.method, self.path@, self.data)
    }
}

/// A response envelope.
#[derive(Debug)]
pub struct MqttResponse {
    pub msg_id: String,
    pub status: MqttStatus,
    pub data: serde_json::Value,
}

impl View for MqttResponse {
    type V = ResponseView;

    open spec fn view(&self) -> ResponseView {
        (self.msg_id@, self.status, self.data)
    }
}

/// The conventional data of a failure response.
#[derive(Debug)]
pub struct ErrorBody {
    pub message: String,
    pub details: String,
}

impl MqttRequest {
    /// Reads a request out of a JSON value.
    pub fn from_json(v: &serde_json::Value) -> (r: Result<MqttRequest, DecodeError>)
        ensures
            match r {
                Ok(req) => request_from_json(*v) == Ok::<RequestView, DecodeError>(req@),
                Err(e) => request_from_json(*v) == Err::<RequestView, DecodeError>(e),
            },
    {
        let msg_id = string_member(v, Field::MsgId)?;
        let method_name = string_member(v, Field::Method)?;
        let method = match HttpMethod::parse(method_name.as_str()) {
            Some(m) => m,
            None => {
                return Err(DecodeError::InvalidField(Field::Method));
            },
        };
        let path = string_member(v, Field::Path)?;
        let d = member(v, Field::Data)?;
        let data = if d.is_null() {
            None
        } else {
            Some(d.clone())
        };
        Ok(MqttRequest { msg_id, method, path, data })
    }

    /// Decodes a request payload.
    pub fn decode(payload: &[u8]) -> (r: Result<MqttRequest, DecodeError>)
        ensures
            match r {
                Ok(req) => request_from_bytes(payload@) == Ok::<RequestView, DecodeError>(req@),
                Err(e) => request_from_bytes(payload@) == Err::<RequestView, DecodeError>(e),
            },
    {
        match parse_json(payload) {
            Ok(v) => MqttRequest::from_json(&v),
            Err(_) => Err(DecodeError::InvalidJson),
        }
    }

    /// Encodes the request as JSON text.
    pub fn encode(&self) -> (r: String)
        ensures
            r@ == request_frame(
                json_quoted(self.msg_id@),
                self.method,
                json_quoted(self.path@),
                data_text(self.data),
            ),
    {
        let id_q = quoted(self.msg_id.as_str());
        let path_q = quoted(self.path.as_str());
        let data = match &self.data {
            Some(v) => value_text(v),
            None => String::from_str("null"),
        };
        let mut s = String::from_str("{\"msgId\":");
        s.append(id_q.as_str());
        s.append(",\"method\":\"");
        s.append(self.method.as_str());
        s.append("\",\"path\":");
        s.append(path_q.as_str());
        s.append(",\"data\":");
        s.append(data.as_str());
        s.append("}");
        s
    }
}

/// Frames a response around the JSON text of its data.
pub fn response_text(msg_id: &str, status: MqttStatus, data: &str) -> (r: String)
    ensures
        r@ == response_frame(json_quoted(msg_id@), status, data@),
{
    let id_q = quoted(msg_id);
    let mut s = String::from_str("{\"msgId\":");
    s.append(id_q.as_str());
    s.append(",\"status\":");
    s.append(status.digits());
    s.append(",\"data\":");
    s.append(data);
    s.append("}");
    s
}

impl MqttResponse {
    /// Reads a response out of a JSON value.
    pub fn from_json(v: &serde_json::Value) -> (r: Result<MqttResponse, DecodeError>)
        ensures
            match r {
                Ok(resp) => response_from_json(*v) == Ok::<ResponseView, DecodeError>(resp@),
                Err(e) => response_from_json(*v) == Err::<ResponseView, DecodeError>(e),
            },
    {
        let msg_id = string_member(v, Field::MsgId)?;
        let s = member(v, Field::Status)?;
        let status = match s.as_u64() {
            Some(n) => match MqttStatus::from_code(n) {
                Some(st) => st,
                None => {
                    return Err(DecodeError::InvalidField(Field::Status));
                },
            },
            None => {
                return Err(DecodeError::InvalidField(Field::Status));
            },
        };
        let d = member(v, Field::Data)?;
        Ok(MqttResponse { msg_id, status, data: d.clone() })
    }

    /// Decodes a response payload.
    pub fn decode(payload: &[u8]) -> (r: Result<MqttResponse, DecodeError>)
        ensures
            match r {
                Ok(resp) => response_from_bytes(payload@) == Ok::<ResponseView, DecodeError>(resp@),
                Err(e) => response_from_bytes(payload@) == Err::<ResponseView, DecodeError>(e),
            },
    {
        match parse_json(payload) {
            Ok(v) => MqttResponse::from_json(&v),
            Err(_) => Err(DecodeError::InvalidJson),
        }
    }

    /// Encodes the response as JSON text.
    pub fn encode(&self) -> (r: String)
        ensures
            r@ == response_frame(json_quoted(self.msg_id@), self.status, json_text_of(self.data)),
    {
        let t = value_text(&self.data);
        response_text(self.msg_id.as_str(), self.status, t.as_str())
    }
}

impl ErrorBody {
    /// Encodes the body as JSON text.
    pub fn encode(&self) -> (r: String)
        ensures
            r@ == error_frame(json_quoted(self.message@), json_quoted(self.details@)),
    {
        let m = quoted(self.message.as_str());
        let d = quoted(self.details.as_str());
        let mut s = String::from_str("{\"message\":");
        s.append(m.as_str());
        s.append(",\"details\":");
        s.append(d.as_str());
        s.append("}");
        s
    }
}

/// The payload of a failure response: an error body with `error` as its
/// message and `details`, under the given id and status.
pub fn error_response_payload(
    msg_id: &str,
    status: MqttStatus,
    error: &str,
    details: &str,
) -> (r: String)
    ensures
        r@ == response_frame(
            json_quoted(msg_id@),
            status,
            error_frame(json_quoted(error@), json_quoted(details@)),
        ),
{
    let body = ErrorBody { message: String::from_str(error), details: String::from_str(details) };
    let text = body.encode();
    response_text(msg_id, status, text.as_str())
}

} // verus!
