//! The decisions of a synchronous call: publish a request with a fresh id,
//! then wait for the response that carries that id, or for the deadline.
//! The caller runs the wait loop and hands each poll's outcome here.
use vstd::prelude::*;

use crate::envelope::{
    data_text, request_frame, response_from_bytes, DecodeError, MqttRequest, MqttResponse,
    ResponseView,
};
use crate::http::HttpMethod;
use crate::json::json_quoted;
use crate::text::str_eq;

verus! {

/// How long a synchronous call waits for its response, in milliseconds.
pub const CALL_TIMEOUT_MS: u64 = 10000;

/// The longest single wait on the inbound channel, in milliseconds.
pub const POLL_INTERVAL_MS: u64 = 100;

/// A lower-case hexadecimal digit.
pub open spec fn is_lower_hex(c: char) -> bool {
    ('0' <= c && c <= '9') || ('a' <= c && c <= 'f')
}

/// The hyphenated text form of a UUID: 36 characters, hyphens at 8, 13,
/// 18 and 23, lower-case hex digits elsewhere.
pub open spec fn is_hyphenated_uuid(s: Seq<char>) -> bool {
    &&& s.len() == 36
    &&& forall|i: int|
        0 <= i < 36 ==> if i == 8 || i == 13 || i == 18 || i == 23 {
            s[i] == '-'
        } else {
            is_lower_hex(#[trigger] s[i])
        }
}

/// Relies on uuid::Uuid::new_v4 and its `Display`, which writes the
/// hyphenated lower-case form. The value itself is random.
#[verifier::external_body]
fn fresh_message_id() -> (r: String)
    ensures
        is_hyphenated_uuid(r@),
{
    uuid::Uuid::new_v4().to_string()
}

/// Why a synchronous call failed.
#[derive(Debug)]
pub enum AppMqttError {
    /// The transport refused an operation; the text says which.
    PahoMqtt(String),
    /// The awaited topic carried a payload that is no response envelope.
    Serde(DecodeError),
    /// No matching response came before the deadline.
    Timeout(String),
}

/// The outcome of one poll of a pending call.
#[derive(Debug)]
pub enum CallStep {
    /// Nothing for this call: keep polling.
    Pending,
    /// The response that carries the call's id.
    Answered(MqttResponse),
    /// The call ends with an error.
    Failed(AppMqttError),
}

/// What a message on `topic` with `payload` does to a call awaiting id
/// `call.1` on topic `call.0`: `None` leaves it waiting, `Some(Ok(_))`
/// answers it, `Some(Err(_))` fails it with a decode error.
pub open spec fn call_step(call: (Seq<char>, Seq<char>), topic: Seq<char>, payload: Seq<u8>) -> Option<
    Result<ResponseView, DecodeError>,
> {
    if topic != call.0 {
        None
    } else {
        match response_from_bytes(payload) {
            Err(e) => Some(Err(e)),
            Ok(resp) => if resp.0 == call.1 {
                Some(Ok(resp))
            } else {
                None
            },
        }
    }
}

/// The deadline of a call has passed after `elapsed_ms` milliseconds.
pub open spec fn call_expired(elapsed_ms: u64) -> bool {
    elapsed_ms > CALL_TIMEOUT_MS
}

/// A call whose request has gone out and whose response is awaited.
pub struct PendingCall {
    response_topic: String,
    msg_id: String,
}

impl View for PendingCall {
    type V = (Seq<char>, Seq<char>);

    closed spec fn view(&self) -> (Seq<char>, Seq<char>) {
        (self.response_topic@, self.msg_id@)
    }
}

impl PendingCall {
    /// A call that awaits id `msg_id` on `response_topic`.
    pub fn new(response_topic: &str, msg_id: &str) -> (r: PendingCall)
        ensures
            r@ == (response_topic@, msg_id@),
    {
        PendingCall {
            response_topic: String::from_str(response_topic),
            msg_id: String::from_str(msg_id),
        }
    }

    /// Starts a call: draws a fresh id and encodes the request to publish.
    pub fn start(
        response_topic: &str,
        method: HttpMethod,
        path: &str,
        data: Option<serde_json::Value>,
    ) -> (r: (PendingCall, String))
        ensures
            r.0@.0 == response_topic@,
            is_hyphenated_uuid(r.0@.1),
            r.1@ == request_frame(
                json_quoted(r.0@.1),
                method,
                json_quoted(path@),
                data_text(data),
            ),
    {
        let msg_id = fresh_message_id();
        let request = MqttRequest {
            msg_id: msg_id.clone(),
            method,
            path: String::from_str(path),
            data,
        };
        let payload = request.encode();
        (PendingCall { response_topic: String::from_str(response_topic), msg_id }, payload)
    }

    pub fn msg_id(&self) -> (r: &str)
        ensures
            r@ == self@.1,
    {
        self.msg_id.as_str()
    }

    pub fn response_topic(&self) -> (r: &str)
        ensures
            r@ == self@.0,
    {
        self.response_topic.as_str()
    }

    /// Whether the deadline has passed `elapsed_ms` after the call started.
    pub fn timed_out(&self, elapsed_ms: u64) -> (r: bool)
        ensures
            r == call_expired(elapsed_ms),
    {
        elapsed_ms > CALL_TIMEOUT_MS
    }

    /// The error a call ends with at its deadline.
    pub fn timeout_error(&self) -> (r: AppMqttError)
        ensures
            r matches AppMqttError::Timeout(m) && m@ == "Timeout waiting for response"@,
    {
        AppMqttError::Timeout(String::from_str("Timeout waiting for response"))
    }

    /// What a message received while waiting does to the call. A message on
    /// another topic, or a response for another id, leaves it waiting and
    /// is dropped.
    pub fn on_message(&self, topic: &str, payload: &[u8]) -> (r: CallStep)
        ensures
            match r {
                CallStep::Pending => call_step(self@, topic@, payload@) is None,
                CallStep::Answered(resp) => call_step(self@, topic@, payload@) == Some(
                    Ok::<ResponseView, DecodeError>(resp@),
                ),
                CallStep::Failed(AppMqttError::Serde(e)) => call_step(self@, topic@, payload@)
                    == Some(Err::<ResponseView, DecodeError>(e)),
                CallStep::Failed(_) => false,
            },
    {
        if !str_eq(topic, self.response_topic.as_str()) {
            return CallStep::Pending;
        }
        match MqttResponse::decode(payload) {
            Err(e) => CallStep::Failed(AppMqttError::Serde(e)),
            Ok(resp) => {
                if str_eq(resp.msg_id.as_str(), self.msg_id.as_str()) {
                    CallStep::Answered(resp)
                } else {
                    CallStep::Pending
                }
            },
        }
    }
}

/// A response for another id, or any message on another topic, never
/// settles a pending call: it is dropped and the call keeps waiting.
pub proof fn lemma_unrelated_message_ignored(
    call: (Seq<char>, Seq<char>),
    topic: Seq<char>,
    payload: Seq<u8>,
)
    requires
        topic != call.0 || (response_from_bytes(payload) matches Ok(resp) && resp.0 != call.1),
    ensures
        call_step(call, topic, payload) is None,
{
}

/// A waiting loop that checks the deadline first at 0 ms and then at most
/// one poll interval after each previous check, and stops at the first
/// check past the deadline, stops no earlier than the deadline and no
/// later than one poll interval after it.
pub proof fn lemma_timeout_window(checks: Seq<u64>)
    requires
        checks.len() >= 1,
        checks[0] == 0,
        forall|i: int| 0 <= i < checks.len() - 1 ==> #[trigger] checks[i + 1] <= checks[i] + POLL_INTERVAL_MS,
        forall|i: int| 0 <= i < checks.len() - 1 ==> !call_expired(#[trigger] checks[i]),
        call_expired(checks.last()),
    ensures
        CALL_TIMEOUT_MS < checks.last() <= CALL_TIMEOUT_MS + POLL_INTERVAL_MS,
{
    let n = checks.len() - 1;
    if n > 0 {
        assert(!call_expired(checks[n - 1]));
        assert(checks[(n - 1) + 1] <= checks[n - 1] + POLL_INTERVAL_MS);
    }
}

} // verus!
