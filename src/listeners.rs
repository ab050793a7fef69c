//! The route tables of the service's handlers, and the pending-request
//! tokens that the request-side listeners record.
use vstd::prelude::*;

use crate::correlation::{join_token, joined};
use crate::http::HttpMethod;
use crate::params::ParamMap;
use crate::router::{
    register_spec, DecodedMqttRequest, ListenerToken, MqttListenerRouter, MqttRouter, RouteView,
};
use crate::status::MqttStatus;
use crate::text::views;

verus! {

/// List of ids of requests to create a user preference.
pub const USER_PREFERENCE_CREATE_REQUESTS: &'static str = "user_preference_create_message_id_requests";

/// List of `id:user_id:preference_id` tokens of requests to delete a user
/// preference.
pub const USER_PREFERENCE_DELETE_REQUESTS: &'static str = "user_preference_delete_message_id_requests";

/// List of ids of requests to create an appointment.
pub const APPOINTMENT_CREATE_REQUESTS: &'static str = "appointment_create_new_appointment_message_id_requests";

/// List of `id:appointment_id` tokens of requests to cancel an appointment.
pub const APPOINTMENT_CANCEL_REQUESTS: &'static str = "appointment_cancel_appointment_message_id_requests";

/// List of the JSON texts of announced free appointments.
pub const NEW_DENTIST_APPOINTMENTS: &'static str = "new_dentist_appointments";

/// Scan pattern of the per-user preference lists.
pub const USER_PREFERENCES_PATTERN: &'static str = "user_preferences*";

/// The list of the JSON texts of one user's preferences.
pub fn user_preferences_key(user_id: &str) -> (r: String)
    ensures
        r@ == "user_preferences_"@ + user_id@,
{
    let mut s = String::from_str("user_preferences_");
    s.append(user_id);
    s
}

/// The topic that pushes notifications to one user's clients.
pub fn user_notification_topic(user_id: &str) -> (r: String)
    ensures
        r@ == "dit356g2/notifications/ws/users/"@ + user_id@,
{
    let mut s = String::from_str("dit356g2/notifications/ws/users/");
    s.append(user_id);
    s
}

/// The value of `k` in `m`, or the empty text.
pub open spec fn value_or_empty(m: Map<Seq<char>, Seq<char>>, k: Seq<char>) -> Seq<char> {
    if m.contains_key(k) {
        m[k]
    } else {
        Seq::empty()
    }
}

fn param_or_empty(m: &ParamMap, k: &str) -> (r: String)
    ensures
        r@ == value_or_empty(m@, k@),
{
    match m.get(k) {
        Some(v) => v.clone(),
        None => String::new(),
    }
}

proof fn lemma_register_two(a: RouteView, b: RouteView)
    requires
        a.0 != b.0,
    ensures
        register_spec(
            register_spec(Seq::empty(), a.0, a.1, a.2),
            b.0,
            b.1,
            b.2,
        ) == seq![a, b],
{
    let rs = register_spec(Seq::empty(), a.0, a.1, a.2);
    assert(rs == seq![a]);
    assert(rs.drop_first() =~= Seq::<RouteView>::empty());
    assert(register_spec(rs.drop_first(), b.0, b.1, b.2) == seq![b]);
    assert(seq![a] + seq![b] =~= seq![a, b]);
}

pub open spec fn notification_routes() -> Seq<RouteView> {
    seq![
        (HttpMethod::GET, "/notifications/:user_id"@, "get-user-notifications"@),
        (HttpMethod::PUT, "/notifications/:notification_id"@, "mark-notification-as-read"@),
    ]
}

pub open spec fn user_request_routes() -> Seq<RouteView> {
    seq![
        (HttpMethod::POST, "/users/:user_id/preferences"@, "CreateUserPreference"@),
        (
            HttpMethod::DELETE,
            "/users/:user_id/preferences/:preference_id"@,
            "DeleteUserPreference"@,
        ),
    ]
}

pub open spec fn appointment_request_routes() -> Seq<RouteView> {
    seq![
        (HttpMethod::POST, "/appointments"@, "CreateAppointment"@),
        (HttpMethod::DELETE, "/appointments/:appointment_id"@, "CancelAppointment"@),
    ]
}

/// The routes of the notification request handler.
pub fn notification_router() -> (r: MqttRouter)
    ensures
        r@ == notification_routes(),
{
    let mut router = MqttRouter::new();
    router.register_route(
        HttpMethod::GET,
        String::from_str("/notifications/:user_id"),
        ListenerToken::new_dynamic("get-user-notifications"),
    );
    router.register_route(
        HttpMethod::PUT,
        String::from_str("/notifications/:notification_id"),
        ListenerToken::new_dynamic("mark-notification-as-read"),
    );
    proof {
        lemma_register_two(notification_routes()[0], notification_routes()[1]);
    }
    assert(router@ =~= notification_routes());
    router
}

/// The routes that the user request listener observes.
pub fn user_request_router() -> (r: MqttListenerRouter)
    ensures
        r@ == user_request_routes(),
{
    let mut router = MqttListenerRouter::new();
    router.register_listener(
        HttpMethod::POST,
        String::from_str("/users/:user_id/preferences"),
        ListenerToken::new_dynamic("CreateUserPreference"),
    );
    router.register_listener(
        HttpMethod::DELETE,
        String::from_str("/users/:user_id/preferences/:preference_id"),
        ListenerToken::new_dynamic("DeleteUserPreference"),
    );
    proof {
        lemma_register_two(user_request_routes()[0], user_request_routes()[1]);
    }
    assert(router@ =~= user_request_routes());
    router
}

/// The routes that the appointment request listener observes.
pub fn appointment_request_router() -> (r: MqttListenerRouter)
    ensures
        r@ == appointment_request_routes(),
{
    let mut router = MqttListenerRouter::new();
    router.register_listener(
        HttpMethod::POST,
        String::from_str("/appointments"),
        ListenerToken::new_dynamic("CreateAppointment"),
    );
    router.register_listener(
        HttpMethod::DELETE,
        String::from_str("/appointments/:appointment_id"),
        ListenerToken::new_dynamic("CancelAppointment"),
    );
    proof {
        lemma_register_two(appointment_request_routes()[0], appointment_request_routes()[1]);
    }
    assert(router@ =~= appointment_request_routes());
    router
}

/// The list and token that an observed user request is recorded under.
pub open spec fn user_request_entry_spec(
    token: Seq<char>,
    msg_id: Seq<char>,
    path_params: Map<Seq<char>, Seq<char>>,
) -> Option<(Seq<char>, Seq<char>)> {
    if token == "CreateUserPreference"@ {
        Some((USER_PREFERENCE_CREATE_REQUESTS@, msg_id))
    } else if token == "DeleteUserPreference"@ {
        Some(
            (
                USER_PREFERENCE_DELETE_REQUESTS@,
                joined(
                    seq![
                        msg_id,
                        value_or_empty(path_params, "user_id"@),
                        value_or_empty(path_params, "preference_id"@),
                    ],
                ),
            ),
        )
    } else {
        None
    }
}

/// The list and token that an observed appointment request is recorded
/// under.
pub open spec fn appointment_request_entry_spec(
    token: Seq<char>,
    msg_id: Seq<char>,
    path_params: Map<Seq<char>, Seq<char>>,
) -> Option<(Seq<char>, Seq<char>)> {
    if token == "CreateAppointment"@ {
        Some((APPOINTMENT_CREATE_REQUESTS@, msg_id))
    } else if token == "CancelAppointment"@ {
        Some(
            (
                APPOINTMENT_CANCEL_REQUESTS@,
                joined(seq![msg_id, value_or_empty(path_params, "appointment_id"@)]),
            ),
        )
    } else {
        None
    }
}

/// Where to record an observed user request: the list key and the token.
pub fn user_request_entry(d: &DecodedMqttRequest) -> (r: Option<(&'static str, String)>)
    ensures
        match r {
            Some((k, t)) => user_request_entry_spec(
                d.token@,
                d.mqtt_request.msg_id@,
                d.req_params.path_parameters@,
            ) == Some((k@, t@)),
            None => user_request_entry_spec(
                d.token@,
                d.mqtt_request.msg_id@,
                d.req_params.path_parameters@,
            ) is None,
        },
{
    if d.token.eq_str("CreateUserPreference") {
        Some((USER_PREFERENCE_CREATE_REQUESTS, d.mqtt_request.msg_id.clone()))
    } else if d.token.eq_str("DeleteUserPreference") {
        let mut parts: Vec<String> = Vec::new();
        parts.push(d.mqtt_request.msg_id.clone());
        parts.push(param_or_empty(&d.req_params.path_parameters, "user_id"));
        parts.push(param_or_empty(&d.req_params.path_parameters, "preference_id"));
        let t = join_token(&parts);
        assert(views(parts@) =~= seq![
            d.mqtt_request.msg_id@,
            value_or_empty(d.req_params.path_parameters@, "user_id"@),
            value_or_empty(d.req_params.path_parameters@, "preference_id"@),
        ]);
        Some((USER_PREFERENCE_DELETE_REQUESTS, t))
    } else {
        None
    }
}

/// Where to record an observed appointment request: the list key and the
/// token.
pub fn appointment_request_entry(d: &DecodedMqttRequest) -> (r: Option<(&'static str, String)>)
    ensures
        match r {
            Some((k, t)) => appointment_request_entry_spec(
                d.token@,
                d.mqtt_request.msg_id@,
                d.req_params.path_parameters@,
            ) == Some((k@, t@)),
            None => appointment_request_entry_spec(
                d.token@,
                d.mqtt_request.msg_id@,
                d.req_params.path_parameters@,
            ) is None,
        },
{
    if d.token.eq_str("CreateAppointment") {
        Some((APPOINTMENT_CREATE_REQUESTS, d.mqtt_request.msg_id.clone()))
    } else if d.token.eq_str("CancelAppointment") {
        let mut parts: Vec<String> = Vec::new();
        parts.push(d.mqtt_request.msg_id.clone());
        parts.push(param_or_empty(&d.req_params.path_parameters, "appointment_id"));
        let t = join_token(&parts);
        assert(views(parts@) =~= seq![
            d.mqtt_request.msg_id@,
            value_or_empty(d.req_params.path_parameters@, "appointment_id"@),
        ]);
        Some((APPOINTMENT_CANCEL_REQUESTS, t))
    } else {
        None
    }
}

/// The kinds of observed requests whose responses a listener acts on.
#[derive(Debug, Clone, Copy, PartialEq, Eq, Structural)]
pub enum PendingKind {
    CreatePreference,
    DeletePreference,
    CreateAppointment,
    CancelAppointment,
}

/// A response to a claimed request of this kind changes the cache: a new
/// preference only when created (201), a deleted one only when gone (204),
/// appointment requests whatever the status.
pub open spec fn response_takes_effect(kind: PendingKind, status: MqttStatus) -> bool {
    match kind {
        PendingKind::CreatePreference => status == MqttStatus::Status201Created,
        PendingKind::DeletePreference => status == MqttStatus::Status204NoContent,
        PendingKind::CreateAppointment => true,
        PendingKind::CancelAppointment => true,
    }
}

/// Whether the response to a claimed request of `kind` is to change the
/// cache.
pub fn takes_effect(kind: PendingKind, status: MqttStatus) -> (r: bool)
    ensures
        r == response_takes_effect(kind, status),
{
    match kind {
        PendingKind::CreatePreference => status == MqttStatus::Status201Created,
        PendingKind::DeletePreference => status == MqttStatus::Status204NoContent,
        PendingKind::CreateAppointment => true,
        PendingKind::CancelAppointment => true,
    }
}

} // verus!
