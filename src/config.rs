//! Service settings, each with its default.
use vstd::prelude::*;

verus! {

#[derive(Debug)]
pub struct Config {
    pub db_url: String,
    pub mqtt_broker_uri: String,
    pub mqtt_client_id: String,
    pub mqtt_broker_ws_uri: String,
    pub mqtt_client_ws_id: String,
    pub redis_hostname: String,
    pub redis_password: String,
}

/// The given value, or the default when none is given.
pub open spec fn or_default(v: Option<String>, d: Seq<char>) -> Seq<char> {
    match v {
        Some(s) => s@,
        None => d,
    }
}

fn value_or(v: Option<String>, d: &str) -> (r: String)
    ensures
        r@ == or_default(v, d@),
{
    match v {
        Some(s) => s,
        None => String::from_str(d),
    }
}

impl Config {
    /// Settings from the values found, each missing one set to its default.
    pub fn from_values(
        db_url: Option<String>,
        mqtt_broker_uri: Option<String>,
        mqtt_client_id: Option<String>,
        mqtt_broker_ws_uri: Option<String>,
        mqtt_client_ws_id: Option<String>,
        redis_hostname: Option<String>,
        redis_password: Option<String>,
    ) -> (r: Config)
        ensures
            r.db_url@ == or_default(db_url, "./data/main.db"@),
            r.mqtt_broker_uri@ == or_default(mqtt_broker_uri, "tcp://localhost:1883"@),
            r.mqtt_client_id@ == or_default(mqtt_client_id, "notification-service"@),
            r.mqtt_broker_ws_uri@ == or_default(mqtt_broker_ws_uri, "ws://localhost:9001"@),
            r.mqtt_client_ws_id@ == or_default(mqtt_client_ws_id, "notification-service-ws"@),
            r.redis_hostname@ == or_default(redis_hostname, "localhost"@),
            r.redis_password@ == or_default(redis_password, ""@),
    {
        Config {
            db_url: value_or(db_url, "./data/main.db"),
            mqtt_broker_uri: value_or(mqtt_broker_uri, "tcp://localhost:1883"),
            mqtt_client_id: value_or(mqtt_client_id, "notification-service"),
            mqtt_broker_ws_uri: value_or(mqtt_broker_ws_uri, "ws://localhost:9001"),
            mqtt_client_ws_id: value_or(mqtt_client_ws_id, "notification-service-ws"),
            redis_hostname: value_or(redis_hostname, "localhost"),
            redis_password: value_or(redis_password, ""),
        }
    }
}

} // verus!
