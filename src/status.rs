use vstd::prelude::*;

verus! {

/// The status codes that a response envelope may carry.
#[derive(Debug, Clone, Copy, PartialEq, Eq, Structural)]
pub enum MqttStatus {
    Status200Ok,
    Status201Created,
    Status204NoContent,
    Status400BadRequest,
    Status401Unauthorized,
    Status404NotFound,
    Status500InternalError,
}

/// The integer that stands for a status on the wire.
pub open spec fn status_code(s: MqttStatus) -> u16 {
    match s {
        MqttStatus::Status200Ok => 200,
        MqttStatus::Status201Created => 201,
        MqttStatus::Status204NoContent => 204,
        MqttStatus::Status400BadRequest => 400,
        MqttStatus::Status401Unauthorized => 401,
        MqttStatus::Status404NotFound => 404,
        MqttStatus::Status500InternalError => 500,
    }
}

/// The status whose code is `c`; `None` for any integer off the whitelist.
pub open spec fn status_of_code(c: u64) -> Option<MqttStatus> {
    if c == 200 {
        Some(MqttStatus::Status200Ok)
    } else if c == 201 {
        Some(MqttStatus::Status201Created)
    } else if c == 204 {
        Some(MqttStatus::Status204NoContent)
    } else if c == 400 {
        Some(MqttStatus::Status400BadRequest)
    } else if c == 401 {
        Some(MqttStatus::Status401Unauthorized)
    } else if c == 404 {
        Some(MqttStatus::Status404NotFound)
    } else if c == 500 {
        Some(MqttStatus::Status500InternalError)
    } else {
        None
    }
}

/// The decimal digits of a status code.
pub open spec fn status_digits(s: MqttStatus) -> Seq<char> {
    match s {
        MqttStatus::Status200Ok => "200"@,
        MqttStatus::Status201Created => "201"@,
        MqttStatus::Status204NoContent => "204"@,
        MqttStatus::Status400BadRequest => "400"@,
        MqttStatus::Status401Unauthorized => "401"@,
        MqttStatus::Status404NotFound => "404"@,
        MqttStatus::Status500InternalError => "500"@,
    }
}

/// Reading back the code of a status gives the same status, and exactly
/// the seven whitelisted integers are read as a status.
pub proof fn lemma_status_code_round_trip(s: MqttStatus, c: u64)
    ensures
        status_of_code(status_code(s) as u64) == Some(s),
        status_of_code(c) is Some <==> (c == 200 || c == 201 || c == 204 || c == 400 || c == 401
            || c == 404 || c == 500),
        status_of_code(c) matches Some(t) ==> status_code(t) as u64 == c,
{
}

impl MqttStatus {
    pub fn code(&self) -> (r: u16)
        ensures
            r == status_code(*self),
    {
        match self {
            MqttStatus::Status200Ok => 200,
            MqttStatus::Status201Created => 201,
            MqttStatus::Status204NoContent => 204,
            MqttStatus::Status400BadRequest => 400,
            MqttStatus::Status401Unauthorized => 401,
            MqttStatus::Status404NotFound => 404,
            MqttStatus::Status500InternalError => 500,
        }
    }

    /// The status for a wire integer; integers off the whitelist are refused.
    pub fn from_code(c: u64) -> (r: Option<MqttStatus>)
        ensures
            r == status_of_code(c),
    {
        if c == 200 {
            Some(MqttStatus::Status200Ok)
        } else if c == 201 {
            Some(MqttStatus::Status201Created)
        } else if c == 204 {
            Some(MqttStatus::Status204NoContent)
        } else if c == 400 {
            Some(MqttStatus::Status400BadRequest)
        } else if c == 401 {
            Some(MqttStatus::Status401Unauthorized)
        } else if c == 404 {
            Some(MqttStatus::Status404NotFound)
        } else if c == 500 {
            Some(MqttStatus::Status500InternalError)
        } else {
            None
        }
    }

    /// The decimal text of the status code.
    pub fn digits(&self) -> (r: &'static str)
        ensures
            r@ == status_digits(*self),
    {
        match self {
            MqttStatus::Status200Ok => "200",
            MqttStatus::Status201Created => "201",
            MqttStatus::Status204NoContent => "204",
            MqttStatus::Status400BadRequest => "400",
            MqttStatus::Status401Unauthorized => "401",
            MqttStatus::Status404NotFound => "404",
            MqttStatus::Status500InternalError => "500",
        }
    }
}

/// The one quality-of-service level that subscriptions use.
#[derive(Debug, Clone, Copy, PartialEq, Eq, Structural)]
pub enum QoS {
    AtMostOnce,
}

impl QoS {
    pub fn as_i32(&self) -> (r: i32)
        ensures
            r == 0,
    {
        match self {
            QoS::AtMostOnce => 0,
        }
    }
}

} // verus!
