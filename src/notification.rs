//! The decisions of the notification request handler: where it answers,
//! what a request asks for, and which requests are malformed.
use vstd::prelude::*;

use crate::params::RequestParameters;
use crate::status::MqttStatus;
use crate::text::{str_eq, views};

verus! {

/// `s` with each `/req`, scanning from the left, replaced by `/res`.
pub open spec fn replace_req(s: Seq<char>) -> Seq<char>
    decreases s.len(),
{
    if s.len() >= 4 && s.subrange(0, 4) == seq!['/', 'r', 'e', 'q'] {
        seq!['/', 'r', 'e', 's'] + replace_req(s.subrange(4, s.len() as int))
    } else if s.len() == 0 {
        Seq::empty()
    } else {
        seq![s[0]] + replace_req(s.drop_first())
    }
}

/// The topic that answers go to: the request topic with `/req` made
/// `/res`.
pub fn response_topic_for(topic: &str) -> (r: String)
    ensures
        r@ == replace_req(topic@),
{
    let n = topic.unicode_len();
    let mut out = String::new();
    let mut i: usize = 0;
    proof {
        reveal_strlit("/res");
        assert(topic@.subrange(0, n as int) =~= topic@);
    }
    while i < n
        invariant
            n == topic@.len(),
            i <= n,
            out@ + replace_req(topic@.subrange(i as int, n as int)) == replace_req(topic@),
        decreases n - i,
    {
        let ghost rest = topic@.subrange(i as int, n as int);
        if n - i >= 4 && topic.get_char(i) == '/' && topic.get_char(i + 1) == 'r' && topic.get_char(
            i + 2,
        ) == 'e' && topic.get_char(i + 3) == 'q' {
            proof {
                reveal_strlit("/res");
                assert(rest.subrange(0, 4) =~= seq!['/', 'r', 'e', 'q']);
                assert(rest.subrange(4, rest.len() as int) =~= topic@.subrange(i + 4, n as int));
                assert("/res"@ =~= seq!['/', 'r', 'e', 's']);
            }
            let ghost before = out@;
            out.append("/res");
            assert(out@ + replace_req(topic@.subrange(i + 4, n as int)) =~= before + replace_req(rest));
            i += 4;
        } else {
            proof {
                if rest.len() >= 4 {
                    assert(rest.subrange(0, 4) != seq!['/', 'r', 'e', 'q']) by {
                        if rest.subrange(0, 4) == seq!['/', 'r', 'e', 'q'] {
                            assert(rest.subrange(0, 4)[0] == rest[0]);
                            assert(rest.subrange(0, 4)[1] == rest[1]);
                            assert(rest.subrange(0, 4)[2] == rest[2]);
                            assert(rest.subrange(0, 4)[3] == rest[3]);
                        }
                    }
                }
                assert(rest.drop_first() =~= topic@.subrange(i + 1, n as int));
            }
            let ghost before = out@;
            out.append(topic.substring_char(i, i + 1));
            assert(topic@.subrange(i as int, i + 1) =~= seq![rest[0]]);
            assert(out@ + replace_req(topic@.subrange(i + 1, n as int)) =~= before + replace_req(rest));
            i += 1;
        }
    }
    assert(topic@.subrange(n as int, n as int) =~= Seq::<char>::empty());
    assert(out@ =~= out@ + Seq::<char>::empty());
    out
}

/// A failure answer: its status, message and details.
#[derive(Debug)]
pub struct ErrorReply {
    pub status: MqttStatus,
    pub error: String,
    pub details: String,
}

/// The user whose notifications a request asks for, and whether only the
/// unread ones (query `status=unread`); every other status asks for all.
pub fn notification_query(params: &RequestParameters) -> (r: Result<(String, bool), ErrorReply>)
    ensures
        match r {
            Ok((user, unread)) => params@.0.contains_key("user_id"@) && user@ == params@.0["user_id"@]
                && unread == (params@.1.contains_key("status"@) && params@.1["status"@]
                == "unread"@),
            Err(e) => !params@.0.contains_key("user_id"@) && e.status
                == MqttStatus::Status404NotFound && e.error@ == "User ID not found"@ && e.details@
                == "User ID not found in the request path"@,
        },
{
    let user = match params.path_parameters.get("user_id") {
        Some(u) => u.clone(),
        None => {
            return Err(
                ErrorReply {
                    status: MqttStatus::Status404NotFound,
                    error: String::from_str("User ID not found"),
                    details: String::from_str("User ID not found in the request path"),
                },
            );
        },
    };
    let unread = match params.query_parameters.get("status") {
        Some(s) => str_eq(s.as_str(), "unread"),
        None => false,
    };
    Ok((user, unread))
}

/// A decimal digit.
pub open spec fn is_digit(c: char) -> bool {
    '0' <= c <= '9'
}

/// The number that a string of decimal digits spells.
pub open spec fn digits_value(s: Seq<char>) -> int
    decreases s.len(),
{
    if s.len() == 0 {
        0
    } else {
        digits_value(s.drop_last()) * 10 + (s.last() as int - '0' as int)
    }
}

/// The `i32` that `s` spells: an optional `+` or `-`, then one or more
/// decimal digits, the value within range.
pub open spec fn decimal_i32(s: Seq<char>) -> Option<i32> {
    let signed = s.len() > 0 && (s[0] == '-' || s[0] == '+');
    let body = if signed {
        s.drop_first()
    } else {
        s
    };
    let v = if s.len() > 0 && s[0] == '-' {
        -digits_value(body)
    } else {
        digits_value(body)
    };
    if body.len() > 0 && (forall|i: int| 0 <= i < body.len() ==> is_digit(#[trigger] body[i]))
        && i32::MIN <= v <= i32::MAX {
        Some(v as i32)
    } else {
        None
    }
}

/// Relies on `str::parse::<i32>`: an optional sign and decimal digits, in
/// range; on failure, the text of the parse error.
#[verifier::external_body]
fn parse_i32(s: &str) -> (r: Result<i32, String>)
    ensures
        match r {
            Ok(n) => decimal_i32(s@) == Some(n),
            Err(_) => decimal_i32(s@) is None,
        },
{
    match s.parse::<i32>() {
        Ok(n) => Ok(n),
        Err(e) => Err(e.to_string()),
    }
}

/// The id of the notification that a request marks as read.
pub fn notification_id(params: &RequestParameters) -> (r: Result<i32, ErrorReply>)
    ensures
        match r {
            Ok(n) => params@.0.contains_key("notification_id"@) && decimal_i32(
                params@.0["notification_id"@],
            ) == Some(n),
            Err(e) => if !params@.0.contains_key("notification_id"@) {
                e.status == MqttStatus::Status404NotFound && e.error@ == "Notification ID not found"@
                    && e.details@ == "Notification ID not found in the request path"@
            } else {
                decimal_i32(params@.0["notification_id"@]) is None && e.status
                    == MqttStatus::Status400BadRequest && e.error@
                    == "Invalid notification ID provided"@
            },
        },
{
    let text = match params.path_parameters.get("notification_id") {
        Some(t) => t,
        None => {
            return Err(
                ErrorReply {
                    status: MqttStatus::Status404NotFound,
                    error: String::from_str("Notification ID not found"),
                    details: String::from_str("Notification ID not found in the request path"),
                },
            );
        },
    };
    match parse_i32(text.as_str()) {
        Ok(n) => Ok(n),
        Err(details) => Err(
            ErrorReply {
                status: MqttStatus::Status400BadRequest,
                error: String::from_str("Invalid notification ID provided"),
                details,
            },
        ),
    }
}

/// The ids of `ids` that are not in `sent`, in their order.
pub open spec fn unsent(ids: Seq<Seq<char>>, sent: Seq<Seq<char>>) -> Seq<Seq<char>> {
    ids.filter(|x: Seq<char>| !sent.contains(x))
}

/// The appointment ids that no notification was sent for yet.
pub fn unsent_ids(ids: &Vec<String>, sent: &Vec<String>) -> (r: Vec<String>)
    ensures
        views(r@) == unsent(views(ids@), views(sent@)),
{
    let ghost sv = views(sent@);
    let ghost pred = |x: Seq<char>| !sv.contains(x);
    let mut out: Vec<String> = Vec::new();
    let mut i: usize = 0;
    assert(views(ids@).subrange(0, 0) =~= Seq::<Seq<char>>::empty());
    while i < ids.len()
        invariant
            i <= ids@.len(),
            sv == views(sent@),
            pred == (|x: Seq<char>| !sv.contains(x)),
            views(out@) == views(ids@).subrange(0, i as int).filter(pred),
        decreases ids@.len() - i,
    {
        let id = &ids[i];
        let mut seen = false;
        let mut j: usize = 0;
        while j < sent.len()
            invariant
                j <= sent@.len(),
                sv == views(sent@),
                seen == exists|k: int| 0 <= k < j && sv[k] == id@,
            decreases sent@.len() - j,
        {
            assert(sv[j as int] == sent@[j as int]@);
            if str_eq(sent[j].as_str(), id.as_str()) {
                seen = true;
            }
            j += 1;
        }
        proof {
            if seen {
                let k = choose|k: int| 0 <= k < sent@.len() && sv[k] == id@;
                assert(sv.contains(id@));
            } else {
                assert(!sv.contains(id@));
            }
            let s = views(ids@).subrange(0, i + 1);
            assert(s.drop_last() =~= views(ids@).subrange(0, i as int));
            assert(s.last() == id@);
            reveal(Seq::filter);
        }
        let ghost before = views(out@);
        if !seen {
            out.push(id.clone());
            assert(views(out@) =~= before.push(id@));
        } else {
            assert(views(out@) =~= before);
        }
        i += 1;
    }
    assert(views(ids@).subrange(0, ids@.len() as int) =~= views(ids@));
    out
}

} // verus!
