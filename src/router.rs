//! Route tables: (verb, path pattern) to listener token, and the request
//! decoders built on them.
use vstd::prelude::*;

use crate::envelope::{
    request_from_bytes, response_from_bytes, DecodeError, MqttRequest, MqttResponse, RequestView,
    ResponseView,
};
use crate::http::HttpMethod;
use crate::matcher::route_match;
use crate::params::RequestParameters;
use crate::text::str_eq;

verus! {

/// Names the handler logic that a matched route runs.
#[derive(Debug)]
pub enum ListenerToken {
    Dynamic(String),
}

impl View for ListenerToken {
    type V = Seq<char>;

    open spec fn view(&self) -> Seq<char> {
        match self {
            ListenerToken::Dynamic(s) => s@,
        }
    }
}

impl Clone for ListenerToken {
    fn clone(&self) -> (r: Self)
        ensures
            r@ == self@,
    {
        match self {
            ListenerToken::Dynamic(s) => ListenerToken::Dynamic(s.clone()),
        }
    }
}

impl ListenerToken {
    pub fn new_dynamic(value: &str) -> (r: ListenerToken)
        ensures
            r@ == value@,
    {
        ListenerToken::Dynamic(String::from_str(value))
    }

    /// Whether the token's name is `other`.
    pub fn eq_str(&self, other: &str) -> (r: bool)
        ensures
            r == (self@ == other@),
    {
        match self {
            ListenerToken::Dynamic(s) => str_eq(s.as_str(), other),
        }
    }
}

/// A registered route as values: verb, pattern and token name.
pub type RouteView = (HttpMethod, Seq<char>, Seq<char>);

/// The table after registering (m, p) to t: the entry under the same verb
/// and pattern takes the new token, or a new entry goes at the end.
pub open spec fn register_spec(rs: Seq<RouteView>, m: HttpMethod, p: Seq<char>, t: Seq<char>) -> Seq<
    RouteView,
>
    decreases rs.len(),
{
    if rs.len() == 0 {
        seq![(m, p, t)]
    } else if rs[0].0 == m && rs[0].1 == p {
        rs.update(0, (m, p, t))
    } else {
        seq![rs[0]] + register_spec(rs.drop_first(), m, p, t)
    }
}

/// The token and parameters of the first entry under verb `m` whose pattern
/// matches `requested`.
pub open spec fn lookup_spec(rs: Seq<RouteView>, m: HttpMethod, requested: Seq<char>) -> Option<
    (Seq<char>, (Map<Seq<char>, Seq<char>>, Map<Seq<char>, Seq<char>>)),
>
    decreases rs.len(),
{
    if rs.len() == 0 {
        None
    } else if rs[0].0 == m && route_match(requested, rs[0].1) is Some {
        Some((rs[0].2, route_match(requested, rs[0].1).unwrap()))
    } else {
        lookup_spec(rs.drop_first(), m, requested)
    }
}

/// No two entries share a verb and a pattern.
pub open spec fn routes_unique(rs: Seq<RouteView>) -> bool {
    forall|i: int, j: int|
        0 <= i < j < rs.len() ==> !(rs[i].0 == rs[j].0 && rs[i].1 == rs[j].1)
}

proof fn lemma_register_at(rs: Seq<RouteView>, m: HttpMethod, p: Seq<char>, t: Seq<char>, i: int)
    requires
        0 <= i < rs.len(),
        rs[i].0 == m && rs[i].1 == p,
        forall|j: int| 0 <= j < i ==> !(rs[j].0 == m && rs[j].1 == p),
    ensures
        register_spec(rs, m, p, t) == rs.update(i, (m, p, t)),
    decreases rs.len(),
{
    if i > 0 {
        lemma_register_at(rs.drop_first(), m, p, t, i - 1);
        assert(seq![rs[0]] + rs.drop_first().update(i - 1, (m, p, t)) =~= rs.update(i, (m, p, t)));
    }
}

proof fn lemma_register_new(rs: Seq<RouteView>, m: HttpMethod, p: Seq<char>, t: Seq<char>)
    requires
        forall|j: int| 0 <= j < rs.len() ==> !(rs[j].0 == m && rs[j].1 == p),
    ensures
        register_spec(rs, m, p, t) == rs.push((m, p, t)),
    decreases rs.len(),
{
    if rs.len() > 0 {
        lemma_register_new(rs.drop_first(), m, p, t);
        assert(seq![rs[0]] + rs.drop_first().push((m, p, t)) =~= rs.push((m, p, t)));
    } else {
        assert(seq![(m, p, t)] =~= rs.push((m, p, t)));
    }
}

proof fn lemma_lookup_skip(rs: Seq<RouteView>, m: HttpMethod, requested: Seq<char>, i: int)
    requires
        0 <= i < rs.len(),
        !(rs[i].0 == m && route_match(requested, rs[i].1) is Some),
    ensures
        lookup_spec(rs.subrange(i, rs.len() as int), m, requested) == lookup_spec(
            rs.subrange(i + 1, rs.len() as int),
            m,
            requested,
        ),
{
    let s = rs.subrange(i, rs.len() as int);
    assert(s.drop_first() =~= rs.subrange(i + 1, rs.len() as int));
}

/// When exactly one route under a verb matches a path, routing picks that
/// route and its bindings, wherever it stands in the table.
pub proof fn lemma_lookup_single_match(
    rs: Seq<RouteView>,
    m: HttpMethod,
    requested: Seq<char>,
    i: int,
)
    requires
        0 <= i < rs.len(),
        rs[i].0 == m && route_match(requested, rs[i].1) is Some,
        forall|j: int|
            0 <= j < rs.len() && j != i ==> !(rs[j].0 == m && route_match(requested, rs[j].1) is Some),
    ensures
        lookup_spec(rs, m, requested) == Some((rs[i].2, route_match(requested, rs[i].1).unwrap())),
    decreases rs.len(),
{
    if i > 0 {
        let t = rs.drop_first();
        assert forall|j: int| 0 <= j < t.len() && j != i - 1 implies !(t[j].0 == m && route_match(
            requested,
            t[j].1,
        ) is Some) by {
            assert(t[j] == rs[j + 1]);
        }
        lemma_lookup_single_match(t, m, requested, i - 1);
    }
}

/// A table of routes, each a verb and a path pattern with its token.
pub struct RouteTable {
    routes: Vec<(HttpMethod, String, ListenerToken)>,
}

impl View for RouteTable {
    type V = Seq<RouteView>;

    closed spec fn view(&self) -> Seq<RouteView> {
        self.routes@.map_values(|r: (HttpMethod, String, ListenerToken)| (r.0, r.1@, r.2@))
    }
}

impl RouteTable {
    pub fn new() -> (r: RouteTable)
        ensures
            r@ == Seq::<RouteView>::empty(),
    {
        let r = RouteTable { routes: Vec::new() };
        assert(r@ =~= Seq::<RouteView>::empty());
        r
    }

    /// Registers `token` under (`method`, `path`); registering the same pair
    /// again replaces its token.
    pub fn register(&mut self, method: HttpMethod, path: String, token: ListenerToken)
        ensures
            final(self)@ == register_spec(old(self)@, method, path@, token@),
            routes_unique(old(self)@) ==> routes_unique(final(self)@),
    {
        let ghost rs = self@;
        let ghost p = path@;
        let ghost t = token@;
        let mut i: usize = 0;
        while i < self.routes.len()
            invariant
                rs == self@,
                rs == old(self)@,
                p == path@,
                t == token@,
                i <= self.routes@.len(),
                forall|j: int| 0 <= j < i ==> !(rs[j].0 == method && rs[j].1 == path@),
            decreases self.routes@.len() - i,
        {
            if self.routes[i].0 == method && str_eq(self.routes[i].1.as_str(), path.as_str()) {
                proof {
                    lemma_register_at(rs, method, path@, token@, i as int);
                }
                self.routes[i] = (method, path, token);
                assert(self@ =~= rs.update(i as int, (method, p, t)));
                assert(routes_unique(rs) ==> routes_unique(self@)) by {
                    if routes_unique(rs) {
                        assert forall|a: int, b: int| 0 <= a < b < self@.len() implies !(
                        self@[a].0 == self@[b].0 && self@[a].1 == self@[b].1) by {
                            assert(rs[a].0 == self@[a].0 && rs[a].1 == self@[a].1);
                            assert(rs[b].0 == self@[b].0 && rs[b].1 == self@[b].1);
                        }
                    }
                }
                return;
            }
            i += 1;
        }
        proof {
            lemma_register_new(rs, method, path@, token@);
        }
        self.routes.push((method, path, token));
        assert(self@ =~= rs.push((method, p, t)));
    }

    /// The token and parameters of the first route, in registration order,
    /// under `method` whose pattern matches `requested`.
    pub fn lookup(&self, method: HttpMethod, requested: &str) -> (r: Option<
        (ListenerToken, RequestParameters),
    >)
        ensures
            match r {
                Some((t, p)) => lookup_spec(self@, method, requested@) == Some((t@, p@)),
                None => lookup_spec(self@, method, requested@) is None,
            },
    {
        let ghost rs = self@;
        let mut i: usize = 0;
        assert(rs.subrange(0, rs.len() as int) =~= rs);
        while i < self.routes.len()
            invariant
                rs == self@,
                i <= self.routes@.len(),
                lookup_spec(rs, method, requested@) == lookup_spec(
                    rs.subrange(i as int, rs.len() as int),
                    method,
                    requested@,
                ),
            decreases self.routes@.len() - i,
        {
            let route = &self.routes[i];
            assert(rs[i as int] == (route.0, route.1@, route.2@));
            if route.0 == method {
                match MqttRouter::match_route(requested, route.1.as_str()) {
                    Some(params) => {
                        assert(rs.subrange(i as int, rs.len() as int)[0] == rs[i as int]);
                        return Some((route.2.clone(), params));
                    },
                    None => {},
                }
            }
            proof {
                lemma_lookup_skip(rs, method, requested@, i as int);
            }
            i += 1;
        }
        None
    }
}

/// A request that a route table accepted: its envelope, the route's token
/// and the parameters the route bound.
pub struct DecodedMqttRequest {
    pub req_params: RequestParameters,
    pub mqtt_request: MqttRequest,
    pub token: ListenerToken,
}

/// A decoded response envelope.
pub struct DecodedMqttResponse {
    pub mqtt_response: MqttResponse,
}

/// What decoding a request payload against a table gives: the envelope, the
/// token and the bound parameters, or `None` when the payload is no request
/// or no route under its verb matches its path.
pub open spec fn decode_spec(rs: Seq<RouteView>, payload: Seq<u8>) -> Option<
    (RequestView, Seq<char>, (Map<Seq<char>, Seq<char>>, Map<Seq<char>, Seq<char>>)),
> {
    match request_from_bytes(payload) {
        Ok(req) => match lookup_spec(rs, req.1, req.2) {
            Some((t, p)) => Some((req, t, p)),
            None => None,
        },
        Err(_) => None,
    }
}

fn decode_with(table: &RouteTable, payload: &[u8]) -> (r: Option<DecodedMqttRequest>)
    ensures
        match r {
            Some(d) => decode_spec(table@, payload@) == Some(
                (d.mqtt_request@, d.token@, d.req_params@),
            ),
            None => decode_spec(table@, payload@) is None,
        },
{
    let mqtt_request = match MqttRequest::decode(payload) {
        Ok(req) => req,
        Err(_) => {
            return None;
        },
    };
    match table.lookup(mqtt_request.method, mqtt_request.path.as_str()) {
        Some((token, req_params)) => Some(DecodedMqttRequest { req_params, mqtt_request, token }),
        None => None,
    }
}

/// The route table of a handler that answers requests.
pub struct MqttRouter {
    registered_routes: RouteTable,
}

impl View for MqttRouter {
    type V = Seq<RouteView>;

    closed spec fn view(&self) -> Seq<RouteView> {
        self.registered_routes@
    }
}

impl MqttRouter {
    pub fn new() -> (r: MqttRouter)
        ensures
            r@ == Seq::<RouteView>::empty(),
    {
        MqttRouter { registered_routes: RouteTable::new() }
    }

    pub fn register_route(&mut self, method: HttpMethod, path: String, token: ListenerToken)
        ensures
            final(self)@ == register_spec(old(self)@, method, path@, token@),
            routes_unique(old(self)@) ==> routes_unique(final(self)@),
    {
        self.registered_routes.register(method, path, token);
    }

    /// Decodes a request payload and routes it: the first route under its
    /// verb whose pattern matches its path.
    pub fn decode_request(&self, payload: &[u8]) -> (r: Option<DecodedMqttRequest>)
        ensures
            match r {
                Some(d) => decode_spec(self@, payload@) == Some(
                    (d.mqtt_request@, d.token@, d.req_params@),
                ),
                None => decode_spec(self@, payload@) is None,
            },
    {
        decode_with(&self.registered_routes, payload)
    }
}

/// The route table of a handler that observes traffic between other
/// services.
pub struct MqttListenerRouter {
    registered_listeners: RouteTable,
}

impl View for MqttListenerRouter {
    type V = Seq<RouteView>;

    closed spec fn view(&self) -> Seq<RouteView> {
        self.registered_listeners@
    }
}

impl MqttListenerRouter {
    pub fn new() -> (r: MqttListenerRouter)
        ensures
            r@ == Seq::<RouteView>::empty(),
    {
        MqttListenerRouter { registered_listeners: RouteTable::new() }
    }

    pub fn register_listener(&mut self, method: HttpMethod, path: String, token: ListenerToken)
        ensures
            final(self)@ == register_spec(old(self)@, method, path@, token@),
            routes_unique(old(self)@) ==> routes_unique(final(self)@),
    {
        self.registered_listeners.register(method, path, token);
    }

    /// Decodes a request payload and routes it: the first route under its
    /// verb whose pattern matches its path.
    pub fn decode_request(&self, payload: &[u8]) -> (r: Option<DecodedMqttRequest>)
        ensures
            match r {
                Some(d) => decode_spec(self@, payload@) == Some(
                    (d.mqtt_request@, d.token@, d.req_params@),
                ),
                None => decode_spec(self@, payload@) is None,
            },
    {
        decode_with(&self.registered_listeners, payload)
    }

    /// Decodes a response payload; no table is consulted.
    pub fn decode_response(&self, payload: &[u8]) -> (r: Option<DecodedMqttResponse>)
        ensures
            match r {
                Some(d) => response_from_bytes(payload@) == Ok::<ResponseView, DecodeError>(
                    d.mqtt_response@,
                ),
                None => response_from_bytes(payload@) is Err,
            },
    {
        match MqttResponse::decode(payload) {
            Ok(mqtt_response) => Some(DecodedMqttResponse { mqtt_response }),
            Err(_) => None,
        }
    }
}

} // verus!
