use vstd::prelude::*;

use crate::text::str_eq;

verus! {

/// The request verbs that an envelope may carry.
#[derive(Debug, Clone, Copy, PartialEq, Eq, Structural, Hash)]
pub enum HttpMethod {
    GET,
    PUT,
    POST,
    PATCH,
    DELETE,
}

/// The wire name of a verb.
pub open spec fn method_name(m: HttpMethod) -> Seq<char> {
    match m {
        HttpMethod::GET => seq!['G', 'E', 'T'],
        HttpMethod::PUT => seq!['P', 'U', 'T'],
        HttpMethod::POST => seq!['P', 'O', 'S', 'T'],
        HttpMethod::PATCH => seq!['P', 'A', 'T', 'C', 'H'],
        HttpMethod::DELETE => seq!['D', 'E', 'L', 'E', 'T', 'E'],
    }
}

/// The verb whose wire name is exactly `s`, if any.
pub open spec fn method_of_name(s: Seq<char>) -> Option<HttpMethod> {
    if s == method_name(HttpMethod::GET) {
        Some(HttpMethod::GET)
    } else if s == method_name(HttpMethod::PUT) {
        Some(HttpMethod::PUT)
    } else if s == method_name(HttpMethod::POST) {
        Some(HttpMethod::POST)
    } else if s == method_name(HttpMethod::PATCH) {
        Some(HttpMethod::PATCH)
    } else if s == method_name(HttpMethod::DELETE) {
        Some(HttpMethod::DELETE)
    } else {
        None
    }
}

/// Reading back the name of a verb gives the verb.
pub proof fn lemma_method_name_round_trip(m: HttpMethod)
    ensures
        method_of_name(method_name(m)) == Some(m),
{
    assert(method_name(HttpMethod::GET) != method_name(HttpMethod::PUT));
    assert(method_name(HttpMethod::GET) != method_name(HttpMethod::POST));
    assert(method_name(HttpMethod::PUT) != method_name(HttpMethod::POST));
    assert(method_name(HttpMethod::POST) != method_name(HttpMethod::PATCH));
    assert(method_name(HttpMethod::PUT) != method_name(HttpMethod::PATCH));
    assert(method_name(HttpMethod::GET) != method_name(HttpMethod::PATCH));
    assert(method_name(HttpMethod::PATCH)[1] != method_name(HttpMethod::DELETE)[1]);
}

impl HttpMethod {
    pub fn as_str(&self) -> (r: &'static str)
        ensures
            r@ == method_name(*self),
    {
        let r = match self {
            HttpMethod::GET => "GET",
            HttpMethod::PUT => "PUT",
            HttpMethod::POST => "POST",
            HttpMethod::PATCH => "PATCH",
            HttpMethod::DELETE => "DELETE",
        };
        proof {
            reveal_strlit("GET");
            reveal_strlit("PUT");
            reveal_strlit("POST");
            reveal_strlit("PATCH");
            reveal_strlit("DELETE");
        }
        r
    }

    /// Parses a verb by its exact, case-sensitive wire name.
    pub fn parse(s: &str) -> (r: Option<HttpMethod>)
        ensures
            r == method_of_name(s@),
    {
        let methods = [HttpMethod::GET, HttpMethod::PUT, HttpMethod::POST, HttpMethod::PATCH, HttpMethod::DELETE];
        let mut i: usize = 0;
        while i < 5
            invariant
                0 <= i <= 5,
                methods@ == seq![HttpMethod::GET, HttpMethod::PUT, HttpMethod::POST, HttpMethod::PATCH, HttpMethod::DELETE],
                forall|j: int| 0 <= j < i ==> method_name(#[trigger] methods@[j]) != s@,
            decreases 5 - i,
        {
            let m = methods[i];
            if str_eq(m.as_str(), s) {
                proof { lemma_method_name_round_trip(m); }
                return Some(m);
            }
            i += 1;
        }
        proof {
            assert(method_name(methods@[0]) != s@);
            assert(method_name(methods@[1]) != s@);
            assert(method_name(methods@[2]) != s@);
            assert(method_name(methods@[3]) != s@);
            assert(method_name(methods@[4]) != s@);
        }
        None
    }
}

} // verus!
