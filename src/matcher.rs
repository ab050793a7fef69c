use vstd::prelude::*;

use crate::params::{pairs_to_map, Pair, ParamMap, RequestParameters};
use crate::router::MqttRouter;
use crate::text::{
    split_on, split_on_char, split_once, split_once_char, str_eq, trim_char, trim_matches, views,
};

verus! {

/// A pattern segment that captures the requested segment under its name.
pub open spec fn is_capture(seg: Seq<char>) -> bool {
    seg.len() > 0 && seg[0] == ':'
}

/// The `/`-delimited segments of a path, once its outer slashes are trimmed.
pub open spec fn path_segments(s: Seq<char>) -> Seq<Seq<char>> {
    split_on(trim_char(s, '/'), '/')
}

/// What stands before the first `?` of a requested route.
pub open spec fn path_part(requested: Seq<char>) -> Seq<char> {
    match split_once(requested, '?') {
        Some(pq) => pq.0,
        None => requested,
    }
}

/// The two segment lists have one length, and each literal pattern segment
/// equals the requested one.
pub open spec fn segments_agree(ps: Seq<Seq<char>>, rs: Seq<Seq<char>>) -> bool {
    &&& ps.len() == rs.len()
    &&& forall|i: int| 0 <= i < ps.len() && !is_capture(#[trigger] ps[i]) ==> ps[i] == rs[i]
}

/// The (name, value) pairs captured by the first `n` segments.
pub open spec fn captures(ps: Seq<Seq<char>>, rs: Seq<Seq<char>>, n: int) -> Seq<Pair>
    decreases n,
{
    if n <= 0 {
        Seq::empty()
    } else {
        let pre = captures(ps, rs, n - 1);
        if is_capture(ps[n - 1]) {
            pre.push((ps[n - 1].subrange(1, ps[n - 1].len() as int), rs[n - 1]))
        } else {
            pre
        }
    }
}

/// The key/value pairs of the first `n` query pieces; a piece without `=`
/// is left out.
pub open spec fn query_pairs(pieces: Seq<Seq<char>>, n: int) -> Seq<Pair>
    decreases n,
{
    if n <= 0 {
        Seq::empty()
    } else {
        let pre = query_pairs(pieces, n - 1);
        match split_once(pieces[n - 1], '=') {
            Some(kv) => pre.push(kv),
            None => pre,
        }
    }
}

/// The query parameters of a requested route.
pub open spec fn query_map(requested: Seq<char>) -> Map<Seq<char>, Seq<char>> {
    match split_once(requested, '?') {
        Some(pq) => {
            let pieces = split_on(pq.1, '&');
            pairs_to_map(query_pairs(pieces, pieces.len() as int))
        },
        None => Map::empty(),
    }
}

/// The path and query parameters that `requested` binds against `pattern`,
/// or `None` when the two do not match.
pub open spec fn route_match(requested: Seq<char>, pattern: Seq<char>) -> Option<
    (Map<Seq<char>, Seq<char>>, Map<Seq<char>, Seq<char>>),
> {
    let ps = path_segments(pattern);
    let rs = path_segments(path_part(requested));
    if segments_agree(ps, rs) {
        Some((pairs_to_map(captures(ps, rs, ps.len() as int)), query_map(requested)))
    } else {
        None
    }
}

/// A pattern never matches a path with a different number of segments.
pub proof fn lemma_segment_count_mismatch(requested: Seq<char>, pattern: Seq<char>)
    requires
        path_segments(pattern).len() != path_segments(path_part(requested)).len(),
    ensures
        route_match(requested, pattern) is None,
{
}

impl View for RequestParameters {
    type V = (Map<Seq<char>, Seq<char>>, Map<Seq<char>, Seq<char>>);

    open spec fn view(&self) -> (Map<Seq<char>, Seq<char>>, Map<Seq<char>, Seq<char>>) {
        (self.path_parameters@, self.query_parameters@)
    }
}

impl MqttRouter {
    /// Matches a requested route (path with an optional `?query`) against a
    /// registered pattern and binds its parameters.
    pub fn match_route(requested_route: &str, registered_path: &str) -> (r: Option<
        RequestParameters,
    >)
        ensures
            match r {
                Some(p) => route_match(requested_route@, registered_path@) == Some(p@),
                None => route_match(requested_route@, registered_path@) is None,
            },
    {
        let (path, query) = match split_once_char(requested_route, '?') {
            Some((p, q)) => (p, Some(q)),
            None => (requested_route, None),
        };
        assert(path@ == path_part(requested_route@));
        let registered_segments = split_on_char(trim_matches(registered_path, '/'), '/');
        let requested_segments = split_on_char(trim_matches(path, '/'), '/');
        let ghost ps = views(registered_segments@);
        let ghost rs = views(requested_segments@);
        assert(path_segments(registered_path@) == ps);
        assert(path_segments(path_part(requested_route@)) == rs);
        if registered_segments.len() != requested_segments.len() {
            return None;
        }
        let mut path_params = ParamMap::new();
        let mut idx: usize = 0;
        while idx < registered_segments.len()
            invariant
                ps == views(registered_segments@),
                rs == views(requested_segments@),
                ps.len() == rs.len(),
                path_segments(registered_path@) == ps,
                path_segments(path_part(requested_route@)) == rs,
                0 <= idx <= ps.len(),
                path_params@ == pairs_to_map(captures(ps, rs, idx as int)),
                forall|i: int| 0 <= i < idx && !is_capture(#[trigger] ps[i]) ==> ps[i] == rs[i],
            decreases ps.len() - idx,
        {
            let seg = registered_segments[idx].as_str();
            let requested_segment = &requested_segments[idx];
            let n = seg.unicode_len();
            proof {
                assert(seg@ == ps[idx as int]);
                assert(requested_segment@ == rs[idx as int]);
            }
            if n > 0 && seg.get_char(0) == ':' {
                let name = String::from_str(seg.substring_char(1, n));
                let value = requested_segment.clone();
                path_params.insert(name, value);
                proof {
                    let c = captures(ps, rs, idx + 1);
                    assert(c.drop_last() =~= captures(ps, rs, idx as int));
                }
            } else {
                if !str_eq(requested_segment.as_str(), seg) {
                    assert(!is_capture(ps[idx as int]) && ps[idx as int] != rs[idx as int]);
                    return None;
                }
                assert(captures(ps, rs, idx + 1) == captures(ps, rs, idx as int));
            }
            idx += 1;
        }
        let mut query_params = ParamMap::new();
        match query {
            Some(q) => {
                let pieces = split_on_char(q, '&');
                let ghost qs = views(pieces@);
                let mut k: usize = 0;
                while k < pieces.len()
                    invariant
                        qs == views(pieces@),
                        0 <= k <= qs.len(),
                        query_params@ == pairs_to_map(query_pairs(qs, k as int)),
                    decreases qs.len() - k,
                {
                    let piece = pieces[k].as_str();
                    assert(piece@ == qs[k as int]);
                    match split_once_char(piece, '=') {
                        Some((key, value)) => {
                            query_params.insert(String::from_str(key), String::from_str(value));
                            proof {
                                let c = query_pairs(qs, k + 1);
                                assert(c.drop_last() =~= query_pairs(qs, k as int));
                            }
                        },
                        None => {},
                    }
                    k += 1;
                }
            },
            None => {},
        }
        Some(RequestParameters { path_parameters: path_params, query_parameters: query_params })
    }
}

} // verus!
