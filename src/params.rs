use vstd::prelude::*;

use crate::text::str_eq;

verus! {

/// A key and its value.
pub type Pair = (Seq<char>, Seq<char>);

/// The map built by inserting the pairs in order: a later pair overwrites
/// an earlier one with the same key.
pub open spec fn pairs_to_map(ps: Seq<Pair>) -> Map<Seq<char>, Seq<char>>
    decreases ps.len(),
{
    if ps.len() == 0 {
        Map::empty()
    } else {
        pairs_to_map(ps.drop_last()).insert(ps.last().0, ps.last().1)
    }
}

/// The views of a sequence of string pairs.
pub open spec fn pair_views(v: Seq<(String, String)>) -> Seq<Pair> {
    v.map_values(|p: (String, String)| (p.0@, p.1@))
}

/// A key is in the map exactly when some pair holds it, and its value is
/// that of the last such pair.
pub proof fn lemma_pairs_to_map_lookup(ps: Seq<Pair>, k: Seq<char>, i: int)
    requires
        0 <= i < ps.len(),
        ps[i].0 == k,
        forall|j: int| i < j < ps.len() ==> ps[j].0 != k,
    ensures
        pairs_to_map(ps).contains_key(k),
        pairs_to_map(ps)[k] == ps[i].1,
    decreases ps.len(),
{
    if i < ps.len() - 1 {
        lemma_pairs_to_map_lookup(ps.drop_last(), k, i);
    }
}

pub proof fn lemma_pairs_to_map_absent(ps: Seq<Pair>, k: Seq<char>)
    requires
        forall|j: int| 0 <= j < ps.len() ==> ps[j].0 != k,
    ensures
        !pairs_to_map(ps).contains_key(k),
    decreases ps.len(),
{
    if ps.len() > 0 {
        lemma_pairs_to_map_absent(ps.drop_last(), k);
    }
}

pub proof fn lemma_pairs_to_map_empty(ps: Seq<Pair>)
    ensures
        (pairs_to_map(ps) == Map::<Seq<char>, Seq<char>>::empty()) == (ps.len() == 0),
{
    if ps.len() > 0 {
        assert(pairs_to_map(ps).contains_key(ps.last().0));
    }
}

/// A string-to-string map. Insertion overwrites the value of an existing
/// key.
pub struct ParamMap {
    pairs: Vec<(String, String)>,
}

impl View for ParamMap {
    type V = Map<Seq<char>, Seq<char>>;

    closed spec fn view(&self) -> Map<Seq<char>, Seq<char>> {
        pairs_to_map(pair_views(self.pairs@))
    }
}

impl ParamMap {
    pub fn new() -> (r: ParamMap)
        ensures
            r@ == Map::<Seq<char>, Seq<char>>::empty(),
    {
        let r = ParamMap { pairs: Vec::new() };
        assert(pair_views(r.pairs@).len() == 0);
        r
    }

    pub fn insert(&mut self, key: String, value: String)
        ensures
            final(self)@ == old(self)@.insert(key@, value@),
    {
        let ghost before = pair_views(self.pairs@);
        self.pairs.push((key, value));
        assert(pair_views(self.pairs@).drop_last() =~= before);
    }

    /// The value stored under `key`.
    pub fn get(&self, key: &str) -> (r: Option<&String>)
        ensures
            match r {
                Some(v) => self@.contains_key(key@) && self@[key@] == v@,
                None => !self@.contains_key(key@),
            },
    {
        let ghost ps = pair_views(self.pairs@);
        let mut i: usize = self.pairs.len();
        while i > 0
            invariant
                i <= self.pairs@.len(),
                ps == pair_views(self.pairs@),
                forall|j: int| i <= j < ps.len() ==> ps[j].0 != key@,
            decreases i,
        {
            let p = &self.pairs[i - 1];
            if str_eq(p.0.as_str(), key) {
                proof {
                    lemma_pairs_to_map_lookup(ps, key@, i - 1);
                }
                return Some(&p.1);
            }
            i -= 1;
        }
        proof {
            lemma_pairs_to_map_absent(ps, key@);
        }
        None
    }

    pub fn is_empty(&self) -> (r: bool)
        ensures
            r == (self@ == Map::<Seq<char>, Seq<char>>::empty()),
    {
        proof {
            lemma_pairs_to_map_empty(pair_views(self.pairs@));
        }
        self.pairs.len() == 0
    }

    /// The distinct keys, each once, in the order of their first insertion.
    pub fn keys(&self) -> (r: Vec<String>)
        ensures
            forall|k: Seq<char>| self@.contains_key(k) <==> #[trigger] listed(r@, k),
            forall|i: int, j: int| 0 <= i < j < r@.len() ==> r@[i]@ != r@[j]@,
    {
        let ghost ps = pair_views(self.pairs@);
        let mut out: Vec<String> = Vec::new();
        let mut i: usize = 0;
        while i < self.pairs.len()
            invariant
                i <= self.pairs@.len(),
                ps == pair_views(self.pairs@),
                forall|k: Seq<char>| key_among(ps, k, i as int) <==> #[trigger] listed(out@, k),
                forall|a: int, b: int| 0 <= a < b < out@.len() ==> out@[a]@ != out@[b]@,
            decreases self.pairs@.len() - i,
        {
            let k = &self.pairs[i].0;
            let mut seen = false;
            let mut j: usize = 0;
            while j < out.len()
                invariant
                    j <= out@.len(),
                    seen == exists|b: int| 0 <= b < j && out@[b]@ == k@,
                decreases out@.len() - j,
            {
                if str_eq(out[j].as_str(), k.as_str()) {
                    seen = true;
                }
                j += 1;
            }
            let ghost before = out@;
            if !seen {
                out.push(k.clone());
            }
            proof {
                assert(ps[i as int].0 == k@);
                assert forall|kk: Seq<char>| key_among(ps, kk, i + 1) <==> #[trigger] listed(out@, kk) by {
                    if key_among(ps, kk, i + 1) {
                        let j = choose|j: int| 0 <= j < i + 1 && ps[j].0 == kk;
                        if j < i {
                            assert(key_among(ps, kk, i as int));
                            assert(listed(before, kk));
                            let b = choose|b: int| 0 <= b < before.len() && before[b]@ == kk;
                            assert(out@[b]@ == kk);
                        } else if !seen {
                            assert(out@[out@.len() - 1]@ == kk);
                        } else {
                            assert(key_among(ps, kk, i as int) || listed(before, k@));
                            let b = choose|b: int| 0 <= b < before.len() && before[b]@ == k@;
                            assert(out@[b]@ == kk);
                        }
                    }
                    if listed(out@, kk) {
                        let b = choose|b: int| 0 <= b < out@.len() && out@[b]@ == kk;
                        if b < before.len() {
                            assert(listed(before, kk));
                            assert(key_among(ps, kk, i as int));
                            let j = choose|j: int| 0 <= j < i && ps[j].0 == kk;
                            assert(0 <= j < i + 1 && ps[j].0 == kk);
                        } else {
                            assert(ps[i as int].0 == kk);
                        }
                    }
                }
            }
            i += 1;
        }
        proof {
            assert forall|k: Seq<char>| self@.contains_key(k) <==> #[trigger] listed(out@, k) by {
                if key_among(ps, k, ps.len() as int) {
                    let j = choose|j: int| 0 <= j < ps.len() && ps[j].0 == k;
                    lemma_last_with_key(ps, k, j);
                } else {
                    lemma_pairs_to_map_absent(ps, k);
                }
            }
        }
        out
    }
}

/// Some pair among the first `n` holds key `k`.
pub open spec fn key_among(ps: Seq<Pair>, k: Seq<char>, n: int) -> bool {
    exists|j: int| 0 <= j < n && ps[j].0 == k
}

/// Some string of `v` reads `k`.
pub open spec fn listed(v: Seq<String>, k: Seq<char>) -> bool {
    exists|j: int| 0 <= j < v.len() && v[j]@ == k
}

proof fn lemma_last_with_key(ps: Seq<Pair>, k: Seq<char>, j: int)
    requires
        0 <= j < ps.len(),
        ps[j].0 == k,
    ensures
        pairs_to_map(ps).contains_key(k),
    decreases ps.len() - j,
{
    if exists|m: int| j < m < ps.len() && ps[m].0 == k {
        let m = choose|m: int| j < m < ps.len() && ps[m].0 == k;
        lemma_last_with_key(ps, k, m);
    } else {
        lemma_pairs_to_map_lookup(ps, k, j);
    }
}

/// The parameters bound by matching a request path: captured path segments
/// and the pairs of the query string.
pub struct RequestParameters {
    pub path_parameters: ParamMap,
    pub query_parameters: ParamMap,
}

} // verus!
