//! Pending-request tokens. A token is a request id, or a composite of the
//! id and the keys a later response handler needs, joined by `:`. A handler
//! that sees a response finds the token that begins with the response's id
//! and reads the keys back.
use vstd::prelude::*;

use crate::text::{
    has_prefix, lemma_split_on_nonempty, split_on, split_on_char, starts_with, views,
};

verus! {

/// The parts joined by `:`.
pub open spec fn joined(parts: Seq<Seq<char>>) -> Seq<char>
    decreases parts.len(),
{
    if parts.len() == 0 {
        Seq::empty()
    } else if parts.len() == 1 {
        parts[0]
    } else {
        joined(parts.drop_last()) + seq![':'] + parts.last()
    }
}

/// `s` holds no `c`.
pub open spec fn free_of(s: Seq<char>, c: char) -> bool {
    forall|i: int| 0 <= i < s.len() ==> s[i] != c
}

proof fn lemma_split_on_append_sep(s: Seq<char>, c: char)
    ensures
        split_on(s + seq![c], c) == split_on(s, c).push(Seq::empty()),
{
    assert((s + seq![c]).drop_last() =~= s);
}

proof fn lemma_split_on_append_free(s: Seq<char>, t: Seq<char>, c: char)
    requires
        free_of(t, c),
    ensures
        split_on(s + t, c) == split_on(s, c).update(
            split_on(s, c).len() - 1,
            split_on(s, c).last() + t,
        ),
    decreases t.len(),
{
    lemma_split_on_nonempty(s, c);
    let pre = split_on(s, c);
    if t.len() == 0 {
        assert(s + t =~= s);
        assert(pre.last() + t =~= pre.last());
        assert(pre.update(pre.len() - 1, pre.last()) =~= pre);
    } else {
        let t0 = t.drop_last();
        lemma_split_on_append_free(s, t0, c);
        assert((s + t).drop_last() =~= s + t0);
        assert((s + t).last() == t.last());
        let mid = split_on(s + t0, c);
        lemma_split_on_nonempty(s + t0, c);
        assert(t[t.len() - 1] != c);
        assert(split_on(s + t, c) == mid.update(mid.len() - 1, mid.last().push(t.last())));
        assert(mid.len() == pre.len());
        assert(mid.last() == pre.last() + t0);
        assert((pre.last() + t0).push(t.last()) =~= pre.last() + t);
        assert(mid.update(mid.len() - 1, mid.last().push(t.last())) =~= pre.update(
            pre.len() - 1,
            pre.last() + t,
        ));
    }
}

/// A composite token reads back as the parts it was joined from, provided
/// no part holds a `:`.
pub proof fn lemma_join_split(parts: Seq<Seq<char>>)
    requires
        parts.len() >= 1,
        forall|i: int| 0 <= i < parts.len() ==> free_of(#[trigger] parts[i], ':'),
    ensures
        split_on(joined(parts), ':') == parts,
    decreases parts.len(),
{
    if parts.len() == 1 {
        lemma_split_on_append_free(Seq::empty(), parts[0], ':');
        assert(Seq::<char>::empty() + parts[0] =~= parts[0]);
        assert(seq![Seq::<char>::empty()].update(0, Seq::<char>::empty() + parts[0]) =~= parts);
    } else {
        let init = parts.drop_last();
        assert forall|i: int| 0 <= i < init.len() implies free_of(#[trigger] init[i], ':') by {
            assert(init[i] == parts[i]);
        }
        lemma_join_split(init);
        let s = joined(init) + seq![':'];
        lemma_split_on_append_sep(joined(init), ':');
        assert(free_of(parts[parts.len() - 1], ':'));
        lemma_split_on_append_free(s, parts.last(), ':');
        assert(init.push(Seq::empty()).update(init.len() as int, Seq::<char>::empty() + parts.last())
            =~= parts);
    }
}

/// Joins the parts of a composite token with `:`.
pub fn join_token(parts: &Vec<String>) -> (r: String)
    ensures
        r@ == joined(views(parts@)),
{
    let mut s = String::new();
    let mut i: usize = 0;
    proof {
        reveal_strlit(":");
    }
    while i < parts.len()
        invariant
            i <= parts@.len(),
            s@ == joined(views(parts@).subrange(0, i as int)),
        decreases parts@.len() - i,
    {
        let ghost before = s@;
        if i > 0 {
            s.append(":");
        }
        s.append(parts[i].as_str());
        proof {
            reveal_strlit(":");
            assert(":"@ =~= seq![':']);
            let ps = views(parts@).subrange(0, i + 1);
            assert(ps.drop_last() =~= views(parts@).subrange(0, i as int));
            if i == 0 {
                assert(before =~= Seq::<char>::empty());
                assert(s@ =~= ps[0]);
            }
        }
        i += 1;
    }
    assert(views(parts@).subrange(0, parts@.len() as int) =~= views(parts@));
    s
}

/// The position of the first entry that begins with `msg_id`.
pub fn find_pending(entries: &Vec<String>, msg_id: &str) -> (r: Option<usize>)
    ensures
        match r {
            Some(i) => i < entries@.len() && has_prefix(entries@[i as int]@, msg_id@) && forall|
                j: int,
            | 0 <= j < i ==> !has_prefix(#[trigger] entries@[j]@, msg_id@),
            None => forall|j: int|
                0 <= j < entries@.len() ==> !has_prefix(#[trigger] entries@[j]@, msg_id@),
        },
{
    let mut i: usize = 0;
    while i < entries.len()
        invariant
            i <= entries@.len(),
            forall|j: int| 0 <= j < i ==> !has_prefix(#[trigger] entries@[j]@, msg_id@),
        decreases entries@.len() - i,
    {
        if starts_with(entries[i].as_str(), msg_id) {
            return Some(i);
        }
        i += 1;
    }
    None
}

/// The `count` keys that follow the id in a composite token, or `None`
/// when the token has no more than `count` parts.
pub fn token_keys(token: &str, count: usize) -> (r: Option<Vec<String>>)
    requires
        count < usize::MAX,
    ensures
        match r {
            Some(keys) => split_on(token@, ':').len() > count && views(keys@) == split_on(
                token@,
                ':',
            ).subrange(1, count + 1),
            None => split_on(token@, ':').len() <= count,
        },
{
    let parts = split_on_char(token, ':');
    if parts.len() <= count {
        return None;
    }
    let mut keys: Vec<String> = Vec::new();
    let mut i: usize = 1;
    while i <= count
        invariant
            1 <= i <= count + 1,
            count < usize::MAX,
            count < parts@.len(),
            views(parts@) == split_on(token@, ':'),
            views(keys@) == views(parts@).subrange(1, i as int),
        decreases count + 1 - i,
    {
        let ghost before = views(keys@);
        keys.push(parts[i].clone());
        assert(views(keys@) =~= before.push(parts@[i as int]@));
        assert(views(keys@) =~= views(parts@).subrange(1, i + 1));
        i += 1;
    }
    Some(keys)
}

} // verus!
