//! User notification preferences, as the user service reports them.
use vstd::prelude::*;

use crate::text::str_eq;

verus! {

/// A calendar date.
#[derive(Debug, Clone, Copy, PartialEq, Eq, Structural)]
pub struct Date {
    pub year: i32,
    pub month: u32,
    pub day: u32,
}

/// A bookable slot of a day.
#[derive(Debug)]
pub struct TimeSlot {
    pub id: String,
    pub start_time: String,
}

/// When a user wants to hear of free appointments.
#[derive(Debug)]
pub struct UserPreference {
    pub id: String,
    pub user_id: String,
    pub start_date: Date,
    pub end_date: Date,
    pub is_active: bool,
    pub days_of_week: Vec<String>,
    pub time_slots: Vec<TimeSlot>,
}

/// The preferences of user `u`, in their order in `ps`.
pub open spec fn prefs_of(ps: Seq<UserPreference>, u: Seq<char>) -> Seq<UserPreference>
    decreases ps.len(),
{
    if ps.len() == 0 {
        Seq::empty()
    } else {
        let pre = prefs_of(ps.drop_last(), u);
        if ps.last().user_id@ == u {
            pre.push(ps.last())
        } else {
            pre
        }
    }
}

/// Some preference in `ps` belongs to user `u`.
pub open spec fn has_user(ps: Seq<UserPreference>, u: Seq<char>) -> bool {
    exists|k: int| 0 <= k < ps.len() && ps[k].user_id@ == u
}

/// Some group is keyed by user `u`.
pub open spec fn has_group(gs: Seq<(String, Vec<UserPreference>)>, u: Seq<char>) -> bool {
    exists|i: int| 0 <= i < gs.len() && gs[i].0@ == u
}

/// The groups of `gs` partition `ps` by user: one group per user, each
/// holding that user's preferences in their order in `ps`.
pub open spec fn grouped_by_user(
    gs: Seq<(String, Vec<UserPreference>)>,
    ps: Seq<UserPreference>,
) -> bool {
    &&& forall|i: int, j: int| 0 <= i < j < gs.len() ==> gs[i].0@ != gs[j].0@
    &&& forall|i: int| 0 <= i < gs.len() ==> (#[trigger] gs[i]).1@ == prefs_of(ps, gs[i].0@)
    &&& forall|u: Seq<char>| has_user(ps, u) <==> #[trigger] has_group(gs, u)
}

/// Groups preferences by the user they belong to, users in the order of
/// their first preference.
pub fn aggregate_user_preferences_by_user_id(user_preferences: Vec<UserPreference>) -> (r: Vec<
    (String, Vec<UserPreference>),
>)
    ensures
        grouped_by_user(r@, user_preferences@),
{
    let ghost all = user_preferences@;
    let mut rest = user_preferences;
    let mut groups: Vec<(String, Vec<UserPreference>)> = Vec::new();
    let mut k: usize = 0;
    let n = rest.len();
    assert(all.subrange(0, 0) =~= Seq::<UserPreference>::empty());
    assert(all.subrange(0, n as int) =~= all);
    while rest.len() > 0
        invariant
            n == all.len(),
            k + rest@.len() == n,
            rest@ == all.subrange(k as int, n as int),
            grouped_by_user(groups@, all.subrange(0, k as int)),
        decreases rest@.len(),
    {
        let p = rest.remove(0);
        let ghost done = all.subrange(0, k as int);
        let ghost next = all.subrange(0, k + 1);
        assert(next.drop_last() =~= done);
        assert(next.last() == p);
        let found = find_group(&groups, p.user_id.as_str());
        let g: usize = match found {
            Some(i) => i,
            None => groups.len(),
        };
        let ghost before = groups@;
        if g < groups.len() {
            assert(groups@[g as int].0@ == p.user_id@);
            let (key, mut grp) = groups.remove(g);
            grp.push(p);
            groups.insert(g, (key, grp));
            proof {
                assert(groups@ =~= before.update(g as int, groups@[g as int]));
                assert(groups@[g as int].0@ == p.user_id@);
                assert forall|u: Seq<char>| has_user(next, u) <==> #[trigger] has_group(groups@, u) by {
                    if has_user(next, u) {
                        let m = choose|m: int| 0 <= m < next.len() && next[m].user_id@ == u;
                        if m < k {
                            assert(has_user(done, u));
                            assert(has_group(before, u));
                            let i = choose|i: int| 0 <= i < before.len() && before[i].0@ == u;
                            assert(groups@[i].0@ == u);
                        } else {
                            assert(groups@[g as int].0@ == u);
                        }
                    }
                    if has_group(groups@, u) {
                        let i = choose|i: int| 0 <= i < groups@.len() && groups@[i].0@ == u;
                        assert(before[i].0@ == u);
                        assert(has_group(before, u));
                        assert(has_user(done, u));
                        let m = choose|m: int| 0 <= m < done.len() && done[m].user_id@ == u;
                        assert(next[m].user_id@ == u);
                    }
                }
            }
        } else {
            let mut grp: Vec<UserPreference> = Vec::new();
            let key = p.user_id.clone();
            grp.push(p);
            groups.push((key, grp));
            proof {
                assert(!has_user(done, p.user_id@)) by {
                    if has_user(done, p.user_id@) {
                        assert(has_group(before, p.user_id@));
                        let i = choose|i: int| 0 <= i < before.len() && before[i].0@ == p.user_id@;
                    }
                }
                lemma_prefs_of_absent(done, p.user_id@);
                assert(groups@.last().1@ =~= prefs_of(next, p.user_id@));
                assert forall|u: Seq<char>| has_user(next, u) <==> #[trigger] has_group(groups@, u) by {
                    if has_user(next, u) {
                        let m = choose|m: int| 0 <= m < next.len() && next[m].user_id@ == u;
                        if m < k {
                            assert(has_user(done, u));
                            assert(has_group(before, u));
                            let i = choose|i: int| 0 <= i < before.len() && before[i].0@ == u;
                            assert(groups@[i].0@ == u);
                        } else {
                            assert(groups@[groups@.len() - 1].0@ == u);
                        }
                    }
                    if has_group(groups@, u) {
                        let i = choose|i: int| 0 <= i < groups@.len() && groups@[i].0@ == u;
                        if i < before.len() {
                            assert(before[i].0@ == u);
                            assert(has_group(before, u));
                            assert(has_user(done, u));
                            let m = choose|m: int| 0 <= m < done.len() && done[m].user_id@ == u;
                            assert(next[m].user_id@ == u);
                        } else {
                            assert(next[k as int].user_id@ == u);
                        }
                    }
                }
            }
        }
        proof {
            assert forall|i: int| 0 <= i < groups@.len() implies (#[trigger] groups@[i]).1@
                == prefs_of(next, groups@[i].0@) by {
                if i != g {
                    assert(i < before.len());
                    assert(groups@[i] == before[i]);
                    assert(before[i].0@ != p.user_id@);
                }
            }
        }
        k += 1;
    }
    groups
}

fn find_group(groups: &Vec<(String, Vec<UserPreference>)>, u: &str) -> (r: Option<usize>)
    ensures
        match r {
            Some(i) => i < groups@.len() && groups@[i as int].0@ == u@,
            None => forall|j: int| 0 <= j < groups@.len() ==> groups@[j].0@ != u@,
        },
{
    let mut g: usize = 0;
    while g < groups.len()
        invariant
            g <= groups@.len(),
            forall|j: int| 0 <= j < g ==> groups@[j].0@ != u@,
        decreases groups@.len() - g,
    {
        if str_eq(groups[g].0.as_str(), u) {
            return Some(g);
        }
        g += 1;
    }
    None
}

proof fn lemma_prefs_of_absent(ps: Seq<UserPreference>, u: Seq<char>)
    requires
        !has_user(ps, u),
    ensures
        prefs_of(ps, u) == Seq::<UserPreference>::empty(),
    decreases ps.len(),
{
    if ps.len() > 0 {
        assert(!has_user(ps.drop_last(), u)) by {
            if has_user(ps.drop_last(), u) {
                let m = choose|m: int| 0 <= m < ps.len() - 1 && ps.drop_last()[m].user_id@ == u;
                assert(ps[m].user_id@ == u);
            }
        }
        assert(ps.last().user_id@ != u) by {
            if ps.last().user_id@ == u {
                assert(ps[ps.len() - 1].user_id@ == u);
            }
        }
        lemma_prefs_of_absent(ps.drop_last(), u);
    }
}

/// The preferences whose id is not `id`, in their order.
pub open spec fn without_preference(ps: Seq<UserPreference>, id: Seq<char>) -> Seq<UserPreference> {
    ps.filter(|p: UserPreference| p.id@ != id)
}

/// Drops the preferences with id `id`.
pub fn preferences_without_id(user_preferences: Vec<UserPreference>, id: &str) -> (r: Vec<
    UserPreference,
>)
    ensures
        r@ == without_preference(user_preferences@, id@),
{
    let ghost all = user_preferences@;
    let ghost pred = |p: UserPreference| p.id@ != id@;
    let mut rest = user_preferences;
    let mut out: Vec<UserPreference> = Vec::new();
    let n = rest.len();
    let mut k: usize = 0;
    assert(all.subrange(0, 0) =~= Seq::<UserPreference>::empty());
    while rest.len() > 0
        invariant
            n == all.len(),
            k + rest@.len() == n,
            rest@ == all.subrange(k as int, n as int),
            pred == (|p: UserPreference| p.id@ != id@),
            out@ == all.subrange(0, k as int).filter(pred),
        decreases rest@.len(),
    {
        let p = rest.remove(0);
        assert(p == all[k as int]);
        let keep = !str_eq(p.id.as_str(), id);
        proof {
            let s = all.subrange(0, k + 1);
            assert(s.drop_last() =~= all.subrange(0, k as int));
            reveal(Seq::filter);
        }
        if keep {
            out.push(p);
        }
        k += 1;
    }
    assert(all.subrange(0, n as int) =~= all);
    out
}

} // verus!
