//! Which users hear of which free appointments, and the notification texts
//! they get.
use vstd::prelude::*;

use crate::text::{str_eq, views};
use crate::user::{Date, UserPreference};

verus! {

/// A free appointment slot announced by the appointment service.
#[derive(Debug)]
pub struct DentistAppointment {
    pub id: String,
    pub created_at: String,
    pub updated_at: String,
    pub dentist_id: String,
    pub clinic_id: String,
    pub date: Date,
    pub start_time: String,
    pub end_time: String,
    pub status: String,
}

impl Clone for DentistAppointment {
    fn clone(&self) -> (r: Self)
        ensures
            r == *self,
    {
        DentistAppointment {
            id: self.id.clone(),
            created_at: self.created_at.clone(),
            updated_at: self.updated_at.clone(),
            dentist_id: self.dentist_id.clone(),
            clinic_id: self.clinic_id.clone(),
            date: self.date,
            start_time: self.start_time.clone(),
            end_time: self.end_time.clone(),
            status: self.status.clone(),
        }
    }
}

/// `y` is a leap year of the proleptic Gregorian calendar.
pub open spec fn is_leap_year(y: int) -> bool {
    y % 4 == 0 && (y % 100 != 0 || y % 400 == 0)
}

pub open spec fn days_in_month(y: int, m: int) -> int {
    if m == 2 {
        if is_leap_year(y) {
            29
        } else {
            28
        }
    } else if m == 4 || m == 6 || m == 9 || m == 11 {
        30
    } else {
        31
    }
}

/// The date exists in the calendar and in chrono's year range.
pub open spec fn date_exists(d: Date) -> bool {
    &&& -262143 <= d.year <= 262142
    &&& 1 <= d.month <= 12
    &&& 1 <= d.day <= days_in_month(d.year as int, d.month as int)
}

/// The number of days from 1970-01-01 to a date of the proleptic
/// Gregorian calendar (negative before it).
pub open spec fn days_from_civil(year: int, month: int, day: int) -> int {
    let y = if month <= 2 {
        year - 1
    } else {
        year
    };
    let era = y / 400;
    let yoe = y - era * 400;
    let mp = if month > 2 {
        month - 3
    } else {
        month + 9
    };
    let doy = (153 * mp + 2) / 5 + day - 1;
    let doe = yoe * 365 + yoe / 4 - yoe / 100 + doy;
    era * 146097 + doe - 719468
}

/// The day of the week of a date, counted from Monday as 0 (1970-01-01
/// was a Thursday).
pub open spec fn weekday_index_of(year: int, month: int, day: int) -> u32 {
    ((days_from_civil(year, month, day) + 3) % 7) as u32
}

/// The decimal digits of `n`, most significant first.
pub open spec fn decimal_digits(n: nat) -> Seq<char>
    decreases n,
{
    if n < 10 {
        seq![((n + 48) as u8) as char]
    } else {
        decimal_digits(n / 10).push(((n % 10 + 48) as u8) as char)
    }
}

/// The decimal digits of `n`, with leading zeros up to `width`.
pub open spec fn zero_padded(n: nat, width: nat) -> Seq<char> {
    let d = decimal_digits(n);
    if d.len() >= width {
        d
    } else {
        Seq::new((width - d.len()) as nat, |i: int| '0') + d
    }
}

/// The year as chrono writes it: four digits within 0 to 9999, otherwise
/// a sign and at least four digits.
pub open spec fn year_text(year: int) -> Seq<char> {
    if 0 <= year <= 9999 {
        zero_padded(year as nat, 4)
    } else if year < 0 {
        seq!['-'] + zero_padded((-year) as nat, 4)
    } else {
        seq!['+'] + zero_padded(year as nat, 4)
    }
}

/// The `%Y-%m-%d` text of a date.
pub open spec fn date_text_of(year: int, month: int, day: int) -> Seq<char> {
    year_text(year) + seq!['-'] + zero_padded(month as nat, 2) + seq!['-'] + zero_padded(
        day as nat,
        2,
    )
}

/// Relies on chrono::NaiveDate::from_ymd_opt, which accepts exactly the
/// existing dates of its year range, and on `Datelike::weekday` with
/// `Weekday::num_days_from_monday`, which counts Monday as 0.
#[verifier::external_body]
fn weekday_index(d: Date) -> (r: Option<u32>)
    ensures
        r is Some <==> date_exists(d),
        r matches Some(n) ==> n < 7 && n == weekday_index_of(
            d.year as int,
            d.month as int,
            d.day as int,
        ),
{
    match chrono::NaiveDate::from_ymd_opt(d.year, d.month, d.day) {
        Some(x) => Some(chrono::Datelike::weekday(&x).num_days_from_monday()),
        None => None,
    }
}

/// Relies on chrono::NaiveDate::from_ymd_opt and the `Display` of
/// `NaiveDate`, which writes `%Y-%m-%d` with a signed year outside 0 to
/// 9999 (naive/date/mod.rs, `impl fmt::Debug for NaiveDate`).
#[verifier::external_body]
fn date_text(d: Date) -> (r: Option<String>)
    ensures
        r is Some <==> date_exists(d),
        r matches Some(s) ==> s@ == date_text_of(d.year as int, d.month as int, d.day as int),
{
    match chrono::NaiveDate::from_ymd_opt(d.year, d.month, d.day) {
        Some(x) => Some(x.to_string()),
        None => None,
    }
}

/// The lower-case English name of a weekday counted from Monday.
pub open spec fn weekday_name(n: u32) -> Seq<char> {
    if n == 0 {
        "monday"@
    } else if n == 1 {
        "tuesday"@
    } else if n == 2 {
        "wednesday"@
    } else if n == 3 {
        "thursday"@
    } else if n == 4 {
        "friday"@
    } else if n == 5 {
        "saturday"@
    } else {
        "sunday"@
    }
}

fn weekday_name_str(n: u32) -> (r: &'static str)
    ensures
        r@ == weekday_name(n),
{
    if n == 0 {
        "monday"
    } else if n == 1 {
        "tuesday"
    } else if n == 2 {
        "wednesday"
    } else if n == 3 {
        "thursday"
    } else if n == 4 {
        "friday"
    } else if n == 5 {
        "saturday"
    } else {
        "sunday"
    }
}

/// `a` comes no later than `b`.
pub open spec fn date_le(a: Date, b: Date) -> bool {
    a.year < b.year || (a.year == b.year && (a.month < b.month || (a.month == b.month && a.day
        <= b.day)))
}

/// The appointment falls within the preference's dates, on one of its
/// weekdays, and starts at one of its time slots.
pub open spec fn preference_matches(a: DentistAppointment, p: UserPreference) -> bool {
    &&& date_le(p.start_date, a.date) && date_le(a.date, p.end_date)
    &&& date_exists(a.date)
    &&& views(p.days_of_week@).contains(
        weekday_name(weekday_index_of(a.date.year as int, a.date.month as int, a.date.day as int)),
    )
    &&& exists|i: int| 0 <= i < p.time_slots@.len() && #[trigger] p.time_slots@[i].start_time@ == a.start_time@
}

fn date_le_exec(a: Date, b: Date) -> (r: bool)
    ensures
        r == date_le(a, b),
{
    a.year < b.year || (a.year == b.year && (a.month < b.month || (a.month == b.month && a.day
        <= b.day)))
}

fn contains_str(v: &Vec<String>, s: &str) -> (r: bool)
    ensures
        r == views(v@).contains(s@),
{
    let mut i: usize = 0;
    while i < v.len()
        invariant
            i <= v@.len(),
            forall|j: int| 0 <= j < i ==> v@[j]@ != s@,
        decreases v@.len() - i,
    {
        if str_eq(v[i].as_str(), s) {
            assert(views(v@)[i as int] == s@);
            return true;
        }
        i += 1;
    }
    assert(!views(v@).contains(s@)) by {
        if views(v@).contains(s@) {
            let j = choose|j: int| 0 <= j < views(v@).len() && views(v@)[j] == s@;
            assert(v@[j]@ == s@);
        }
    }
    false
}

/// Whether the preference asks to hear of the appointment.
pub fn matches_preference(a: &DentistAppointment, p: &UserPreference) -> (r: bool)
    ensures
        r == preference_matches(*a, *p),
{
    if !(date_le_exec(p.start_date, a.date) && date_le_exec(a.date, p.end_date)) {
        return false;
    }
    let day = match weekday_index(a.date) {
        Some(n) => n,
        None => {
            return false;
        },
    };
    if !contains_str(&p.days_of_week, weekday_name_str(day)) {
        return false;
    }
    let mut i: usize = 0;
    while i < p.time_slots.len()
        invariant
            i <= p.time_slots@.len(),
            date_le(p.start_date, a.date) && date_le(a.date, p.end_date),
            date_exists(a.date),
            views(p.days_of_week@).contains(
                weekday_name(weekday_index_of(a.date.year as int, a.date.month as int, a.date.day as int)),
            ),
            forall|j: int| 0 <= j < i ==> #[trigger] p.time_slots@[j].start_time@ != a.start_time@,
        decreases p.time_slots@.len() - i,
    {
        if str_eq(p.time_slots[i].start_time.as_str(), a.start_time.as_str()) {
            assert(p.time_slots@[i as int].start_time@ == a.start_time@);
            return true;
        }
        i += 1;
    }
    false
}

/// `gs` with `v` added to the group of key `k`: the first group keyed `k`
/// grows by `v` at its end, or a new group `[v]` goes at the end.
pub open spec fn add_grouped<K, V>(gs: Seq<(K, Seq<V>)>, k: K, v: V) -> Seq<(K, Seq<V>)>
    decreases gs.len(),
{
    if gs.len() == 0 {
        seq![(k, seq![v])]
    } else if gs[0].0 == k {
        gs.update(0, (k, gs[0].1.push(v)))
    } else {
        seq![gs[0]] + add_grouped(gs.drop_first(), k, v)
    }
}

/// The values of `kvs` grouped by key: keys in the order of their first
/// pair, each group's values in their order in `kvs`.
pub open spec fn group_all<K, V>(kvs: Seq<(K, V)>) -> Seq<(K, Seq<V>)>
    decreases kvs.len(),
{
    if kvs.len() == 0 {
        Seq::empty()
    } else {
        add_grouped(group_all(kvs.drop_last()), kvs.last().0, kvs.last().1)
    }
}

proof fn lemma_add_grouped_at<K, V>(gs: Seq<(K, Seq<V>)>, k: K, v: V, i: int)
    requires
        0 <= i < gs.len(),
        gs[i].0 == k,
        forall|j: int| 0 <= j < i ==> gs[j].0 != k,
    ensures
        add_grouped(gs, k, v) == gs.update(i, (k, gs[i].1.push(v))),
    decreases gs.len(),
{
    if i > 0 {
        lemma_add_grouped_at(gs.drop_first(), k, v, i - 1);
        assert(seq![gs[0]] + gs.drop_first().update(i - 1, (k, gs[i].1.push(v))) =~= gs.update(
            i,
            (k, gs[i].1.push(v)),
        ));
    }
}

proof fn lemma_add_grouped_new<K, V>(gs: Seq<(K, Seq<V>)>, k: K, v: V)
    requires
        forall|j: int| 0 <= j < gs.len() ==> gs[j].0 != k,
    ensures
        add_grouped(gs, k, v) == gs.push((k, seq![v])),
    decreases gs.len(),
{
    if gs.len() > 0 {
        lemma_add_grouped_new(gs.drop_first(), k, v);
        assert(seq![gs[0]] + gs.drop_first().push((k, seq![v])) =~= gs.push((k, seq![v])));
    } else {
        assert(seq![(k, seq![v])] =~= gs.push((k, seq![v])));
    }
}

proof fn lemma_group_all_push<K, V>(kvs: Seq<(K, V)>, k: K, v: V)
    ensures
        group_all(kvs.push((k, v))) == add_grouped(group_all(kvs), k, v),
{
    assert(kvs.push((k, v)).drop_last() =~= kvs);
}

/// The groups of users with their appointments, as values.
pub open spec fn user_groups_view(gs: Seq<(String, Vec<DentistAppointment>)>) -> Seq<
    (Seq<char>, Seq<DentistAppointment>),
> {
    gs.map_values(|g: (String, Vec<DentistAppointment>)| (g.0@, g.1@))
}

/// The groups of dates with their start times, as values.
pub open spec fn date_groups_view(gs: Seq<(Date, Vec<String>)>) -> Seq<(Date, Seq<Seq<char>>)> {
    gs.map_values(|g: (Date, Vec<String>)| (g.0, views(g.1@)))
}

fn add_to_user_group(
    groups: &mut Vec<(String, Vec<DentistAppointment>)>,
    user: &String,
    a: DentistAppointment,
)
    ensures
        user_groups_view(final(groups)@) == add_grouped(user_groups_view(old(groups)@), user@, a),
{
    let ghost gs = user_groups_view(groups@);
    let mut i: usize = 0;
    while i < groups.len()
        invariant
            gs == user_groups_view(groups@),
            gs == user_groups_view(old(groups)@),
            i <= groups@.len(),
            forall|j: int| 0 <= j < i ==> gs[j].0 != user@,
        decreases groups@.len() - i,
    {
        if str_eq(groups[i].0.as_str(), user.as_str()) {
            proof {
                lemma_add_grouped_at(gs, user@, a, i as int);
            }
            let (key, mut members) = groups.remove(i);
            members.push(a);
            groups.insert(i, (key, members));
            assert(user_groups_view(groups@) =~= gs.update(i as int, (user@, gs[i as int].1.push(a))));
            return;
        }
        i += 1;
    }
    proof {
        lemma_add_grouped_new(gs, user@, a);
    }
    let mut members: Vec<DentistAppointment> = Vec::new();
    members.push(a);
    groups.push((user.clone(), members));
    assert(user_groups_view(groups@) =~= gs.push((user@, seq![a])));
}

fn add_to_date_group(groups: &mut Vec<(Date, Vec<String>)>, date: Date, t: String)
    ensures
        date_groups_view(final(groups)@) == add_grouped(date_groups_view(old(groups)@), date, t@),
{
    let ghost gs = date_groups_view(groups@);
    let mut i: usize = 0;
    while i < groups.len()
        invariant
            gs == date_groups_view(groups@),
            gs == date_groups_view(old(groups)@),
            i <= groups@.len(),
            forall|j: int| 0 <= j < i ==> gs[j].0 != date,
        decreases groups@.len() - i,
    {
        if groups[i].0 == date {
            proof {
                lemma_add_grouped_at(gs, date, t@, i as int);
            }
            let (key, mut times) = groups.remove(i);
            let ghost before = views(times@);
            let ghost tv = t@;
            times.push(t);
            assert(views(times@) =~= before.push(tv));
            groups.insert(i, (key, times));
            assert(date_groups_view(groups@) =~= gs.update(i as int, (date, gs[i as int].1.push(tv))));
            return;
        }
        i += 1;
    }
    proof {
        lemma_add_grouped_new(gs, date, t@);
    }
    let ghost tv = t@;
    let mut times: Vec<String> = Vec::new();
    times.push(t);
    assert(views(times@) =~= seq![tv]);
    groups.push((date, times));
    assert(date_groups_view(groups@) =~= gs.push((date, seq![tv])));
}

/// The (user, appointment) pairs of one appointment against the first `j`
/// preferences, one pair per matching preference.
pub open spec fn row_hits(a: DentistAppointment, ps: Seq<UserPreference>, j: int) -> Seq<
    (Seq<char>, DentistAppointment),
>
    decreases j,
{
    if j <= 0 {
        Seq::empty()
    } else {
        let pre = row_hits(a, ps, j - 1);
        if preference_matches(a, ps[j - 1]) {
            pre.push((ps[j - 1].user_id@, a))
        } else {
            pre
        }
    }
}

/// The (user, appointment) pairs of the first `i` appointments against all
/// preferences, appointment by appointment.
pub open spec fn all_hits(apps: Seq<DentistAppointment>, ps: Seq<UserPreference>, i: int) -> Seq<
    (Seq<char>, DentistAppointment),
>
    decreases i,
{
    if i <= 0 {
        Seq::empty()
    } else {
        all_hits(apps, ps, i - 1) + row_hits(apps[i - 1], ps, ps.len() as int)
    }
}

/// For each user, the appointments that one of the user's preferences asks
/// for; an appointment is listed once for each such preference.
pub fn aggregate_appointments_for_each_user(
    appointments: &Vec<DentistAppointment>,
    user_preferences: &Vec<UserPreference>,
) -> (r: Vec<(String, Vec<DentistAppointment>)>)
    ensures
        user_groups_view(r@) == group_all(
            all_hits(appointments@, user_preferences@, appointments@.len() as int),
        ),
{
    let ghost apps = appointments@;
    let ghost ps = user_preferences@;
    let mut groups: Vec<(String, Vec<DentistAppointment>)> = Vec::new();
    let mut i: usize = 0;
    assert(user_groups_view(groups@) =~= group_all(all_hits(apps, ps, 0)));
    while i < appointments.len()
        invariant
            apps == appointments@,
            ps == user_preferences@,
            i <= apps.len(),
            user_groups_view(groups@) == group_all(all_hits(apps, ps, i as int)),
        decreases apps.len() - i,
    {
        let a = &appointments[i];
        let mut j: usize = 0;
        assert(all_hits(apps, ps, i as int) + row_hits(*a, ps, 0) =~= all_hits(apps, ps, i as int));
        while j < user_preferences.len()
            invariant
                apps == appointments@,
                ps == user_preferences@,
                i < apps.len(),
                *a == apps[i as int],
                j <= ps.len(),
                user_groups_view(groups@) == group_all(
                    all_hits(apps, ps, i as int) + row_hits(*a, ps, j as int),
                ),
            decreases ps.len() - j,
        {
            let p = &user_preferences[j];
            let ghost prefix = all_hits(apps, ps, i as int) + row_hits(*a, ps, j as int);
            if matches_preference(a, p) {
                add_to_user_group(&mut groups, &p.user_id, a.clone());
                proof {
                    lemma_group_all_push(prefix, p.user_id@, *a);
                    assert(all_hits(apps, ps, i as int) + row_hits(*a, ps, j + 1) =~= prefix.push(
                        (p.user_id@, *a),
                    ));
                }
            } else {
                assert(all_hits(apps, ps, i as int) + row_hits(*a, ps, j + 1) =~= prefix);
            }
            j += 1;
        }
        i += 1;
    }
    groups
}

/// The start times of appointments grouped by date: dates in the order of
/// their first appointment, times in appointment order.
pub open spec fn times_by_date(apps: Seq<DentistAppointment>) -> Seq<(Date, Seq<Seq<char>>)> {
    group_all(apps.map_values(|a: DentistAppointment| (a.date, a.start_time@)))
}

/// Groups the start times of appointments by their date.
pub fn aggregate_user_appointments_by_date(appointments: &Vec<DentistAppointment>) -> (r: Vec<
    (Date, Vec<String>),
>)
    ensures
        date_groups_view(r@) == times_by_date(appointments@),
{
    let ghost kvs = appointments@.map_values(|a: DentistAppointment| (a.date, a.start_time@));
    let mut groups: Vec<(Date, Vec<String>)> = Vec::new();
    let mut i: usize = 0;
    assert(date_groups_view(groups@) =~= group_all(kvs.subrange(0, 0)));
    while i < appointments.len()
        invariant
            kvs == appointments@.map_values(|a: DentistAppointment| (a.date, a.start_time@)),
            i <= appointments@.len(),
            date_groups_view(groups@) == group_all(kvs.subrange(0, i as int)),
        decreases appointments@.len() - i,
    {
        let a = &appointments[i];
        add_to_date_group(&mut groups, a.date, a.start_time.clone());
        proof {
            lemma_group_all_push(kvs.subrange(0, i as int), a.date, a.start_time@);
            assert(kvs.subrange(0, i + 1) =~= kvs.subrange(0, i as int).push((a.date, a.start_time@)));
        }
        i += 1;
    }
    assert(kvs.subrange(0, appointments@.len() as int) =~= kvs);
    groups
}

/// The texts joined with `, ` between them.
pub open spec fn joined_list(ts: Seq<Seq<char>>) -> Seq<char>
    decreases ts.len(),
{
    if ts.len() == 0 {
        Seq::empty()
    } else if ts.len() == 1 {
        ts[0]
    } else {
        joined_list(ts.drop_last()) + ", "@ + ts.last()
    }
}

/// The notification text for free appointments on one date.
pub open spec fn notification_text(date_text: Seq<char>, times: Seq<Seq<char>>) -> Seq<char> {
    "Appointments available on "@ + date_text + " at: "@ + joined_list(times)
}

/// The notification text for the free appointments on `date` at `times`;
/// `None` when the date does not exist.
pub fn notification_message(date: Date, times: &Vec<String>) -> (r: Option<String>)
    ensures
        r is Some <==> date_exists(date),
        r matches Some(s) ==> s@ == notification_text(
            date_text_of(date.year as int, date.month as int, date.day as int),
            views(times@),
        ),
{
    let d = match date_text(date) {
        Some(t) => t,
        None => {
            return None;
        },
    };
    let mut list = String::new();
    let mut i: usize = 0;
    while i < times.len()
        invariant
            i <= times@.len(),
            list@ == joined_list(views(times@).subrange(0, i as int)),
        decreases times@.len() - i,
    {
        let ghost before = list@;
        if i > 0 {
            list.append(", ");
        }
        list.append(times[i].as_str());
        proof {
            let ts = views(times@).subrange(0, i + 1);
            assert(ts.drop_last() =~= views(times@).subrange(0, i as int));
            if i == 0 {
                assert(before =~= Seq::<char>::empty());
                assert(list@ =~= ts[0]);
            }
        }
        i += 1;
    }
    assert(views(times@).subrange(0, times@.len() as int) =~= views(times@));
    let mut s = String::from_str("Appointments available on ");
    s.append(d.as_str());
    s.append(" at: ");
    s.append(list.as_str());
    Some(s)
}

/// The notification texts for date groups, one per existing date, in
/// group order.
pub open spec fn messages_of(dgs: Seq<(Date, Seq<Seq<char>>)>) -> Seq<Seq<char>>
    decreases dgs.len(),
{
    if dgs.len() == 0 {
        Seq::empty()
    } else {
        let pre = messages_of(dgs.drop_last());
        let g = dgs.last();
        if date_exists(g.0) {
            pre.push(
                notification_text(
                    date_text_of(g.0.year as int, g.0.month as int, g.0.day as int),
                    g.1,
                ),
            )
        } else {
            pre
        }
    }
}

/// For each user, one notification text per date on which appointments
/// were found for them.
pub fn prepare_notification_messages(user_appointments: &Vec<(String, Vec<DentistAppointment>)>) -> (r: Vec<
    (String, Vec<String>),
>)
    ensures
        r@.len() == user_appointments@.len(),
        forall|i: int|
            0 <= i < r@.len() ==> (#[trigger] r@[i]).0@ == user_appointments@[i].0@ && views(
                r@[i].1@,
            ) == messages_of(times_by_date(user_appointments@[i].1@)),
{
    let mut out: Vec<(String, Vec<String>)> = Vec::new();
    let mut i: usize = 0;
    while i < user_appointments.len()
        invariant
            i <= user_appointments@.len(),
            out@.len() == i,
            forall|k: int|
                0 <= k < i ==> (#[trigger] out@[k]).0@ == user_appointments@[k].0@ && views(
                    out@[k].1@,
                ) == messages_of(times_by_date(user_appointments@[k].1@)),
        decreases user_appointments@.len() - i,
    {
        let (user, apps) = (&user_appointments[i].0, &user_appointments[i].1);
        let groups = aggregate_user_appointments_by_date(apps);
        let ghost dgs = date_groups_view(groups@);
        let mut messages: Vec<String> = Vec::new();
        let mut j: usize = 0;
        assert(dgs.subrange(0, 0) =~= Seq::<(Date, Seq<Seq<char>>)>::empty());
        while j < groups.len()
            invariant
                dgs == date_groups_view(groups@),
                j <= groups@.len(),
                views(messages@) == messages_of(dgs.subrange(0, j as int)),
            decreases groups@.len() - j,
        {
            let g = &groups[j];
            let ghost before = views(messages@);
            proof {
                let sub = dgs.subrange(0, j + 1);
                assert(sub.drop_last() =~= dgs.subrange(0, j as int));
                assert(sub.last() == (g.0, views(g.1@)));
            }
            match notification_message(g.0, &g.1) {
                Some(m) => {
                    messages.push(m);
                    assert(views(messages@) =~= before.push(m@));
                },
                None => {},
            }
            j += 1;
        }
        assert(dgs.subrange(0, groups@.len() as int) =~= dgs);
        let ghost before = out@;
        out.push((user.clone(), messages));
        proof {
            assert forall|k: int| 0 <= k < out@.len() implies (#[trigger] out@[k]).0@
                == user_appointments@[k].0@ && views(out@[k].1@) == messages_of(
                times_by_date(user_appointments@[k].1@),
            ) by {
                if k < i {
                    assert(out@[k] == before[k]);
                }
            }
        }
        i += 1;
    }
    out
}

/// The appointments whose id is among `ids`, in their order.
pub open spec fn with_ids(apps: Seq<DentistAppointment>, ids: Seq<Seq<char>>) -> Seq<DentistAppointment> {
    apps.filter(|a: DentistAppointment| ids.contains(a.id@))
}

/// Keeps the appointments whose id is among `ids`.
pub fn appointments_with_ids(appointments: Vec<DentistAppointment>, ids: &Vec<String>) -> (r: Vec<
    DentistAppointment,
>)
    ensures
        r@ == with_ids(appointments@, views(ids@)),
{
    let ghost all = appointments@;
    let ghost iv = views(ids@);
    let ghost pred = |a: DentistAppointment| iv.contains(a.id@);
    let mut rest = appointments;
    let mut out: Vec<DentistAppointment> = Vec::new();
    let n = rest.len();
    let mut k: usize = 0;
    assert(all.subrange(0, 0) =~= Seq::<DentistAppointment>::empty());
    while rest.len() > 0
        invariant
            n == all.len(),
            k + rest@.len() == n,
            rest@ == all.subrange(k as int, n as int),
            iv == views(ids@),
            pred == (|a: DentistAppointment| iv.contains(a.id@)),
            out@ == all.subrange(0, k as int).filter(pred),
        decreases rest@.len(),
    {
        let a = rest.remove(0);
        assert(a == all[k as int]);
        let keep = contains_str(ids, a.id.as_str());
        proof {
            let s = all.subrange(0, k + 1);
            assert(s.drop_last() =~= all.subrange(0, k as int));
            reveal(Seq::filter);
        }
        if keep {
            out.push(a);
        }
        k += 1;
    }
    assert(all.subrange(0, n as int) =~= all);
    out
}

/// A notification for one user.
#[derive(Debug)]
pub struct NotificationData {
    pub user_id: String,
    pub message: String,
}

/// The (user, text) pairs of all users' notifications, user by user.
pub open spec fn flattened(msgs: Seq<(Seq<char>, Seq<Seq<char>>)>) -> Seq<(Seq<char>, Seq<char>)>
    decreases msgs.len(),
{
    if msgs.len() == 0 {
        Seq::empty()
    } else {
        flattened(msgs.drop_last()) + msgs.last().1.map_values(|m: Seq<char>| (msgs.last().0, m))
    }
}

/// One notification record per message.
pub fn notification_records(messages: &Vec<(String, Vec<String>)>) -> (r: Vec<NotificationData>)
    ensures
        r@.map_values(|d: NotificationData| (d.user_id@, d.message@)) == flattened(
            messages@.map_values(|g: (String, Vec<String>)| (g.0@, views(g.1@))),
        ),
{
    let ghost mv = messages@.map_values(|g: (String, Vec<String>)| (g.0@, views(g.1@)));
    let mut out: Vec<NotificationData> = Vec::new();
    let mut i: usize = 0;
    assert(out@.map_values(|d: NotificationData| (d.user_id@, d.message@)) =~= flattened(
        mv.subrange(0, 0),
    ));
    while i < messages.len()
        invariant
            i <= messages@.len(),
            mv == messages@.map_values(|g: (String, Vec<String>)| (g.0@, views(g.1@))),
            out@.map_values(|d: NotificationData| (d.user_id@, d.message@)) == flattened(
                mv.subrange(0, i as int),
            ),
        decreases messages@.len() - i,
    {
        let (user, texts) = (&messages[i].0, &messages[i].1);
        let ghost base = out@.map_values(|d: NotificationData| (d.user_id@, d.message@));
        let mut j: usize = 0;
        while j < texts.len()
            invariant
                j <= texts@.len(),
                out@.map_values(|d: NotificationData| (d.user_id@, d.message@)) == base
                    + views(texts@).subrange(0, j as int).map_values(|m: Seq<char>| (user@, m)),
            decreases texts@.len() - j,
        {
            let ghost before = out@;
            out.push(NotificationData { user_id: user.clone(), message: texts[j].clone() });
            proof {
                let f = |d: NotificationData| (d.user_id@, d.message@);
                let g = |m: Seq<char>| (user@, m);
                let y = (user@, texts@[j as int]@);
                assert(out@.map_values(f) =~= before.map_values(f).push(y));
                assert(views(texts@).subrange(0, j + 1).map_values(g) =~= views(texts@).subrange(
                    0,
                    j as int,
                ).map_values(g).push(y));
                assert((base + views(texts@).subrange(0, j as int).map_values(g)).push(y) =~= base
                    + views(texts@).subrange(0, j as int).map_values(g).push(y));
            }
            j += 1;
        }
        proof {
            let sub = mv.subrange(0, i + 1);
            assert(sub.drop_last() =~= mv.subrange(0, i as int));
            assert(sub.last() == (user@, views(texts@)));
            assert(views(texts@).subrange(0, texts@.len() as int) =~= views(texts@));
        }
        i += 1;
    }
    assert(mv.subrange(0, messages@.len() as int) =~= mv);
    out
}

/// The appointments whose id is not `id`, in their order.
pub open spec fn without_id(apps: Seq<DentistAppointment>, id: Seq<char>) -> Seq<DentistAppointment> {
    apps.filter(|a: DentistAppointment| a.id@ != id)
}

/// Drops the appointments with id `id`.
pub fn appointments_without_id(appointments: Vec<DentistAppointment>, id: &str) -> (r: Vec<
    DentistAppointment,
>)
    ensures
        r@ == without_id(appointments@, id@),
{
    let ghost all = appointments@;
    let ghost pred = |a: DentistAppointment| a.id@ != id@;
    let mut rest = appointments;
    let mut out: Vec<DentistAppointment> = Vec::new();
    let n = rest.len();
    let mut k: usize = 0;
    assert(all.subrange(0, 0) =~= Seq::<DentistAppointment>::empty());
    while rest.len() > 0
        invariant
            n == all.len(),
            k + rest@.len() == n,
            rest@ == all.subrange(k as int, n as int),
            pred == (|a: DentistAppointment| a.id@ != id@),
            out@ == all.subrange(0, k as int).filter(pred),
        decreases rest@.len(),
    {
        let a = rest.remove(0);
        assert(a == all[k as int]);
        let keep = !str_eq(a.id.as_str(), id);
        proof {
            let s = all.subrange(0, k + 1);
            assert(s.drop_last() =~= all.subrange(0, k as int));
            reveal(Seq::filter);
        }
        if keep {
            out.push(a);
        }
        k += 1;
    }
    assert(all.subrange(0, n as int) =~= all);
    out
}

} // verus!
