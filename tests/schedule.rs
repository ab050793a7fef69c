use notification_service::listeners::{user_notification_topic, user_preferences_key};
use notification_service::schedule::{
    aggregate_appointments_for_each_user, aggregate_user_appointments_by_date,
    appointments_with_ids, appointments_without_id, matches_preference, notification_message,
    notification_records, prepare_notification_messages, DentistAppointment,
};
use notification_service::user::{preferences_without_id, Date, TimeSlot, UserPreference};

fn date(year: i32, month: u32, day: u32) -> Date {
    Date { year, month, day }
}

fn appointment(id: &str, d: Date, start: &str) -> DentistAppointment {
    DentistAppointment {
        id: id.to_string(),
        created_at: "c".to_string(),
        updated_at: "u".to_string(),
        dentist_id: "d".to_string(),
        clinic_id: "k".to_string(),
        date: d,
        start_time: start.to_string(),
        end_time: "23:59".to_string(),
        status: "available".to_string(),
    }
}

fn preference(id: &str, user: &str, days: &[&str], slots: &[&str]) -> UserPreference {
    UserPreference {
        id: id.to_string(),
        user_id: user.to_string(),
        start_date: date(2024, 1, 1),
        end_date: date(2024, 1, 31),
        is_active: true,
        days_of_week: days.iter().map(|d| d.to_string()).collect(),
        time_slots: slots
            .iter()
            .map(|s| TimeSlot { id: format!("slot-{}", s), start_time: s.to_string() })
            .collect(),
    }
}

#[test]
fn preference_matching_checks_dates_weekdays_and_slots() {
    // 2024-01-01 was a Monday.
    let p = preference("p", "u", &["monday"], &["09:00"]);
    assert!(matches_preference(&appointment("a", date(2024, 1, 1), "09:00"), &p));
    assert!(matches_preference(&appointment("a", date(2024, 1, 29), "09:00"), &p));
    assert!(!matches_preference(&appointment("a", date(2024, 1, 2), "09:00"), &p));
    assert!(!matches_preference(&appointment("a", date(2024, 1, 1), "10:00"), &p));
    assert!(!matches_preference(&appointment("a", date(2024, 2, 5), "09:00"), &p));
    assert!(!matches_preference(&appointment("a", date(2023, 12, 25), "09:00"), &p));
    assert!(!matches_preference(&appointment("a", date(2024, 1, 32), "09:00"), &p));
    let q = preference("q", "u", &["tuesday"], &["09:00"]);
    assert!(matches_preference(&appointment("a", date(2024, 1, 2), "09:00"), &q));
}

#[test]
fn appointments_group_by_user() {
    let apps = vec![
        appointment("a1", date(2024, 1, 1), "09:00"),
        appointment("a2", date(2024, 1, 2), "10:00"),
        appointment("a3", date(2024, 1, 8), "09:00"),
    ];
    let prefs = vec![
        preference("pa", "u1", &["monday"], &["09:00"]),
        preference("pb", "u2", &["tuesday"], &["10:00"]),
        preference("pc", "u1", &["monday", "tuesday"], &["09:00", "10:00"]),
    ];
    let groups = aggregate_appointments_for_each_user(&apps, &prefs);
    assert_eq!(groups.len(), 2);
    assert_eq!(groups[0].0, "u1");
    let ids: Vec<&str> = groups[0].1.iter().map(|a| a.id.as_str()).collect();
    assert_eq!(ids, vec!["a1", "a1", "a2", "a3", "a3"]);
    assert_eq!(groups[1].0, "u2");
    assert_eq!(groups[1].1.len(), 1);
    assert_eq!(groups[1].1[0].id, "a2");
    assert!(aggregate_appointments_for_each_user(&apps, &vec![]).is_empty());
}

#[test]
fn start_times_group_by_date() {
    let apps = vec![
        appointment("a1", date(2024, 1, 1), "09:00"),
        appointment("a2", date(2024, 1, 2), "10:00"),
        appointment("a3", date(2024, 1, 1), "11:00"),
    ];
    let groups = aggregate_user_appointments_by_date(&apps);
    assert_eq!(groups.len(), 2);
    assert_eq!(groups[0].0, date(2024, 1, 1));
    assert_eq!(groups[0].1, vec!["09:00".to_string(), "11:00".to_string()]);
    assert_eq!(groups[1].0, date(2024, 1, 2));
    assert_eq!(groups[1].1, vec!["10:00".to_string()]);
}

#[test]
fn notification_text_is_exact() {
    let times = vec!["09:00".to_string(), "10:30".to_string()];
    assert_eq!(
        notification_message(date(2024, 3, 5), &times).unwrap(),
        "Appointments available on 2024-03-05 at: 09:00, 10:30"
    );
    assert_eq!(
        notification_message(date(2024, 3, 5), &vec![]).unwrap(),
        "Appointments available on 2024-03-05 at: "
    );
    assert!(notification_message(date(2023, 2, 29), &times).is_none());
}

#[test]
fn messages_per_user_and_records() {
    let per_user = vec![(
        "u1".to_string(),
        vec![
            appointment("a1", date(2024, 1, 1), "09:00"),
            appointment("a3", date(2024, 1, 1), "11:00"),
            appointment("a2", date(2024, 1, 2), "10:00"),
        ],
    )];
    let messages = prepare_notification_messages(&per_user);
    assert_eq!(messages.len(), 1);
    assert_eq!(messages[0].0, "u1");
    assert_eq!(
        messages[0].1,
        vec![
            "Appointments available on 2024-01-01 at: 09:00, 11:00".to_string(),
            "Appointments available on 2024-01-02 at: 10:00".to_string(),
        ]
    );
    let records = notification_records(&messages);
    assert_eq!(records.len(), 2);
    assert_eq!(records[0].user_id, "u1");
    assert_eq!(records[1].message, "Appointments available on 2024-01-02 at: 10:00");
}

#[test]
fn appointments_filter_by_id() {
    let apps = vec![
        appointment("a1", date(2024, 1, 1), "09:00"),
        appointment("a2", date(2024, 1, 2), "10:00"),
        appointment("a3", date(2024, 1, 3), "11:00"),
    ];
    let kept = appointments_with_ids(apps, &vec!["a3".to_string(), "a1".to_string()]);
    let ids: Vec<&str> = kept.iter().map(|a| a.id.as_str()).collect();
    assert_eq!(ids, vec!["a1", "a3"]);
    let rest = appointments_without_id(kept, "a1");
    assert_eq!(rest.len(), 1);
    assert_eq!(rest[0].id, "a3");
}

#[test]
fn preferences_filter_by_id() {
    let prefs = vec![
        preference("pa", "u", &["monday"], &["09:00"]),
        preference("pb", "u", &["monday"], &["09:00"]),
    ];
    let kept = preferences_without_id(prefs, "pa");
    assert_eq!(kept.len(), 1);
    assert_eq!(kept[0].id, "pb");
}

#[test]
fn cache_keys_and_topics() {
    assert_eq!(user_preferences_key("42"), "user_preferences_42");
    assert_eq!(user_notification_topic("42"), "dit356g2/notifications/ws/users/42");
}

#[test]
fn years_outside_four_digits_carry_a_sign() {
    let times = vec!["08:00".to_string()];
    assert_eq!(
        notification_message(date(12345, 6, 7), &times).unwrap(),
        "Appointments available on +12345-06-07 at: 08:00"
    );
    assert_eq!(
        notification_message(date(-1, 1, 1), &times).unwrap(),
        "Appointments available on -0001-01-01 at: 08:00"
    );
    assert_eq!(
        notification_message(date(7, 1, 1), &times).unwrap(),
        "Appointments available on 0007-01-01 at: 08:00"
    );
}
