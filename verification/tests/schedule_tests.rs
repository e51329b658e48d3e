use foxus::schedule::FocusSchedule;
use foxus::store::{Store, migrate};

fn setup_store() -> Store {
    let conn = rusqlite::Connection::open_in_memory().unwrap();
    let mut store = Store::from_connection(conn);
    migrate(&mut store).unwrap();
    store
}

#[test]
fn test_new_creates_schedule() {
    let schedule = FocusSchedule::new("1,2,3,4,5", "09:00", "12:00", 600);

    assert!(schedule.id.is_none());
    assert_eq!(schedule.days_of_week, "1,2,3,4,5");
    assert_eq!(schedule.start_time, "09:00");
    assert_eq!(schedule.end_time, "12:00");
    assert_eq!(schedule.distraction_budget, 600);
    assert!(schedule.enabled);
}

#[test]
fn focus_schedule_test_save_assigns_id() {
    let mut store = setup_store();

    let mut schedule = FocusSchedule::new("1,2,3,4,5", "09:00", "12:00", 600);
    assert!(schedule.id.is_none());

    schedule.save(&mut store).unwrap();
    assert!(schedule.id.is_some());
}

#[test]
fn test_find_all() {
    let mut store = setup_store();

    let mut s1 = FocusSchedule::new("1,2,3,4,5", "09:00", "12:00", 600);
    s1.save(&mut store).unwrap();

    let mut s2 = FocusSchedule::new("1,3,5", "14:00", "17:00", 300);
    s2.save(&mut store).unwrap();

    let schedules = FocusSchedule::find_all(&store).unwrap();
    assert_eq!(schedules.len(), 2);
}

#[test]
fn test_find_enabled() {
    let mut store = setup_store();

    let mut s1 = FocusSchedule::new("1,2,3,4,5", "09:00", "12:00", 600);
    s1.save(&mut store).unwrap();

    let mut s2 = FocusSchedule::new("1,3,5", "14:00", "17:00", 300);
    s2.enabled = false;
    s2.save(&mut store).unwrap();

    let enabled = FocusSchedule::find_enabled(&store).unwrap();
    assert_eq!(enabled.len(), 1);
    assert_eq!(enabled[0].start_time, "09:00");
}

#[test]
fn test_find_by_id() {
    let mut store = setup_store();

    let mut schedule = FocusSchedule::new("1,2,3,4,5", "09:00", "12:00", 600);
    schedule.save(&mut store).unwrap();
    let id = schedule.id.unwrap();

    let found = FocusSchedule::find_by_id(&store, id).unwrap();
    assert!(found.is_some());
    assert_eq!(found.unwrap().start_time, "09:00");

    let not_found = FocusSchedule::find_by_id(&store, 99999).unwrap();
    assert!(not_found.is_none());
}

#[test]
fn test_update() {
    let mut store = setup_store();

    let mut schedule = FocusSchedule::new("1,2,3,4,5", "09:00", "12:00", 600);
    schedule.save(&mut store).unwrap();
    let id = schedule.id.unwrap();

    schedule.start_time = "10:00".to_string();
    schedule.distraction_budget = 900;
    schedule.update(&mut store).unwrap();

    let found = FocusSchedule::find_by_id(&store, id).unwrap().unwrap();
    assert_eq!(found.start_time, "10:00");
    assert_eq!(found.distraction_budget, 900);
}

#[test]
fn test_delete() {
    let mut store = setup_store();

    let mut schedule = FocusSchedule::new("1,2,3,4,5", "09:00", "12:00", 600);
    schedule.save(&mut store).unwrap();
    let id = schedule.id.unwrap();

    let deleted = FocusSchedule::delete(&mut store, id).unwrap();
    assert!(deleted);

    let found = FocusSchedule::find_by_id(&store, id).unwrap();
    assert!(found.is_none());

    // Deleting non-existent should return false.
    let deleted_again = FocusSchedule::delete(&mut store, id).unwrap();
    assert!(!deleted_again);
}

#[test]
fn test_applies_to_day() {
    let schedule = FocusSchedule::new("1,2,3,4,5", "09:00", "12:00", 600);

    assert!(schedule.applies_to_day(1)); // Monday
    assert!(schedule.applies_to_day(5)); // Friday
    assert!(!schedule.applies_to_day(6)); // Saturday
    assert!(!schedule.applies_to_day(7)); // Sunday
}

#[test]
fn test_is_time_in_range() {
    let schedule = FocusSchedule::new("1,2,3,4,5", "09:00", "12:00", 600);

    assert!(schedule.is_time_in_range("09:00"));
    assert!(schedule.is_time_in_range("10:30"));
    assert!(schedule.is_time_in_range("11:59"));
    assert!(!schedule.is_time_in_range("08:59"));
    assert!(!schedule.is_time_in_range("12:00")); // End time is exclusive
    assert!(!schedule.is_time_in_range("12:01"));
}

#[test]
fn test_is_active_at() {
    let mut schedule = FocusSchedule::new("1,2,3,4,5", "09:00", "12:00", 600);

    // Active on Monday at 10:00.
    assert!(schedule.is_active_at(1, "10:00"));

    // Not active on Saturday at 10:00.
    assert!(!schedule.is_active_at(6, "10:00"));

    // Not active on Monday at 08:00.
    assert!(!schedule.is_active_at(1, "08:00"));

    // Not active when disabled.
    schedule.enabled = false;
    assert!(!schedule.is_active_at(1, "10:00"));
}

#[test]
fn test_get_days() {
    let schedule = FocusSchedule::new("1,2,3,4,5", "09:00", "12:00", 600);
    let days = schedule.get_days();
    assert_eq!(days, vec![1, 2, 3, 4, 5]);

    let weekend = FocusSchedule::new("6,7", "10:00", "14:00", 300);
    let days = weekend.get_days();
    assert_eq!(days, vec![6, 7]);
}

#[test]
fn test_get_days_with_spaces_and_noise() {
    let schedule = FocusSchedule::new(" 1 , 2 ,x,3", "09:00", "12:00", 600);
    // Parts are trimmed before parsing and unparsable parts are dropped.
    assert_eq!(schedule.get_days(), vec![1, 2, 3]);
}

#[test]
fn test_update_unsaved_returns_error() {
    let mut store = setup_store();

    let schedule = FocusSchedule::new("1,2,3,4,5", "09:00", "12:00", 600);
    let result = schedule.update(&mut store);
    assert!(result.is_err());
}
