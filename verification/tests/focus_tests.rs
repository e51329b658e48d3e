use foxus::category::Category;
use foxus::focus::FocusManager;
use foxus::rule::{MatchType, Rule};
use foxus::schedule::FocusSchedule;
use foxus::session::FocusSession;
use foxus::store::{Store, migrate};

fn setup_store() -> Store {
    let conn = rusqlite::Connection::open_in_memory().unwrap();
    let mut store = Store::from_connection(conn);
    migrate(&mut store).unwrap();
    store
}

#[test]
fn test_start_and_end_session() {
    let mut store = setup_store();
    let manager = FocusManager::new();

    let state = manager.get_state(&store).unwrap();
    assert!(!state.active);

    let session = manager.start_session(&mut store, 600).unwrap();
    assert_eq!(session.distraction_budget, 600);

    let state = manager.get_state(&store).unwrap();
    assert!(state.active);
    assert_eq!(state.budget_remaining, 600);

    manager.end_session(&mut store).unwrap();

    let state = manager.get_state(&store).unwrap();
    assert!(!state.active);
}

#[test]
fn test_use_distraction_time() {
    let mut store = setup_store();
    let mut manager = FocusManager::new();

    manager.start_session(&mut store, 300).unwrap();

    let remaining = manager.use_distraction_time(&mut store, 100).unwrap().unwrap();
    assert_eq!(remaining, 200);

    // Reset rate limit to allow immediate second call in test.
    manager.reset_rate_limit();

    let remaining = manager.use_distraction_time(&mut store, 200).unwrap().unwrap();
    assert_eq!(remaining, 0);
}

#[test]
fn test_rate_limit_deducts_once_within_window() {
    let mut store = setup_store();
    let mut manager = FocusManager::new();

    manager.start_session(&mut store, 600).unwrap();

    // First call at t=1000 deducts.
    let remaining = manager.use_distraction_time_at(&mut store, 100, 1000).unwrap().unwrap();
    assert_eq!(remaining, 500);

    // Second call 10 seconds later is rate limited: no deduction.
    let remaining = manager.use_distraction_time_at(&mut store, 100, 1010).unwrap().unwrap();
    assert_eq!(remaining, 500);

    // Third call after the 25-second window reopens deducts again.
    let remaining = manager.use_distraction_time_at(&mut store, 100, 1025).unwrap().unwrap();
    assert_eq!(remaining, 400);
}

#[test]
fn test_use_distraction_time_none_without_session() {
    let mut store = setup_store();
    let mut manager = FocusManager::new();

    let r = manager.use_distraction_time(&mut store, 100).unwrap();
    assert!(r.is_none());
}

#[test]
fn test_blocked_domains() {
    let mut store = setup_store();

    // Add a rule for reddit as distracting.
    let entertainment = Category::find_all(&store)
        .unwrap()
        .into_iter()
        .find(|c| c.name == "Entertainment")
        .unwrap();
    Rule::create(&mut store, "reddit.com", MatchType::Domain, entertainment.id, 10).unwrap();

    let manager = FocusManager::new();

    // Not blocked when focus mode is off.
    assert!(!manager.is_domain_blocked(&store, "reddit.com").unwrap());

    manager.start_session(&mut store, 600).unwrap();

    // Blocked when focus mode is on.
    assert!(manager.is_domain_blocked(&store, "reddit.com").unwrap());
    assert!(manager.is_domain_blocked(&store, "www.reddit.com").unwrap());

    // Other domains not blocked.
    assert!(!manager.is_domain_blocked(&store, "github.com").unwrap());
}

#[test]
fn test_blocked_domain_star_pattern() {
    let mut store = setup_store();

    let entertainment = Category::find_all(&store)
        .unwrap()
        .into_iter()
        .find(|c| c.name == "Entertainment")
        .unwrap();
    Rule::create(&mut store, "*.reddit.com", MatchType::Domain, entertainment.id, 10).unwrap();

    let manager = FocusManager::new();
    manager.start_session(&mut store, 600).unwrap();

    // The leading star marker is stripped for the equality test.
    assert!(manager.is_domain_blocked(&store, "reddit.com").unwrap());
    // Suffix matching still applies.
    assert!(manager.is_domain_blocked(&store, "www.reddit.com").unwrap());
}

#[test]
fn test_session_replaced_ends_prior() {
    let mut store = setup_store();
    let manager = FocusManager::new();

    let first = manager.start_session(&mut store, 600).unwrap();
    let second = manager.start_session(&mut store, 300).unwrap();

    // The prior session's row must now be closed.
    let ended_at: Option<i64> = store
        .conn
        .query_row(
            "SELECT ended_at FROM focus_sessions WHERE id = ?1",
            (first.id.unwrap(),),
            |row| row.get(0),
        )
        .unwrap();
    assert!(ended_at.is_some(), "prior session must be ended");

    // The new session is the one find_active returns.
    let found = FocusSession::find_active(&store).unwrap().unwrap();
    assert_eq!(found.id, second.id);
    assert_eq!(found.distraction_budget, 300);

    // At most one open session exists.
    let open_count: i64 = store
        .conn
        .query_row("SELECT COUNT(*) FROM focus_sessions WHERE ended_at IS NULL", (), |row| {
            row.get(0)
        })
        .unwrap();
    assert_eq!(open_count, 1);
}

#[test]
fn test_session_duration_none_when_inactive() {
    let store = setup_store();
    let manager = FocusManager::new();

    let state = manager.get_state(&store).unwrap();
    assert!(!state.active);
    assert!(state.session_duration_secs.is_none());
}

#[test]
fn test_session_duration_calculated_when_active() {
    let mut store = setup_store();
    let manager = FocusManager::new();

    manager.start_session(&mut store, 600).unwrap();

    let state = manager.get_state(&store).unwrap();
    assert!(state.active);
    assert!(state.session_duration_secs.is_some());
    // Duration should be very small (close to 0) since we just started.
    let duration = state.session_duration_secs.unwrap();
    assert!(duration >= 0, "Duration should be non-negative");
    assert!(duration < 5, "Duration should be small for a just-started session");
}

#[test]
fn test_session_duration_none_after_end() {
    let mut store = setup_store();
    let manager = FocusManager::new();

    manager.start_session(&mut store, 600).unwrap();
    let state = manager.get_state(&store).unwrap();
    assert!(state.session_duration_secs.is_some());

    manager.end_session(&mut store).unwrap();

    let state = manager.get_state(&store).unwrap();
    assert!(!state.active);
    assert!(state.session_duration_secs.is_none());
}

#[test]
fn test_start_scheduled_session() {
    let mut store = setup_store();
    let manager = FocusManager::new();

    let session = manager.start_scheduled_session(&mut store, 600).unwrap();
    assert!(session.scheduled);
    assert_eq!(session.distraction_budget, 600);

    let state = manager.get_state(&store).unwrap();
    assert!(state.active);
}

#[test]
fn test_get_current_day_and_time_format() {
    let (day, time) = foxus::clock::get_current_day_and_time();

    // Day should be 1-7.
    assert!(day >= 1 && day <= 7, "Day should be between 1 and 7, got {}", day);

    // Time should be HH:MM format.
    assert_eq!(time.len(), 5, "Time should be 5 characters (HH:MM), got {}", time);
    assert_eq!(&time[2..3], ":", "Time should have colon at position 2");

    let hours: u32 = time[0..2].parse().unwrap();
    let minutes: u32 = time[3..5].parse().unwrap();
    assert!(hours < 24, "Hours should be < 24, got {}", hours);
    assert!(minutes < 60, "Minutes should be < 60, got {}", minutes);
}

#[test]
fn test_find_active_schedule_none_when_empty() {
    let store = setup_store();
    let manager = FocusManager::new();

    let schedule = manager.get_active_schedule(&store).unwrap();
    assert!(schedule.is_none());
}

#[test]
fn test_find_active_schedule_with_matching_schedule() {
    let mut store = setup_store();

    // Create a schedule that covers all days and times.
    let mut schedule = FocusSchedule::new("1,2,3,4,5,6,7", "00:00", "23:59", 600);
    schedule.save(&mut store).unwrap();

    let manager = FocusManager::new();

    let schedule = manager.get_active_schedule(&store).unwrap();
    assert!(schedule.is_some());
    assert_eq!(schedule.unwrap().distraction_budget, 600);
}

#[test]
fn test_find_active_schedule_disabled_not_returned() {
    let mut store = setup_store();

    // Create a disabled schedule that covers all days and times.
    let mut schedule = FocusSchedule::new("1,2,3,4,5,6,7", "00:00", "23:59", 600);
    schedule.enabled = false;
    schedule.save(&mut store).unwrap();

    let manager = FocusManager::new();

    let schedule = manager.get_active_schedule(&store).unwrap();
    assert!(schedule.is_none());
}

#[test]
fn test_check_schedules_does_not_affect_manual_session() {
    let mut store = setup_store();

    // Create a schedule that covers all days and times.
    let mut schedule = FocusSchedule::new("1,2,3,4,5,6,7", "00:00", "23:59", 300);
    schedule.save(&mut store).unwrap();

    let manager = FocusManager::new();

    // Start a manual session with different budget.
    manager.start_session(&mut store, 600).unwrap();

    // Check schedules should not affect manual session.
    manager.check_schedules(&mut store).unwrap();

    let state = manager.get_state(&store).unwrap();
    assert!(state.active);
    assert_eq!(state.budget_remaining, 600); // Should still be 600, not 300
}

#[test]
fn test_check_schedules_truth_table() {
    let manager = FocusManager::new();

    // Schedule active, no session: a scheduled session starts.
    let mut store = setup_store();
    let mut schedule = FocusSchedule::new("1,2,3,4,5,6,7", "09:00", "17:00", 300);
    schedule.save(&mut store).unwrap();
    manager.check_schedules_at(&mut store, 1, "10:00").unwrap();
    let s = FocusSession::find_active(&store).unwrap().unwrap();
    assert!(s.scheduled);
    assert_eq!(s.distraction_budget, 300);
    assert_eq!(s.distraction_used, 0);

    // Schedule still active, budgets equal: no-op.
    manager.check_schedules_at(&mut store, 1, "11:00").unwrap();
    let same = FocusSession::find_active(&store).unwrap().unwrap();
    assert_eq!(same.id, s.id);

    // Schedule no longer active (outside the time range): session ends.
    manager.check_schedules_at(&mut store, 1, "18:00").unwrap();
    assert!(FocusSession::find_active(&store).unwrap().is_none());

    // No schedule active, no session: no-op.
    manager.check_schedules_at(&mut store, 1, "18:30").unwrap();
    assert!(FocusSession::find_active(&store).unwrap().is_none());

    // Day not in the schedule's day set: nothing starts on day 6 if absent.
    let mut store2 = setup_store();
    let mut weekday = FocusSchedule::new("1,2,3,4,5", "09:00", "17:00", 300);
    weekday.save(&mut store2).unwrap();
    manager.check_schedules_at(&mut store2, 6, "10:00").unwrap();
    assert!(FocusSession::find_active(&store2).unwrap().is_none());
}

#[test]
fn test_check_schedules_budget_drift_restarts() {
    let manager = FocusManager::new();
    let mut store = setup_store();

    let mut schedule = FocusSchedule::new("1,2,3,4,5,6,7", "00:00", "23:59", 600);
    schedule.save(&mut store).unwrap();

    // Start a scheduled session with a budget far from the schedule's.
    let first = manager.start_scheduled_session(&mut store, 100).unwrap();

    // Reconciliation sees a drift over 60 seconds and restarts the session.
    manager.check_schedules_at(&mut store, 1, "10:00").unwrap();
    let replaced = FocusSession::find_active(&store).unwrap().unwrap();
    assert_ne!(replaced.id, first.id);
    assert!(replaced.scheduled);
    assert_eq!(replaced.distraction_budget, 600);

    // A drift of at most 60 seconds is tolerated: no restart.
    let second = manager.start_scheduled_session(&mut store, 560).unwrap();
    manager.check_schedules_at(&mut store, 1, "10:00").unwrap();
    let kept = FocusSession::find_active(&store).unwrap().unwrap();
    assert_eq!(kept.id, second.id);
    assert_eq!(kept.distraction_budget, 560);
}

#[test]
fn test_focus_blocking_end_to_end() {
    let mut store = setup_store();

    // Seed a Domain rule mapping reddit.com to the distracting category.
    let entertainment = Category::find_all(&store)
        .unwrap()
        .into_iter()
        .find(|c| c.name == "Entertainment")
        .unwrap();
    assert_eq!(entertainment.productivity, -1);
    Rule::create(&mut store, "reddit.com", MatchType::Domain, entertainment.id, 10).unwrap();

    let manager = FocusManager::new();
    manager.start_session(&mut store, 600).unwrap();

    assert!(manager.is_domain_blocked(&store, "reddit.com").unwrap());
    assert!(manager.is_domain_blocked(&store, "www.reddit.com").unwrap());
    assert!(!manager.is_domain_blocked(&store, "github.com").unwrap());

    manager.end_session(&mut store).unwrap();

    assert!(!manager.is_domain_blocked(&store, "reddit.com").unwrap());
    assert!(!manager.is_domain_blocked(&store, "www.reddit.com").unwrap());
}
