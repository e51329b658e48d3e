use foxus::session::FocusSession;
use foxus::store::{Store, migrate};

fn setup_store() -> Store {
    let conn = rusqlite::Connection::open_in_memory().unwrap();
    let mut store = Store::from_connection(conn);
    migrate(&mut store).unwrap();
    store
}

#[test]
fn test_new_creates_session_with_current_timestamp() {
    let session = FocusSession::new(600, false);

    assert!(session.id.is_none());
    assert!(session.started_at > 0);
    assert!(session.ended_at.is_none());
    assert!(!session.scheduled);
    assert_eq!(session.distraction_budget, 600);
    assert_eq!(session.distraction_used, 0);
}

#[test]
fn test_new_creates_scheduled_session() {
    let session = FocusSession::new(300, true);

    assert!(session.scheduled);
    assert_eq!(session.distraction_budget, 300);
}

#[test]
fn test_find_active_returns_none_when_no_sessions() {
    let store = setup_store();

    let found = FocusSession::find_active(&store).unwrap();
    assert!(found.is_none());
}

#[test]
fn focus_session_test_save_assigns_id() {
    let mut store = setup_store();

    let mut session = FocusSession::new(600, false);
    assert!(session.id.is_none());

    session.save(&mut store).unwrap();
    assert!(session.id.is_some());
}

#[test]
fn test_create_and_find_active_session() {
    let mut store = setup_store();

    assert!(FocusSession::find_active(&store).unwrap().is_none());

    let mut session = FocusSession::new(600, false);
    session.save(&mut store).unwrap();

    let found = FocusSession::find_active(&store).unwrap().unwrap();
    assert_eq!(found.id, session.id);
    assert_eq!(found.distraction_budget, 600);
    assert_eq!(found.started_at, session.started_at);
}

#[test]
fn test_find_active_returns_most_recent() {
    let mut store = setup_store();

    let mut session1 = FocusSession::new(300, false);
    session1.save(&mut store).unwrap();

    // Create a second session with different budget.
    let mut session2 = FocusSession::new(600, true);
    session2.started_at = session1.started_at + 100; // Make it more recent
    session2.save(&mut store).unwrap();

    let found = FocusSession::find_active(&store).unwrap().unwrap();
    assert_eq!(found.id, session2.id);
    assert_eq!(found.distraction_budget, 600);
    assert!(found.scheduled);
}

#[test]
fn test_end_session() {
    let mut store = setup_store();

    let mut session = FocusSession::new(600, false);
    session.save(&mut store).unwrap();

    session.end(&mut store).unwrap();

    assert!(session.ended_at.is_some());
    assert!(FocusSession::find_active(&store).unwrap().is_none());
}

#[test]
fn test_end_session_persists_to_db() {
    let mut store = setup_store();

    let mut session = FocusSession::new(600, false);
    session.save(&mut store).unwrap();
    let session_id = session.id.unwrap();

    session.end(&mut store).unwrap();

    // Verify the ended_at was persisted by querying directly.
    let ended_at: Option<i64> = store
        .conn
        .query_row(
            "SELECT ended_at FROM focus_sessions WHERE id = ?1",
            (session_id,),
            |row| row.get(0),
        )
        .unwrap();

    assert!(ended_at.is_some());
    assert_eq!(ended_at, session.ended_at);
}

#[test]
fn test_add_distraction_time() {
    let mut store = setup_store();

    let mut session = FocusSession::new(300, false);
    session.save(&mut store).unwrap();

    assert_eq!(session.distraction_used, 0);

    session.add_distraction_time(&mut store, 50).unwrap();
    assert_eq!(session.distraction_used, 50);

    session.add_distraction_time(&mut store, 100).unwrap();
    assert_eq!(session.distraction_used, 150);
}

#[test]
fn test_add_distraction_time_persists_to_db() {
    let mut store = setup_store();

    let mut session = FocusSession::new(300, false);
    session.save(&mut store).unwrap();
    let session_id = session.id.unwrap();

    session.add_distraction_time(&mut store, 75).unwrap();

    // Verify persisted to DB.
    let used: i32 = store
        .conn
        .query_row(
            "SELECT distraction_used FROM focus_sessions WHERE id = ?1",
            (session_id,),
            |row| row.get(0),
        )
        .unwrap();

    assert_eq!(used, 75);
}

#[test]
fn test_budget_remaining() {
    let mut store = setup_store();

    let mut session = FocusSession::new(300, false);
    session.save(&mut store).unwrap();

    assert_eq!(session.budget_remaining(), 300);

    session.add_distraction_time(&mut store, 100).unwrap();
    assert_eq!(session.budget_remaining(), 200);

    session.add_distraction_time(&mut store, 150).unwrap();
    assert_eq!(session.budget_remaining(), 50);

    session.add_distraction_time(&mut store, 50).unwrap();
    assert_eq!(session.budget_remaining(), 0);
}

#[test]
fn test_budget_remaining_never_negative() {
    let mut session = FocusSession::new(100, false);
    session.distraction_used = 150; // Exceeds budget

    assert_eq!(session.budget_remaining(), 0);
}

#[test]
fn test_is_budget_exhausted() {
    let mut store = setup_store();

    let mut session = FocusSession::new(300, false);
    session.save(&mut store).unwrap();

    assert!(!session.is_budget_exhausted());

    session.add_distraction_time(&mut store, 200).unwrap();
    assert!(!session.is_budget_exhausted());

    session.add_distraction_time(&mut store, 100).unwrap();
    assert!(session.is_budget_exhausted());
}

#[test]
fn test_is_budget_exhausted_when_exceeded() {
    let mut session = FocusSession::new(100, false);
    session.distraction_used = 150; // Exceeds budget

    assert!(session.is_budget_exhausted());
}

#[test]
fn test_scheduled_flag_persists() {
    let mut store = setup_store();

    let mut scheduled_session = FocusSession::new(600, true);
    scheduled_session.save(&mut store).unwrap();

    let found = FocusSession::find_active(&store).unwrap().unwrap();
    assert!(found.scheduled);
}

#[test]
fn test_unscheduled_flag_persists() {
    let mut store = setup_store();

    let mut unscheduled_session = FocusSession::new(600, false);
    unscheduled_session.save(&mut store).unwrap();

    let found = FocusSession::find_active(&store).unwrap().unwrap();
    assert!(!found.scheduled);
}

#[test]
fn test_end_unsaved_session_returns_error() {
    let mut store = setup_store();

    let mut session = FocusSession::new(600, false);
    // Don't save - session.id is None

    let result = session.end(&mut store);
    assert!(result.is_err(), "end() should fail on unsaved session");
}

#[test]
fn test_add_distraction_time_unsaved_session_returns_error() {
    let mut store = setup_store();

    let mut session = FocusSession::new(600, false);
    // Don't save - session.id is None

    let result = session.add_distraction_time(&mut store, 50);
    assert!(result.is_err(), "add_distraction_time() should fail on unsaved session");
}
