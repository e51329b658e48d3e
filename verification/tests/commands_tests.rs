use foxus::categorizer::Categorizer;
use foxus::commands::{
    CreateScheduleRequest, UpdateScheduleRequest, check_focus_schedules, create_category,
    create_focus_schedule, create_rule, delete_category, delete_focus_schedule, delete_rule,
    end_focus_session, get_categories, get_focus_schedules, get_focus_state, get_rules,
    start_focus_session, update_category, update_focus_schedule, update_rule,
};
use foxus::focus::FocusManager;
use foxus::store::{Store, migrate};

fn setup_store() -> Store {
    let conn = rusqlite::Connection::open_in_memory().unwrap();
    let mut store = Store::from_connection(conn);
    migrate(&mut store).unwrap();
    store
}

#[test]
fn test_day_and_time_derivation() {
    // The epoch fell on a Thursday.
    let (day, time) = foxus::clock::day_and_time_of(0);
    assert_eq!(day, 4);
    assert_eq!(time, "00:00");

    // 2023-11-14 22:13:20 UTC was a Tuesday.
    let (day, time) = foxus::clock::day_and_time_of(1700000000);
    assert_eq!(day, 2);
    assert_eq!(time, "22:13");
}

#[test]
fn test_focus_session_lifecycle() {
    let mut store = setup_store();
    let manager = FocusManager::new();

    // Initially inactive.
    let state = get_focus_state(&manager, &store).unwrap();
    assert!(!state.active);

    // Validate and start session.
    start_focus_session(&manager, &mut store, 10).unwrap();

    // Now active with correct budget.
    let state = get_focus_state(&manager, &store).unwrap();
    assert!(state.active);
    assert_eq!(state.budget_remaining, 600); // 10 minutes = 600 seconds

    // End session.
    end_focus_session(&manager, &mut store).unwrap();

    // Back to inactive.
    let state = get_focus_state(&manager, &store).unwrap();
    assert!(!state.active);
}

#[test]
fn test_focus_session_replaces_existing() {
    let mut store = setup_store();
    let manager = FocusManager::new();

    // Start first session with 10 minutes.
    manager.start_session(&mut store, 600).unwrap();
    let state = get_focus_state(&manager, &store).unwrap();
    assert_eq!(state.budget_remaining, 600);

    // Start second session with 5 minutes (should replace first).
    manager.start_session(&mut store, 300).unwrap();
    let state = get_focus_state(&manager, &store).unwrap();
    assert!(state.active);
    assert_eq!(state.budget_remaining, 300);
}

#[test]
fn test_start_focus_session_validates_budget() {
    let mut store = setup_store();
    let manager = FocusManager::new();

    assert!(start_focus_session(&manager, &mut store, 0).is_err());
    assert!(start_focus_session(&manager, &mut store, -5).is_err());
    assert!(start_focus_session(&manager, &mut store, 1441).is_err());
    let state = get_focus_state(&manager, &store).unwrap();
    assert!(!state.active);
}

#[test]
fn test_category_crud() {
    let mut store = setup_store();

    let created = create_category(&mut store, "  Reading  ", 1).unwrap();
    assert_eq!(created.name, "Reading");
    assert_eq!(created.productivity, 1);

    // Duplicate names are reported as already existing.
    let dup = create_category(&mut store, "Reading", 0);
    assert!(dup.is_err());
    assert_eq!(dup.unwrap_err().user_message(), "'Reading' already exists");

    // Invalid inputs are rejected.
    assert!(create_category(&mut store, "", 0).is_err());
    assert!(create_category(&mut store, "x", 2).is_err());

    let updated = update_category(&mut store, created.id, "Deep Reading", 1).unwrap();
    assert!(updated);
    let all = get_categories(&store).unwrap();
    assert!(all.iter().any(|c| c.name == "Deep Reading"));

    let deleted = delete_category(&mut store, created.id).unwrap();
    assert!(deleted);
    let again = delete_category(&mut store, created.id).unwrap();
    assert!(!again);
}

#[test]
fn test_rule_crud_reloads_categorizer() {
    let mut store = setup_store();
    let mut categorizer = Categorizer::new(&store).unwrap();

    let coding = get_categories(&store)
        .unwrap()
        .into_iter()
        .find(|c| c.name == "Coding")
        .unwrap();

    let created =
        create_rule(&mut store, &mut categorizer, " mynewapp ", "app", coding.id, 10).unwrap();
    assert_eq!(created.pattern, "mynewapp");
    assert_eq!(created.match_type, "app");

    // The categorizer saw the new rule without an explicit reload.
    assert_eq!(categorizer.categorize_app("MyNewApp", None), coding.id);

    // Invalid inputs are rejected.
    assert!(create_rule(&mut store, &mut categorizer, "", "app", coding.id, 10).is_err());
    assert!(create_rule(&mut store, &mut categorizer, "x", "bogus", coding.id, 10).is_err());
    assert!(create_rule(&mut store, &mut categorizer, "x", "app", coding.id, 1001).is_err());
    assert!(create_rule(&mut store, &mut categorizer, "x", "app", 999999, 10).is_err());

    let updated = update_rule(
        &mut store,
        &mut categorizer,
        created.id,
        "otherapp",
        "app",
        coding.id,
        20,
    )
    .unwrap();
    assert!(updated);
    let rules = get_rules(&store).unwrap();
    assert!(rules.iter().any(|r| r.pattern == "otherapp" && r.priority == 20));

    let deleted = delete_rule(&mut store, &mut categorizer, created.id).unwrap();
    assert!(deleted);
}

#[test]
fn test_schedule_crud() {
    let mut store = setup_store();

    let created = create_focus_schedule(
        &mut store,
        CreateScheduleRequest {
            days_of_week: "1,2,3".to_string(),
            start_time: "09:00".to_string(),
            end_time: "12:00".to_string(),
            distraction_budget_secs: 600,
        },
    )
    .unwrap();
    assert!(created.enabled);
    assert_eq!(created.days_of_week, "1,2,3");

    // Bad times, days and budgets are rejected.
    let bad = create_focus_schedule(
        &mut store,
        CreateScheduleRequest {
            days_of_week: "1,2,3".to_string(),
            start_time: "25:00".to_string(),
            end_time: "12:00".to_string(),
            distraction_budget_secs: 600,
        },
    );
    assert!(bad.is_err());
    let bad = create_focus_schedule(
        &mut store,
        CreateScheduleRequest {
            days_of_week: "8".to_string(),
            start_time: "09:00".to_string(),
            end_time: "12:00".to_string(),
            distraction_budget_secs: 600,
        },
    );
    assert!(bad.is_err());
    let bad = create_focus_schedule(
        &mut store,
        CreateScheduleRequest {
            days_of_week: "1".to_string(),
            start_time: "09:00".to_string(),
            end_time: "12:00".to_string(),
            distraction_budget_secs: -1,
        },
    );
    assert!(bad.is_err());

    let updated = update_focus_schedule(
        &mut store,
        UpdateScheduleRequest {
            id: created.id,
            days_of_week: "6,7".to_string(),
            start_time: "10:00".to_string(),
            end_time: "14:00".to_string(),
            distraction_budget_secs: 300,
            enabled: false,
        },
    )
    .unwrap();
    assert_eq!(updated.days_of_week, "6,7");
    assert!(!updated.enabled);

    // A missing id is reported as not found.
    let missing = update_focus_schedule(
        &mut store,
        UpdateScheduleRequest {
            id: 99999,
            days_of_week: "1".to_string(),
            start_time: "10:00".to_string(),
            end_time: "14:00".to_string(),
            distraction_budget_secs: 300,
            enabled: true,
        },
    );
    assert!(missing.is_err());
    assert_eq!(missing.unwrap_err().user_message(), "Schedule not found");

    let all = get_focus_schedules(&store).unwrap();
    assert_eq!(all.len(), 1);

    assert!(delete_focus_schedule(&mut store, created.id).unwrap());
    assert!(!delete_focus_schedule(&mut store, created.id).unwrap());
}

#[test]
fn test_delete_category_blocked_while_referenced() {
    let mut store = setup_store();
    let mut categorizer = Categorizer::new(&store).unwrap();

    let created = create_category(&mut store, "Writing", 1).unwrap();
    let rule =
        create_rule(&mut store, &mut categorizer, "scrivener", "app", created.id, 10).unwrap();

    // Deletion is refused while a rule references the category.
    let blocked = delete_category(&mut store, created.id);
    assert!(blocked.is_err());
    assert_eq!(
        blocked.unwrap_err().user_message(),
        "Cannot delete: it is referenced by rules or activities"
    );

    // Once the rule is gone, deletion goes through.
    assert!(delete_rule(&mut store, &mut categorizer, rule.id).unwrap());
    assert!(delete_category(&mut store, created.id).unwrap());
}

#[test]
fn test_check_focus_schedules_runs() {
    let mut store = setup_store();
    let manager = FocusManager::new();
    check_focus_schedules(&manager, &mut store).unwrap();
}
