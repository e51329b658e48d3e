use foxus::activity::Activity;
use foxus::category::Category;
use foxus::rule::{MatchType, Rule};
use foxus::store::{Store, migrate};

fn setup_store() -> Store {
    let conn = rusqlite::Connection::open_in_memory().unwrap();
    let mut store = Store::from_connection(conn);
    migrate(&mut store).unwrap();
    store
}

#[test]
fn test_find_all_returns_default_categories() {
    let store = setup_store();
    let categories = Category::find_all(&store).unwrap();
    assert!(categories.len() >= 5);
    assert!(categories.iter().any(|c| c.name == "Coding"));
}

#[test]
fn test_create_category() {
    let mut store = setup_store();
    let cat = Category::create(&mut store, "Testing", 1).unwrap();
    assert_eq!(cat.name, "Testing");
    assert_eq!(cat.productivity, 1);

    let found = Category::find_by_id(&store, cat.id).unwrap();
    assert_eq!(found, Some(cat));
}

#[test]
fn test_find_all_returns_default_rules() {
    let store = setup_store();
    let rules = Rule::find_all(&store).unwrap();
    // After migrations, we should have default rules seeded.
    assert!(!rules.is_empty(), "Should have default rules after migrations");

    // Verify some specific default rules exist.
    assert!(
        rules.iter().any(|r| r.pattern == "code" && r.match_type == MatchType::App),
        "Should have 'code' app rule"
    );
    assert!(
        rules.iter().any(|r| r.pattern == "youtube.com" && r.match_type == MatchType::Domain),
        "Should have 'youtube.com' domain rule"
    );
}

#[test]
fn test_create_rule() {
    let mut store = setup_store();

    let coding = Category::find_all(&store)
        .unwrap()
        .into_iter()
        .find(|c| c.name == "Coding")
        .unwrap();

    let rule = Rule::create(&mut store, "code", MatchType::App, coding.id, 10).unwrap();

    assert_eq!(rule.pattern, "code");
    assert_eq!(rule.match_type, MatchType::App);
    assert_eq!(rule.category_id, coding.id);
    assert_eq!(rule.priority, 10);
}

#[test]
fn test_find_all_returns_rules_ordered_by_priority_desc() {
    let mut store = setup_store();

    let coding = Category::find_all(&store)
        .unwrap()
        .into_iter()
        .find(|c| c.name == "Coding")
        .unwrap();

    // Add rules with different priorities.
    Rule::create(&mut store, "low_priority", MatchType::App, coding.id, 5).unwrap();
    Rule::create(&mut store, "high_priority", MatchType::App, coding.id, 20).unwrap();

    let rules = Rule::find_all(&store).unwrap();

    // Verify ordering: highest priority first.
    // high_priority (20) should come before default rules (10) and low_priority (5).
    assert_eq!(rules[0].pattern, "high_priority", "Highest priority rule should be first");
    assert_eq!(rules[0].priority, 20);

    // low_priority should be last.
    let last_rule = rules.last().unwrap();
    assert_eq!(last_rule.pattern, "low_priority", "Lowest priority rule should be last");
    assert_eq!(last_rule.priority, 5);
}

#[test]
fn test_match_type_as_str() {
    assert_eq!(MatchType::App.as_str(), "app");
    assert_eq!(MatchType::Domain.as_str(), "domain");
    assert_eq!(MatchType::Title.as_str(), "title");
}

#[test]
fn test_match_type_from_str() {
    assert_eq!(MatchType::from_str("app"), Some(MatchType::App));
    assert_eq!(MatchType::from_str("domain"), Some(MatchType::Domain));
    assert_eq!(MatchType::from_str("title"), Some(MatchType::Title));
    assert_eq!(MatchType::from_str("invalid"), None);
    assert_eq!(MatchType::from_str(""), None);
}

#[test]
fn test_match_type_roundtrip() {
    for mt in [MatchType::App, MatchType::Domain, MatchType::Title] {
        assert_eq!(MatchType::from_str(mt.as_str()), Some(mt));
    }
}

#[test]
fn test_save_and_find_activity() {
    let mut store = setup_store();
    let now = 1700000000i64;

    let mut activity = Activity::new(now, 5, "app", Some("VSCode"), Some("main.rs"));
    activity.save(&mut store).unwrap();

    let found = Activity::find_in_range(&store, now - 10, now + 10).unwrap();
    assert_eq!(found.len(), 1);
    assert_eq!(found[0].app_name, Some("VSCode".to_string()));
}

#[test]
fn test_total_duration_by_category() {
    let mut store = setup_store();
    let now = 1700000000i64;

    let categories = Category::find_all(&store).unwrap();
    let coding_id = categories.iter().find(|c| c.name == "Coding").unwrap().id;

    let mut a1 = Activity::new(now, 30, "app", Some("VSCode"), None);
    a1.category_id = Some(coding_id);
    a1.save(&mut store).unwrap();

    let mut a2 = Activity::new(now + 30, 20, "app", Some("VSCode"), None);
    a2.category_id = Some(coding_id);
    a2.save(&mut store).unwrap();

    let totals = Activity::total_duration_by_category(&store, now - 10, now + 100).unwrap();
    let coding_total = totals.iter().find(|(id, _)| *id == coding_id);
    assert_eq!(coding_total, Some(&(coding_id, 50)));
}

#[test]
fn test_tracker_saves_activities_to_db() {
    let mut store = setup_store();
    let categorizer = foxus::categorizer::Categorizer::new(&store).unwrap();

    // Simulate what the tracker does when it detects activity.
    let timestamp = 1700000000i64;
    let config = foxus::tracker::TrackerConfig { poll_interval_secs: 5, idle_threshold_secs: 120 };
    let window = foxus::tracker::ActiveWindow {
        app_name: "TestApp".to_string(),
        window_title: "Test Window".to_string(),
        bundle_id: None,
    };
    let recorded = foxus::tracker::sample_cycle(
        &mut store,
        &categorizer,
        &config,
        0,
        Some(window),
        timestamp,
    )
    .unwrap();
    assert!(recorded);

    // Verify activity was saved to the database.
    let activities = Activity::find_in_range(&store, 0, i64::MAX).unwrap();
    assert_eq!(activities.len(), 1, "Expected exactly one activity to be saved");

    let saved = &activities[0];
    assert_eq!(saved.source, "app");
    assert_eq!(saved.app_name, Some("TestApp".to_string()));
    assert_eq!(saved.window_title, Some("Test Window".to_string()));
    let category_id = categorizer.categorize_app("TestApp", Some("Test Window"));
    assert_eq!(saved.category_id, Some(category_id));
    assert_eq!(saved.duration_secs, 5);
}

#[test]
fn test_sample_cycle_skips_when_idle() {
    let mut store = setup_store();
    let categorizer = foxus::categorizer::Categorizer::new(&store).unwrap();
    let config = foxus::tracker::TrackerConfig { poll_interval_secs: 5, idle_threshold_secs: 120 };
    let window = foxus::tracker::ActiveWindow {
        app_name: "TestApp".to_string(),
        window_title: "Test Window".to_string(),
        bundle_id: None,
    };

    // At or over the idle threshold nothing is recorded.
    let recorded =
        foxus::tracker::sample_cycle(&mut store, &categorizer, &config, 120, Some(window), 1000)
            .unwrap();
    assert!(!recorded);

    // Without a focused window nothing is recorded either.
    let recorded =
        foxus::tracker::sample_cycle(&mut store, &categorizer, &config, 0, None, 1000).unwrap();
    assert!(!recorded);

    let activities = Activity::find_in_range(&store, 0, i64::MAX).unwrap();
    assert!(activities.is_empty());
}
