use foxus::categorizer::Categorizer;
use foxus::category::Category;
use foxus::rule::{MatchType, Rule};
use foxus::store::{Store, migrate};

fn setup_store() -> Store {
    let conn = rusqlite::Connection::open_in_memory().unwrap();
    let mut store = Store::from_connection(conn);
    migrate(&mut store).unwrap();
    store
}

fn find_category(store: &Store, name: &str) -> Category {
    Category::find_all(store)
        .unwrap()
        .into_iter()
        .find(|c| c.name == name)
        .unwrap()
}

#[test]
fn test_categorize_with_no_rules_returns_default() {
    let store = setup_store();
    let categorizer = Categorizer::new(&store).unwrap();

    let category_id = categorizer.categorize_app("SomeApp", None);

    let uncategorized = find_category(&store, "Uncategorized");
    assert_eq!(category_id, uncategorized.id);
}

#[test]
fn test_categorize_app_with_rule() {
    let mut store = setup_store();
    let coding = find_category(&store, "Coding");

    Rule::create(&mut store, "code", MatchType::App, coding.id, 10).unwrap();

    let categorizer = Categorizer::new(&store).unwrap();
    let category_id = categorizer.categorize_app("Visual Studio Code", None);

    assert_eq!(category_id, coding.id);
}

#[test]
fn test_categorize_domain() {
    let mut store = setup_store();
    let entertainment = find_category(&store, "Entertainment");

    Rule::create(&mut store, "reddit.com", MatchType::Domain, entertainment.id, 10).unwrap();

    let categorizer = Categorizer::new(&store).unwrap();
    let category_id = categorizer.categorize_url("reddit.com");

    assert_eq!(category_id, entertainment.id);
}

#[test]
fn test_pattern_with_wildcard() {
    let mut store = setup_store();
    let coding = find_category(&store, "Coding");

    Rule::create(&mut store, "*.github.*", MatchType::Domain, coding.id, 10).unwrap();

    let categorizer = Categorizer::new(&store).unwrap();

    assert_eq!(categorizer.categorize_url("www.github.com"), coding.id);
    assert_eq!(categorizer.categorize_url("gist.github.io"), coding.id);
}

#[test]
fn test_pattern_matches_case_insensitive() {
    assert!(Categorizer::pattern_matches("code", "Visual Studio CODE"));
    assert!(Categorizer::pattern_matches("CODE", "visual studio code"));
}

#[test]
fn test_pattern_matches_wildcard() {
    assert!(Categorizer::pattern_matches("*.github.*", "www.github.com"));
    assert!(Categorizer::pattern_matches("*git*", "github.com"));
    assert!(!Categorizer::pattern_matches("*.github.*", "gitlab.com"));
}

#[test]
fn test_pattern_matches_segments_in_order() {
    // Segments must occur in order over disjoint ranges.
    assert!(Categorizer::pattern_matches("*foo*bar*", "xx foo yy bar zz"));
    assert!(!Categorizer::pattern_matches("*foo*bar*", "bar foo"));
    assert!(!Categorizer::pattern_matches("*foobar*", "fooba"));
}

#[test]
fn test_pattern_matches_plain_substring() {
    assert!(Categorizer::pattern_matches("editor", "Fancy Editor Pro"));
    assert!(!Categorizer::pattern_matches("editor", "terminal"));
    // An empty pattern matches anything, as a trivial substring.
    assert!(Categorizer::pattern_matches("", "anything"));
}

#[test]
fn test_categorize_app_with_window_title_rule() {
    let mut store = setup_store();
    let coding = find_category(&store, "Coding");

    Rule::create(&mut store, "pull request", MatchType::Title, coding.id, 10).unwrap();

    let categorizer = Categorizer::new(&store).unwrap();

    // Should match based on window title.
    let category_id = categorizer.categorize_app("Firefox", Some("Pull Request #123 - GitHub"));
    assert_eq!(category_id, coding.id);

    // Should not match when title doesn't match.
    let uncategorized = find_category(&store, "Uncategorized");
    let category_id = categorizer.categorize_app("Firefox", Some("YouTube - Videos"));
    assert_eq!(category_id, uncategorized.id);
}

#[test]
fn test_reload_picks_up_new_rules() {
    let mut store = setup_store();
    let mut categorizer = Categorizer::new(&store).unwrap();

    let uncategorized = find_category(&store, "Uncategorized");

    // "MyNewApp" doesn't match any default rules, should return uncategorized.
    assert_eq!(categorizer.categorize_app("MyNewApp", None), uncategorized.id);

    // Add a rule for MyNewApp.
    let coding = find_category(&store, "Coding");
    Rule::create(&mut store, "mynewapp", MatchType::App, coding.id, 10).unwrap();

    // Reload and check new rule is applied.
    categorizer.reload(&store).unwrap();
    assert_eq!(categorizer.categorize_app("MyNewApp", None), coding.id);
}

#[test]
fn test_higher_priority_rule_wins_when_both_match() {
    let mut store = setup_store();
    let coding = find_category(&store, "Coding");
    let entertainment = find_category(&store, "Entertainment");

    // Lower priority rule matches broadly (any app containing "editor").
    Rule::create(&mut store, "editor", MatchType::App, entertainment.id, 5).unwrap();
    // Higher priority rule matches more specifically "fancy editor".
    Rule::create(&mut store, "fancy editor", MatchType::App, coding.id, 20).unwrap();

    let categorizer = Categorizer::new(&store).unwrap();

    // "Fancy Editor Pro" matches both "editor" and "fancy editor".
    // Should use the higher priority rule (priority 20 -> Coding).
    let category_id = categorizer.categorize_app("Fancy Editor Pro", None);
    assert_eq!(category_id, coding.id, "Higher priority rule should win");

    // "Simple Editor" only matches "editor" rule.
    let category_id = categorizer.categorize_app("Simple Editor", None);
    assert_eq!(category_id, entertainment.id, "Should match the only applicable rule");
}
