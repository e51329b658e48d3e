use foxus::activity::Activity;
use foxus::category::Category;
use foxus::stats::{calculate_productivity_totals, get_today_stats_at, get_weekly_stats_at};
use foxus::store::{Store, migrate};

fn setup_store() -> Store {
    let conn = rusqlite::Connection::open_in_memory().unwrap();
    let mut store = Store::from_connection(conn);
    migrate(&mut store).unwrap();
    store
}

fn calculate_stats(store: &Store, categories: &Vec<Category>, start: i64, end: i64) -> (i32, i32, i32) {
    let totals = Activity::total_duration_by_category(store, start, end).unwrap();
    calculate_productivity_totals(categories, &totals)
}

#[test]
fn test_calculate_stats_with_no_activities() {
    let store = setup_store();
    let categories = Category::find_all(&store).unwrap();

    let (productive, neutral, distracting) = calculate_stats(&store, &categories, 0, i64::MAX);

    assert_eq!(productive, 0);
    assert_eq!(neutral, 0);
    assert_eq!(distracting, 0);
}

#[test]
fn test_calculate_stats_aggregates_by_productivity() {
    let mut store = setup_store();
    let categories = Category::find_all(&store).unwrap();

    let coding = categories.iter().find(|c| c.name == "Coding").unwrap();
    let communication = categories.iter().find(|c| c.name == "Communication").unwrap();
    let entertainment = categories.iter().find(|c| c.name == "Entertainment").unwrap();

    let now = 1700000000i64;

    // Add activities in each category.
    let mut a1 = Activity::new(now, 100, "app", Some("VSCode"), None);
    a1.category_id = Some(coding.id);
    a1.save(&mut store).unwrap();

    let mut a2 = Activity::new(now + 100, 50, "app", Some("Slack"), None);
    a2.category_id = Some(communication.id);
    a2.save(&mut store).unwrap();

    let mut a3 = Activity::new(now + 200, 30, "app", Some("YouTube"), None);
    a3.category_id = Some(entertainment.id);
    a3.save(&mut store).unwrap();

    let (productive, neutral, distracting) =
        calculate_stats(&store, &categories, now - 10, now + 1000);

    assert_eq!(productive, 100); // Coding is productive (+1)
    assert_eq!(neutral, 50); // Communication is neutral (0)
    assert_eq!(distracting, 30); // Entertainment is distracting (-1)
}

#[test]
fn test_calculate_stats_respects_time_range() {
    let mut store = setup_store();
    let categories = Category::find_all(&store).unwrap();

    let coding = categories.iter().find(|c| c.name == "Coding").unwrap();

    // Add activity at timestamp 1000.
    let mut a1 = Activity::new(1000, 100, "app", Some("VSCode"), None);
    a1.category_id = Some(coding.id);
    a1.save(&mut store).unwrap();

    // Query range that excludes the activity.
    let (productive, neutral, distracting) = calculate_stats(&store, &categories, 2000, 3000);

    assert_eq!(productive, 0);
    assert_eq!(neutral, 0);
    assert_eq!(distracting, 0);

    // Query range that includes the activity.
    let (productive, _, _) = calculate_stats(&store, &categories, 500, 1500);

    assert_eq!(productive, 100);
}

#[test]
fn test_get_current_timestamp() {
    let ts = foxus::clock::now_secs();
    assert!(ts > 0);
}

#[test]
fn test_today_stats_include_top_apps() {
    let mut store = setup_store();
    let categories = Category::find_all(&store).unwrap();
    let coding = categories.iter().find(|c| c.name == "Coding").unwrap();

    let now = 1700000000i64;
    let mut a1 = Activity::new(now, 100, "app", Some("VSCode"), None);
    a1.category_id = Some(coding.id);
    a1.save(&mut store).unwrap();

    let resp = get_today_stats_at(&store, now + 100).unwrap();
    assert_eq!(resp.productive_secs, 100);
    assert_eq!(resp.top_apps.len(), 1);
    assert_eq!(resp.top_apps[0].name, "VSCode");
    assert_eq!(resp.top_apps[0].duration_secs, 100);
    assert_eq!(resp.top_apps[0].productivity, 1);
}

#[test]
fn test_weekly_stats_have_seven_days() {
    let mut store = setup_store();
    let categories = Category::find_all(&store).unwrap();
    let entertainment = categories.iter().find(|c| c.name == "Entertainment").unwrap();

    let now = 1700000000i64;
    let today_start = now - now % 86400;

    // One distracting sample today, one three days ago.
    let mut a1 = Activity::new(today_start + 100, 40, "app", Some("YouTube"), None);
    a1.category_id = Some(entertainment.id);
    a1.save(&mut store).unwrap();
    let mut a2 = Activity::new(today_start - 3 * 86400 + 100, 60, "app", Some("YouTube"), None);
    a2.category_id = Some(entertainment.id);
    a2.save(&mut store).unwrap();

    let resp = get_weekly_stats_at(&store, now).unwrap();
    assert_eq!(resp.daily_stats.len(), 7);
    assert_eq!(resp.daily_stats[6].date, today_start);
    assert_eq!(resp.daily_stats[6].distracting_secs, 40);
    assert_eq!(resp.daily_stats[3].distracting_secs, 60);
    assert_eq!(resp.total_distracting_secs, 100);
    assert_eq!(resp.total_productive_secs, 0);
}
