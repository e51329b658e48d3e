use foxus::categorizer::Categorizer;
use foxus::focus::FocusManager;
use foxus::host::{
    IncomingMessage, OutgoingMessage, decode_frame_len, encode_frame_len, extract_domain,
    frame_len_ok, handle_message,
};
use foxus::store::{Store, migrate};

fn setup_store() -> Store {
    let conn = rusqlite::Connection::open_in_memory().unwrap();
    let mut store = Store::from_connection(conn);
    migrate(&mut store).unwrap();
    store
}

#[test]
fn test_extract_domain() {
    assert_eq!(extract_domain("https://www.reddit.com/r/rust"), "www.reddit.com");
    assert_eq!(extract_domain("http://github.com"), "github.com");
    assert_eq!(extract_domain("https://docs.rs/tauri/latest"), "docs.rs");
}

#[test]
fn test_extract_domain_without_scheme() {
    assert_eq!(extract_domain("example.org/path"), "example.org");
    assert_eq!(extract_domain(""), "");
}

#[test]
fn test_frame_len_round_trip() {
    for len in [0u32, 1, 255, 256, 65535, 1048576, u32::MAX] {
        let bytes = encode_frame_len(len);
        assert_eq!(decode_frame_len(&bytes), len);
    }
    assert_eq!(decode_frame_len(&[1, 0, 0, 0]), 1);
    assert_eq!(decode_frame_len(&[0, 1, 0, 0]), 256);
}

#[test]
fn test_frame_len_cap() {
    assert!(frame_len_ok(0));
    assert!(frame_len_ok(1024 * 1024));
    assert!(!frame_len_ok(1024 * 1024 + 1));
}

#[test]
fn test_handle_request_state() {
    let mut store = setup_store();
    let categorizer = Categorizer::new(&store).unwrap();
    let mut manager = FocusManager::new();

    let reply = handle_message(&mut manager, &mut store, &categorizer, IncomingMessage::RequestState);
    match reply {
        Some(OutgoingMessage::State { focus_active, budget_remaining, .. }) => {
            assert!(!focus_active);
            assert_eq!(budget_remaining, 0);
        },
        other => panic!("expected a state reply, got {:?}", other),
    }
}

#[test]
fn test_handle_activity_records_sample() {
    let mut store = setup_store();
    let categorizer = Categorizer::new(&store).unwrap();
    let mut manager = FocusManager::new();

    let reply = handle_message(
        &mut manager,
        &mut store,
        &categorizer,
        IncomingMessage::Activity {
            url: "https://www.reddit.com/r/rust".to_string(),
            title: "rust".to_string(),
            timestamp: 0,
        },
    );
    assert!(reply.is_none());

    let activities = foxus::activity::Activity::find_in_range(&store, 0, i64::MAX).unwrap();
    assert_eq!(activities.len(), 1);
    assert_eq!(activities[0].source, "browser");
    assert_eq!(activities[0].domain, Some("www.reddit.com".to_string()));
    assert_eq!(activities[0].url, Some("https://www.reddit.com/r/rust".to_string()));
}

#[test]
fn test_handle_use_distraction_time_replies() {
    let mut store = setup_store();
    let categorizer = Categorizer::new(&store).unwrap();
    let mut manager = FocusManager::new();

    // No session: no reply.
    let reply = handle_message(
        &mut manager,
        &mut store,
        &categorizer,
        IncomingMessage::UseDistractionTime,
    );
    assert!(reply.is_none());

    // A running session with budget left gets an updated budget. The
    // no-session call above armed the rate limiter, so clear it first.
    manager.start_session(&mut store, 600).unwrap();
    manager.reset_rate_limit();
    let reply = handle_message(
        &mut manager,
        &mut store,
        &categorizer,
        IncomingMessage::UseDistractionTime,
    );
    match reply {
        Some(OutgoingMessage::BudgetUpdated { remaining }) => assert_eq!(remaining, 570),
        other => panic!("expected a budget update, got {:?}", other),
    }

    // Once the budget runs out the reply is a hard block.
    manager.reset_rate_limit();
    let mut session = foxus::session::FocusSession::find_active(&store).unwrap().unwrap();
    session.add_distraction_time(&mut store, 600).unwrap();
    let reply = handle_message(
        &mut manager,
        &mut store,
        &categorizer,
        IncomingMessage::UseDistractionTime,
    );
    assert!(matches!(reply, Some(OutgoingMessage::HardBlocked)));
}
