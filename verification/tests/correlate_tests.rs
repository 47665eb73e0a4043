use anti_ripper::correlate::{apply_window, correlate_event, names_in_window, run_correlation_pass};
use anti_ripper::ledger::SuspicionLedger;
use anti_ripper::structs::{TheftEvent, UserData};

fn record(name: &str, joined_at: u64) -> UserData {
    UserData { created_at: joined_at, display_name: String::from(name), user_id: None }
}

const T: u64 = 10_000_000_000;
const MIN_MS: u64 = 60_000;

#[test]
fn ten_minute_window_counts_each_distinct_name_once() {
    // A window around T holding Bob at T-1min and Carol at T+2min, with
    // duplicate join rows for both names inside the window: exactly two
    // increments land, Bob one and Carol one.
    let records = vec![
        record("Bob", T - MIN_MS),
        record("Carol", T + 2 * MIN_MS),
        record("Bob", T - MIN_MS),
        record("Bob", T + MIN_MS),
        record("Carol", T + 2 * MIN_MS),
    ];
    let mut ledger = SuspicionLedger::new();
    apply_window(&mut ledger, &records, T);
    assert_eq!(ledger.get_count(&String::from("Bob")), 1);
    assert_eq!(ledger.get_count(&String::from("Carol")), 1);
    assert_eq!(ledger.get_all().len(), 2);
}

#[test]
fn many_rows_one_name_is_a_single_hit() {
    let records = vec![
        record("Alice", T - 2 * MIN_MS),
        record("Alice", T - MIN_MS),
        record("Alice", T),
        record("Alice", T + MIN_MS),
    ];
    let mut ledger = SuspicionLedger::new();
    apply_window(&mut ledger, &records, T);
    assert_eq!(ledger.get_count(&String::from("Alice")), 1);
}

#[test]
fn window_bounds_are_inclusive() {
    let records = vec![
        record("LowerEdge", T - 5 * MIN_MS),
        record("UpperEdge", T + 5 * MIN_MS),
        record("TooEarly", T - 5 * MIN_MS - 1),
        record("TooLate", T + 5 * MIN_MS + 1),
    ];
    let mut ledger = SuspicionLedger::new();
    apply_window(&mut ledger, &records, T);
    assert_eq!(ledger.get_count(&String::from("LowerEdge")), 1);
    assert_eq!(ledger.get_count(&String::from("UpperEdge")), 1);
    assert_eq!(ledger.get_count(&String::from("TooEarly")), 0);
    assert_eq!(ledger.get_count(&String::from("TooLate")), 0);
}

#[test]
fn names_in_window_is_distinct_and_complete() {
    let records = vec![
        record("Bob", T - MIN_MS),
        record("Carol", T + 2 * MIN_MS),
        record("Bob", T),
        record("Dave", T + 20 * MIN_MS),
    ];
    let names = names_in_window(&records, T);
    assert_eq!(names.len(), 2);
    assert!(names.contains(&String::from("Bob")));
    assert!(names.contains(&String::from("Carol")));
    assert!(!names.contains(&String::from("Dave")));
}

#[test]
fn event_with_last_updated_applies_both_windows() {
    // Eve is present around the creation time and around the update
    // time: the two windows are independent and both charge her.
    let u: u64 = T + 100 * MIN_MS;
    let records = vec![
        record("Eve", T - MIN_MS),
        record("Eve", u + MIN_MS),
        record("Frank", u + 2 * MIN_MS),
    ];
    let event = TheftEvent {
        ident: String::from("avtr_1"),
        avatar_name: String::from("MyAvatar"),
        created_at: T,
        last_updated: Some(u),
    };
    let mut ledger = SuspicionLedger::new();
    correlate_event(&mut ledger, &records, &event);
    assert_eq!(ledger.get_count(&String::from("Eve")), 2);
    assert_eq!(ledger.get_count(&String::from("Frank")), 1);
}

#[test]
fn event_without_last_updated_applies_one_window() {
    let records = vec![record("Eve", T - MIN_MS)];
    let event = TheftEvent {
        ident: String::from("avtr_1"),
        avatar_name: String::from("MyAvatar"),
        created_at: T,
        last_updated: None,
    };
    let mut ledger = SuspicionLedger::new();
    correlate_event(&mut ledger, &records, &event);
    assert_eq!(ledger.get_count(&String::from("Eve")), 1);
}

#[test]
fn completed_scan_is_not_rerun() {
    // With the scan-complete checkpoint set, a second pass over the
    // same events leaves every count exactly as the first pass left it.
    let records = vec![record("Bob", T - MIN_MS), record("Carol", T + 2 * MIN_MS)];
    let events = vec![TheftEvent {
        ident: String::from("avtr_1"),
        avatar_name: String::from("MyAvatar"),
        created_at: T,
        last_updated: None,
    }];
    let mut ledger = SuspicionLedger::new();
    let done = run_correlation_pass(&mut ledger, false, &events, &records);
    assert!(done);
    assert_eq!(ledger.get_count(&String::from("Bob")), 1);
    assert_eq!(ledger.get_count(&String::from("Carol")), 1);

    let done_again = run_correlation_pass(&mut ledger, done, &events, &records);
    assert!(done_again);
    assert_eq!(ledger.get_count(&String::from("Bob")), 1);
    assert_eq!(ledger.get_count(&String::from("Carol")), 1);
}

#[test]
fn pass_charges_across_multiple_events() {
    let records = vec![
        record("Bob", T - MIN_MS),
        record("Carol", T + 200 * MIN_MS),
    ];
    let events = vec![
        TheftEvent {
            ident: String::from("avtr_1"),
            avatar_name: String::from("A"),
            created_at: T,
            last_updated: None,
        },
        TheftEvent {
            ident: String::from("avtr_2"),
            avatar_name: String::from("B"),
            created_at: T + 200 * MIN_MS,
            last_updated: None,
        },
    ];
    let mut ledger = SuspicionLedger::new();
    run_correlation_pass(&mut ledger, false, &events, &records);
    assert_eq!(ledger.get_count(&String::from("Bob")), 1);
    assert_eq!(ledger.get_count(&String::from("Carol")), 1);
}

#[test]
fn empty_window_changes_nothing() {
    let records = vec![record("Bob", T + 20 * MIN_MS)];
    let mut ledger = SuspicionLedger::new();
    apply_window(&mut ledger, &records, T);
    assert!(ledger.get_all().is_empty());
}
