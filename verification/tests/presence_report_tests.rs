use anti_ripper::backfill::IdentityMapping;
use anti_ripper::ledger::SuspicionLedger;
use anti_ripper::presence::query_joins_in_window;
use anti_ripper::report::suspect_report;
use anti_ripper::structs::{RipperData, UserData};

fn record(name: &str, joined_at: u64) -> UserData {
    UserData { created_at: joined_at, display_name: String::from(name), user_id: None }
}

#[test]
fn window_query_is_inclusive_and_ordered() {
    let records = vec![
        record("A", 100),
        record("B", 200),
        record("C", 300),
        record("D", 400),
        record("E", 250),
    ];
    let hits = query_joins_in_window(&records, 200, 300);
    let names: Vec<&str> = hits.iter().map(|r| r.display_name.as_str()).collect();
    assert_eq!(names, vec!["B", "C", "E"]);
}

#[test]
fn window_query_of_empty_interval_is_empty() {
    let records = vec![record("A", 100)];
    assert!(query_joins_in_window(&records, 200, 300).is_empty());
    assert!(query_joins_in_window(&Vec::new(), 0, u64::MAX).is_empty());
}

#[test]
fn lookup_id_returns_the_stored_identity() {
    let mut mapping = IdentityMapping::new();
    mapping.record_identity(UserData {
        created_at: 1,
        display_name: String::from("Alice"),
        user_id: Some(String::from("usr_alice")),
    });
    assert_eq!(mapping.lookup_id(&String::from("Alice")), Some(String::from("usr_alice")));
    assert_eq!(mapping.lookup_id(&String::from("Bob")), None);
}

#[test]
fn report_lists_only_charged_names_with_their_identities() {
    let ledger = SuspicionLedger::from_entries(vec![
        RipperData { name: String::from("Alice"), count: 2 },
        RipperData { name: String::from("Bob"), count: 0 },
        RipperData { name: String::from("Carol"), count: 1 },
    ])
    .unwrap();
    let mut mapping = IdentityMapping::new();
    mapping.record_identity(UserData {
        created_at: 1,
        display_name: String::from("Alice"),
        user_id: Some(String::from("usr_alice")),
    });
    let rows = suspect_report(&ledger, &mapping);
    assert_eq!(rows.len(), 2);
    assert_eq!(rows[0].0, "Alice");
    assert_eq!(rows[0].1, Some(String::from("usr_alice")));
    assert_eq!(rows[0].2, 2);
    assert_eq!(rows[1].0, "Carol");
    assert_eq!(rows[1].1, None);
    assert_eq!(rows[1].2, 1);
}

#[test]
fn report_of_uncharged_ledger_is_empty() {
    let ledger = SuspicionLedger::from_entries(vec![RipperData {
        name: String::from("Bob"),
        count: 0,
    }])
    .unwrap();
    let mapping = IdentityMapping::new();
    assert!(suspect_report(&ledger, &mapping).is_empty());
}
