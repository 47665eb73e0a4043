use anti_ripper::backfill::{names_to_resolve, backfill_complete, IdentityMapping};
use anti_ripper::structs::UserData;

fn record(name: &str, joined_at: u64) -> UserData {
    UserData { created_at: joined_at, display_name: String::from(name), user_id: None }
}

fn entry(name: &str, id: &str, first_seen: u64) -> UserData {
    UserData {
        created_at: first_seen,
        display_name: String::from(name),
        user_id: Some(String::from(id)),
    }
}

#[test]
fn resolve_list_skips_mapped_names_and_deduplicates() {
    let records = vec![
        record("Alice", 1),
        record("Bob", 2),
        record("Alice", 3),
        record("Carol", 4),
        record("Bob", 5),
    ];
    let mut mapping = IdentityMapping::new();
    mapping.record_identity(entry("Bob", "usr_bob", 2));
    let todo = names_to_resolve(&records, &mapping);
    assert_eq!(todo.len(), 2);
    assert!(todo.contains(&String::from("Alice")));
    assert!(todo.contains(&String::from("Carol")));
    assert!(!todo.contains(&String::from("Bob")));
}

#[test]
fn restart_after_interrupt_resolves_only_missing_names() {
    // First pass: three unmapped names; it records one of them, then
    // stops.  The restarted pass sees exactly the other two.
    let records = vec![record("Alice", 1), record("Bob", 2), record("Carol", 3)];
    let mut mapping = IdentityMapping::new();
    let first = names_to_resolve(&records, &mapping);
    assert_eq!(first.len(), 3);

    mapping.record_identity(entry("Alice", "usr_alice", 1));

    let second = names_to_resolve(&records, &mapping);
    assert_eq!(second.len(), 2);
    assert!(!second.contains(&String::from("Alice")));
    assert!(second.contains(&String::from("Bob")));
    assert!(second.contains(&String::from("Carol")));
}

#[test]
fn full_completion_maps_each_distinct_name_once() {
    let records = vec![
        record("Alice", 1),
        record("Bob", 2),
        record("Alice", 3),
        record("Carol", 4),
    ];
    let mut mapping = IdentityMapping::new();
    for (i, name) in names_to_resolve(&records, &mapping).iter().enumerate() {
        mapping.record_identity(entry(name, &format!("usr_{i}"), i as u64));
    }
    // Three distinct names in the log, three entries in the mapping,
    // and nothing left to resolve.
    assert_eq!(mapping.get_all().len(), 3);
    assert!(names_to_resolve(&records, &mapping).is_empty());
}

#[test]
fn record_identity_overwrites_by_key() {
    let mut mapping = IdentityMapping::new();
    mapping.record_identity(entry("Alice", "usr_old", 1));
    mapping.record_identity(entry("Alice", "usr_new", 9));
    assert_eq!(mapping.get_all().len(), 1);
    assert_eq!(mapping.get_all()[0].user_id.as_deref(), Some("usr_new"));
    assert!(mapping.contains_name(&String::from("Alice")));
}

#[test]
fn mapping_from_entries_rejects_duplicates() {
    let dup = vec![entry("Alice", "usr_a", 1), entry("Alice", "usr_b", 2)];
    assert!(IdentityMapping::from_entries(dup).is_none());
    let ok = vec![entry("Alice", "usr_a", 1), entry("Bob", "usr_b", 2)];
    assert!(IdentityMapping::from_entries(ok).is_some());
}

#[test]
fn checkpoint_is_earned_only_by_a_clean_pass() {
    assert!(backfill_complete(0));
    assert!(!backfill_complete(1));
    assert!(!backfill_complete(17));
}
