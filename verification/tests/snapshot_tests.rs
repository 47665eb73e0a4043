use anti_ripper::snapshot::{diff_snapshots, refresh_snapshot};
use anti_ripper::structs::{AvatarData, SaveData};

fn avatar(name: &str, updated: Option<u64>) -> AvatarData {
    AvatarData { name: String::from(name), created: 100, added: 200, updated }
}

fn snapshot(count: u32, avatars: Vec<AvatarData>) -> SaveData {
    let idents = avatars.iter().map(|a| format!("avtr_{}", a.name)).collect();
    SaveData { count, idents, avatar_list: avatars }
}

#[test]
fn grown_count_signals_new_theft() {
    // Previous snapshot counted 5 listings, the fresh state counts 6.
    let prev = snapshot(5, vec![avatar("A", Some(1))]);
    let cur = snapshot(6, vec![avatar("A", Some(1)), avatar("B", None)]);
    assert!(diff_snapshots(&prev, &cur));
}

#[test]
fn identical_state_signals_nothing() {
    // Same count, same per-entry last-update timestamps.
    let prev = snapshot(5, vec![avatar("A", Some(1)), avatar("B", None)]);
    let cur = snapshot(5, vec![avatar("A", Some(1)), avatar("B", None)]);
    assert!(!diff_snapshots(&prev, &cur));
}

#[test]
fn changed_update_timestamp_signals_new_theft() {
    let prev = snapshot(5, vec![avatar("A", Some(1)), avatar("B", None)]);
    let cur = snapshot(5, vec![avatar("A", Some(2)), avatar("B", None)]);
    assert!(diff_snapshots(&prev, &cur));
}

#[test]
fn update_appearing_signals_new_theft() {
    let prev = snapshot(5, vec![avatar("B", None)]);
    let cur = snapshot(5, vec![avatar("B", Some(7))]);
    assert!(diff_snapshots(&prev, &cur));
}

#[test]
fn vanished_entry_with_same_count_signals_nothing() {
    // A previously tracked name that no longer appears is not a changed
    // update timestamp, and the count did not grow.
    let prev = snapshot(5, vec![avatar("A", Some(1))]);
    let cur = snapshot(5, vec![avatar("C", Some(3))]);
    assert!(!diff_snapshots(&prev, &cur));
}

#[test]
fn shrunk_count_alone_signals_nothing() {
    let prev = snapshot(6, vec![avatar("A", Some(1))]);
    let cur = snapshot(5, vec![avatar("A", Some(1))]);
    assert!(!diff_snapshots(&prev, &cur));
}

#[test]
fn refresh_always_hands_back_the_fresh_state() {
    let prev = snapshot(5, vec![avatar("A", Some(1))]);
    let cur = snapshot(5, vec![avatar("A", Some(1))]);
    let (stored, changed) = refresh_snapshot(&prev, cur);
    // No signal, yet the snapshot to persist is the fresh state.
    assert!(!changed);
    assert_eq!(stored.count, 5);
    assert_eq!(stored.avatar_list.len(), 1);
    assert_eq!(stored.avatar_list[0].name, "A");
}
