use anti_ripper::feed::{fresh_idents, make_event, page_idents};
use anti_ripper::startup::plan_startup;
use anti_ripper::structs::{
    Avatar, AvatarList, Item, MoreFromAuthor, PcInfo, avatar_entry,
};

fn listed(ident: &str) -> Avatar {
    Avatar {
        ident: String::from(ident),
        img: String::from("img"),
        isNSFW: 0,
        image: String::from("image"),
    }
}

#[test]
fn page_idents_keeps_page_order() {
    let page = AvatarList { count: 3, pages: 1, avatars: vec![listed("a"), listed("b"), listed("c")] };
    let idents = page_idents(&page);
    assert_eq!(idents, vec!["a", "b", "c"]);
}

#[test]
fn fresh_idents_drops_seen_and_duplicates() {
    let seen = vec![String::from("a"), String::from("b")];
    let batch = vec![
        String::from("b"),
        String::from("c"),
        String::from("c"),
        String::from("d"),
        String::from("a"),
    ];
    let fresh = fresh_idents(&seen, &batch);
    assert_eq!(fresh.len(), 2);
    assert!(fresh.contains(&String::from("c")));
    assert!(fresh.contains(&String::from("d")));
}

#[test]
fn fresh_idents_of_disjoint_batch_keeps_all() {
    let seen: Vec<String> = Vec::new();
    let batch = vec![String::from("x"), String::from("y")];
    let fresh = fresh_idents(&seen, &batch);
    assert_eq!(fresh.len(), 2);
}

#[test]
fn event_needs_a_creation_timestamp() {
    // A detail record without a creation time cannot be correlated and
    // is skipped.
    assert!(make_event(String::from("a"), String::from("A"), None, Some(5)).is_none());
    let e = make_event(String::from("a"), String::from("A"), Some(7), Some(5)).unwrap();
    assert_eq!(e.ident, "a");
    assert_eq!(e.avatar_name, "A");
    assert_eq!(e.created_at, 7);
    assert_eq!(e.last_updated, Some(5));
}

#[test]
fn avatar_entry_tracks_the_detail_timestamps() {
    let item = Item {
        isLoggedIn: false,
        isPurchased: false,
        isNSFW: 0,
        has360Image: false,
        hierarchy: String::from("avatars"),
        price: 0,
        authorName: String::from("author"),
        authorId: Some(String::from("usr_1")),
        name: String::from("MyAvatar"),
        description: String::from("d"),
        image: String::from("i"),
        status: String::from("public"),
        platforms: vec![String::from("pc")],
        pc: PcInfo {
            version: 1,
            size: 10,
            unityVersion: String::from("2019"),
            platform: String::from("pc"),
            dateAdded: 333,
            lastUpdated: Some(444),
            created: 222,
        },
        moreFromAuthor: MoreFromAuthor { avatars: vec![], avatarsCount: 0 },
    };
    let entry = avatar_entry(&item);
    assert_eq!(entry.name, "MyAvatar");
    assert_eq!(entry.created, 222);
    assert_eq!(entry.added, 333);
    assert_eq!(entry.updated, Some(444));
}

#[test]
fn stale_scan_state_is_cleared_once() {
    // Scan marker from the first release: cleared, scan re-runs.
    let p = plan_startup(true, true, true, true, true, true);
    assert!(p.clear_scan_state);
    assert!(p.run_scan);
    // Scan marker without any version marker: same.
    let p = plan_startup(true, true, true, true, false, false);
    assert!(p.clear_scan_state);
    assert!(p.run_scan);
    // Scan marker from the current version: kept, scan skipped.
    let p = plan_startup(true, true, true, true, true, false);
    assert!(!p.clear_scan_state);
    assert!(!p.run_scan);
}

#[test]
fn missing_markers_gate_their_phases() {
    let p = plan_startup(false, false, false, false, false, false);
    assert!(p.need_login);
    assert!(p.run_backfill);
    assert!(p.fetch_own_id);
    assert!(p.run_scan);
    assert!(!p.clear_scan_state);

    let p = plan_startup(true, true, true, false, true, false);
    assert!(!p.need_login);
    assert!(!p.run_backfill);
    assert!(!p.fetch_own_id);
    assert!(p.run_scan);
}
