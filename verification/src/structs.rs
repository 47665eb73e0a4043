//! Data model of the engine.
//!
//! Timestamps are kept as milliseconds since the Unix epoch (`u64`), so
//! that ordinary integer comparison is chronological comparison; callers
//! that read the session log or the presence store convert its textual
//! timestamps at that boundary.

use vstd::prelude::*;

verus! {

/// One presence record: a display name joined a session at a point in
/// time.  Also used as an identity-mapping entry, where `created_at` is
/// the time the name was first seen and `user_id` the resolved platform
/// identity.
#[derive(Clone)]
pub struct UserData {
    pub created_at: u64,
    pub display_name: String,
    pub user_id: Option<String>,
}

/// One suspicion-ledger entry: how many correlation hits a display name
/// has accumulated.
#[derive(Clone)]
pub struct RipperData {
    pub name: String,
    pub count: u64,
}

/// The persisted avatar snapshot: the marketplace state as of the last
/// full scan, used only for change detection.
pub struct SaveData {
    pub count: u32,
    pub idents: Vec<String>,
    pub avatar_list: Vec<AvatarData>,
}

/// A resolved identity pair as returned by the identity lookup
/// collaborator.
pub struct ParseData {
    pub display_name: String,
    pub id: String,
}

/// Per-avatar state tracked inside a snapshot.
#[derive(Clone)]
pub struct AvatarData {
    pub name: String,
    pub created: u64,
    pub added: u64,
    pub updated: Option<u64>,
}

/// One search-result row of the marketplace feed.
#[allow(non_snake_case)]
pub struct SearchData {
    pub name: String,
    pub img: String,
    pub ident: String,
    pub status: String,
    pub _360image: u32,
    pub isNSFW: u32,
    pub purchases: u32,
    pub platforms: Vec<String>,
    pub image: String,
}

/// One page of the paginated avatar search: the declared totals and the
/// rows of this page.
pub struct AvatarList {
    pub count: u32,
    pub pages: u32,
    pub avatars: Vec<Avatar>,
}

/// A node of an item's category hierarchy.
pub struct Hierarchy {
    pub name: String,
}

/// Platform-specific detail of a listed avatar, including the
/// timestamps the correlator works from.
#[allow(non_snake_case)]
pub struct PcInfo {
    pub version: u32,
    pub size: u64,
    pub unityVersion: String,
    pub platform: String,
    pub dateAdded: u64,
    pub lastUpdated: Option<u64>,
    pub created: u64,
}

/// A single avatar row inside a search page.
#[allow(non_snake_case)]
pub struct Avatar {
    pub ident: String,
    pub img: String,
    pub isNSFW: u32,
    pub image: String,
}

/// Further listings by the same author, as the detail endpoint reports
/// them.
#[allow(non_snake_case)]
pub struct MoreFromAuthor {
    pub avatars: Vec<Avatar>,
    pub avatarsCount: u32,
}

/// The full detail record of one listed avatar.
#[allow(non_snake_case)]
pub struct Item {
    pub isLoggedIn: bool,
    pub isPurchased: bool,
    pub isNSFW: u32,
    pub has360Image: bool,
    pub hierarchy: String,
    pub price: u32,
    pub authorName: String,
    pub authorId: Option<String>,
    pub name: String,
    pub description: String,
    pub image: String,
    pub status: String,
    pub platforms: Vec<String>,
    pub pc: PcInfo,
    pub moreFromAuthor: MoreFromAuthor,
}

/// A theft event usable by the correlator: derived per scan from one
/// feed detail record, never persisted.
#[derive(Clone)]
pub struct TheftEvent {
    pub ident: String,
    pub avatar_name: String,
    pub created_at: u64,
    pub last_updated: Option<u64>,
}

/// Turns one resolved feed detail into the snapshot entry tracked for
/// change detection.
pub fn avatar_entry(item: &Item) -> (r: AvatarData)
    ensures
        r.name@ == item.name@,
        r.created == item.pc.created,
        r.added == item.pc.dateAdded,
        r.updated == item.pc.lastUpdated,
{
    AvatarData {
        name: item.name.clone(),
        created: item.pc.created,
        added: item.pc.dateAdded,
        updated: item.pc.lastUpdated,
    }
}

} // verus!
