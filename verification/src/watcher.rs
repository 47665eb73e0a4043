//! The live session watcher.
//!
//! A state machine drives near-real-time deferred verification: polling
//! the session log for growth, extracting the newest content line,
//! matching the join pattern, resolving the joined name's identity when
//! it is still unknown, and, after a fixed delay, re-running the
//! snapshot differ and charging the ledger when it signals new theft.
//! The surrounding loop — file watching, sleeping, network calls — is
//! the caller's; every decision is taken here.

use vstd::prelude::*;

use crate::backfill::IdentityMapping;
use crate::ledger::{bump, count_of, SuspicionLedger};

verus! {

/// Delay between a detected join and its deferred verification, in
/// milliseconds: long enough for the marketplace to reflect a theft
/// committed right after the join.
pub const VERIFY_DELAY_MS: u64 = 150000;

/// Back-off before retrying a rate-limited identity lookup, in
/// milliseconds.
pub const LOOKUP_RETRY_DELAY_MS: u64 = 305000;

// --- the join-line grammar ---

/// The literal announcing a join in the session log.
pub open spec fn join_marker() -> Seq<char> {
    seq!['O', 'n', 'P', 'l', 'a', 'y', 'e', 'r', 'J', 'o', 'i', 'n', 'e', 'd']
}

/// The characters a captured name is made of: ASCII letters, digits
/// and underscore.
pub open spec fn is_word_char(c: char) -> bool {
    ('a' as u32 <= c as u32 && c as u32 <= 'z' as u32) || ('A' as u32 <= c as u32 && c as u32
        <= 'Z' as u32) || ('0' as u32 <= c as u32 && c as u32 <= '9' as u32) || c == '_'
}

/// The whitespace accepted between the marker and the name.
pub open spec fn is_space_char(c: char) -> bool {
    c == ' ' || c == '\t' || c == '\r' || c == '\n'
}

/// An ASCII letter: the heuristic that tells a content line from
/// padding when the tail of the log is read.
pub open spec fn is_letter_char(c: char) -> bool {
    ('a' as u32 <= c as u32 && c as u32 <= 'z' as u32) || ('A' as u32 <= c as u32 && c as u32
        <= 'Z' as u32)
}

/// The marker occupies positions `i .. i + 14` of `s`.
pub open spec fn marker_at(s: Seq<char>, i: int) -> bool {
    0 <= i && i + 14 <= s.len() && s.subrange(i, i + 14) == join_marker()
}

/// The first position at or after `j` holding no whitespace.
pub open spec fn skip_spaces(s: Seq<char>, j: int) -> int
    decreases s.len() - j,
{
    if j < 0 || j >= s.len() {
        j
    } else if is_space_char(s[j]) {
        skip_spaces(s, j + 1)
    } else {
        j
    }
}

/// The first position at or after `j` holding no word character.
pub open spec fn word_end(s: Seq<char>, j: int) -> int
    decreases s.len() - j,
{
    if j < 0 || j >= s.len() {
        j
    } else if is_word_char(s[j]) {
        word_end(s, j + 1)
    } else {
        j
    }
}

/// The join pattern matches at `i`: the marker, at least one space, at
/// least one word character.
pub open spec fn match_at(s: Seq<char>, i: int) -> bool {
    let j = i + 14;
    let k = skip_spaces(s, j);
    marker_at(s, i) && k > j && word_end(s, k) > k
}

/// The name captured by a match at `i`: the maximal word-character run
/// after the separating whitespace.
pub open spec fn name_at(s: Seq<char>, i: int) -> Seq<char> {
    let k = skip_spaces(s, i + 14);
    s.subrange(k, word_end(s, k))
}

/// The first match position at or after `i`.
pub open spec fn first_match_from(s: Seq<char>, i: int) -> Option<int>
    decreases s.len() - i,
{
    if i < 0 || i >= s.len() {
        None
    } else if match_at(s, i) {
        Some(i)
    } else {
        first_match_from(s, i + 1)
    }
}

/// The name a line announces as joined, if the line matches the join
/// pattern anywhere; the leftmost match decides.
pub open spec fn join_name(s: Seq<char>) -> Option<Seq<char>> {
    match first_match_from(s, 0) {
        Some(i) => Some(name_at(s, i)),
        None => None,
    }
}

proof fn lemma_first_match_found(s: Seq<char>, k: int, i: int)
    requires
        0 <= k <= i < s.len(),
        match_at(s, i),
        forall|j: int| k <= j < i ==> !match_at(s, j),
    ensures
        first_match_from(s, k) == Some(i),
    decreases i - k,
{
    if k < i {
        lemma_first_match_found(s, k + 1, i);
    }
}

proof fn lemma_first_match_missing(s: Seq<char>, k: int)
    requires
        0 <= k,
        forall|j: int| k <= j < s.len() ==> !match_at(s, j),
    ensures
        first_match_from(s, k) is None,
    decreases s.len() - k,
{
    if k < s.len() {
        lemma_first_match_missing(s, k + 1);
    }
}

/// Whether `c` is accepted in a captured name.
fn word_char(c: char) -> (r: bool)
    ensures
        r == is_word_char(c),
{
    (c as u32 >= 'a' as u32 && c as u32 <= 'z' as u32) || (c as u32 >= 'A' as u32 && c as u32
        <= 'Z' as u32) || (c as u32 >= '0' as u32 && c as u32 <= '9' as u32) || c == '_'
}

/// Whether `c` separates the marker from the name.
fn space_char(c: char) -> (r: bool)
    ensures
        r == is_space_char(c),
{
    c == ' ' || c == '\t' || c == '\r' || c == '\n'
}

/// Whether `c` is an ASCII letter.
fn letter_char(c: char) -> (r: bool)
    ensures
        r == is_letter_char(c),
{
    (c as u32 >= 'a' as u32 && c as u32 <= 'z' as u32) || (c as u32 >= 'A' as u32 && c as u32
        <= 'Z' as u32)
}

/// Whether the marker occupies `i .. i + 14` of `line`.
fn marker_check(line: &str, i: usize, n: usize) -> (r: bool)
    requires
        n == line@.len(),
        i <= n,
    ensures
        r == marker_at(line@, i as int),
{
    if n - i < 14 {
        return false;
    }
    let r = line.get_char(i) == 'O' && line.get_char(i + 1) == 'n' && line.get_char(i + 2) == 'P'
        && line.get_char(i + 3) == 'l' && line.get_char(i + 4) == 'a' && line.get_char(i + 5)
        == 'y' && line.get_char(i + 6) == 'e' && line.get_char(i + 7) == 'r' && line.get_char(
        i + 8,
    ) == 'J' && line.get_char(i + 9) == 'o' && line.get_char(i + 10) == 'i' && line.get_char(
        i + 11,
    ) == 'n' && line.get_char(i + 12) == 'e' && line.get_char(i + 13) == 'd';
    proof {
        if r {
            assert(line@.subrange(i as int, i as int + 14) =~= join_marker());
        } else {
            if marker_at(line@, i as int) {
                assert(forall|k: int|
                    0 <= k < 14 ==> line@.subrange(i as int, i as int + 14)[k] == join_marker()[k]);
                assert(line@[i as int] == join_marker()[0]);
                assert(line@[i as int + 1] == join_marker()[1]);
                assert(line@[i as int + 2] == join_marker()[2]);
                assert(line@[i as int + 3] == join_marker()[3]);
                assert(line@[i as int + 4] == join_marker()[4]);
                assert(line@[i as int + 5] == join_marker()[5]);
                assert(line@[i as int + 6] == join_marker()[6]);
                assert(line@[i as int + 7] == join_marker()[7]);
                assert(line@[i as int + 8] == join_marker()[8]);
                assert(line@[i as int + 9] == join_marker()[9]);
                assert(line@[i as int + 10] == join_marker()[10]);
                assert(line@[i as int + 11] == join_marker()[11]);
                assert(line@[i as int + 12] == join_marker()[12]);
                assert(line@[i as int + 13] == join_marker()[13]);
            }
        }
    }
    r
}

/// Advances over whitespace from `j`.
fn scan_spaces(line: &str, j: usize, n: usize) -> (k: usize)
    requires
        n == line@.len(),
        j <= n,
    ensures
        j <= k <= n,
        k as int == skip_spaces(line@, j as int),
{
    let mut k: usize = j;
    loop
        invariant
            j <= k <= n,
            n == line@.len(),
            skip_spaces(line@, j as int) == skip_spaces(line@, k as int),
        ensures
            j <= k <= n,
            k as int == skip_spaces(line@, j as int),
        decreases n - k,
    {
        if k == n {
            break;
        }
        let c = line.get_char(k);
        if !space_char(c) {
            break;
        }
        k += 1;
    }
    k
}

/// Advances over word characters from `j`.
fn scan_word(line: &str, j: usize, n: usize) -> (k: usize)
    requires
        n == line@.len(),
        j <= n,
    ensures
        j <= k <= n,
        k as int == word_end(line@, j as int),
{
    let mut k: usize = j;
    loop
        invariant
            j <= k <= n,
            n == line@.len(),
            word_end(line@, j as int) == word_end(line@, k as int),
        ensures
            j <= k <= n,
            k as int == word_end(line@, j as int),
        decreases n - k,
    {
        if k == n {
            break;
        }
        let c = line.get_char(k);
        if !word_char(c) {
            break;
        }
        k += 1;
    }
    k
}

/// Extracts the joined name from a log line, matching the join pattern
/// at its leftmost occurrence; a line without a match yields nothing.
pub fn extract_join_name(line: &str) -> (r: Option<String>)
    ensures
        match r {
            Some(name) => join_name(line@) == Some(name@),
            None => join_name(line@) is None,
        },
{
    let n = line.unicode_len();
    let mut i: usize = 0;
    while i < n
        invariant
            i <= n,
            n == line@.len(),
            forall|j: int| 0 <= j < i ==> !match_at(line@, j),
        decreases n - i,
    {
        if marker_check(line, i, n) {
            let j = i + 14;
            let k = scan_spaces(line, j, n);
            if k > j {
                let e = scan_word(line, k, n);
                if e > k {
                    proof {
                        assert(match_at(line@, i as int));
                        lemma_first_match_found(line@, 0, i as int);
                    }
                    let name = line.substring_char(k, e);
                    return Some(name.to_owned());
                }
            }
            assert(!match_at(line@, i as int));
        } else {
            assert(!match_at(line@, i as int));
        }
        i += 1;
    }
    proof {
        lemma_first_match_missing(line@, 0);
    }
    None
}

/// Whether a line holds at least one ASCII letter.
pub open spec fn has_letter(s: Seq<char>) -> bool {
    exists|k: int| 0 <= k < s.len() && is_letter_char(#[trigger] s[k])
}

/// Whether `line` holds at least one ASCII letter.
pub fn line_has_letter(line: &str) -> (r: bool)
    ensures
        r == has_letter(line@),
{
    let n = line.unicode_len();
    let mut i: usize = 0;
    while i < n
        invariant
            i <= n,
            n == line@.len(),
            forall|k: int| 0 <= k < i ==> !is_letter_char(#[trigger] line@[k]),
        decreases n - i,
    {
        if letter_char(line.get_char(i)) {
            return true;
        }
        i += 1;
    }
    false
}

/// Picks the most recent content line of the tail: the last line with
/// at least one letter, skipping trailing blank or padding lines.
pub fn latest_content_line(lines: &Vec<String>) -> (r: Option<usize>)
    ensures
        match r {
            Some(i) => i < lines@.len() && has_letter(lines@[i as int]@) && forall|j: int|
                i < j < lines@.len() ==> !has_letter(#[trigger] lines@[j]@),
            None => forall|j: int| 0 <= j < lines@.len() ==> !has_letter(#[trigger] lines@[j]@),
        },
{
    let n = lines.len();
    let mut i: usize = n;
    while i > 0
        invariant
            i <= n,
            n == lines@.len(),
            forall|j: int| i <= j < n ==> !has_letter(#[trigger] lines@[j]@),
        decreases i,
    {
        i -= 1;
        if line_has_letter(lines[i].as_str()) {
            return Some(i);
        }
    }
    None
}

// --- the state machine ---

/// The watcher's states.  A name travels with the states that act on
/// it.
pub enum WatcherState {
    /// Polling the log file for growth.
    Waiting,
    /// The log grew: the newest content line must be read.
    LineExtracted,
    /// A join line matched: the name's identity may need resolving.
    IdentityCheck { name: String },
    /// A deferred verification is scheduled for this name after
    /// [`VERIFY_DELAY_MS`].
    PendingVerification { name: String },
    /// The deferred task fired: the differ's verdict decides the
    /// charge.
    Verified { name: String },
}

/// What the caller must do after a step.
pub enum WatcherAction {
    /// Nothing.
    Idle,
    /// Resolve this display name through the identity collaborator and
    /// record the result in the mapping.
    ResolveIdentity { name: String },
    /// Announce a verified hit, carrying the updated count.
    RaiseAlert { name: String, count: u64 },
}

/// One step of the identity lookup's back-off loop: a rate-limited or
/// failed response is retried after a fixed pause, a successful one
/// proceeds at once.
pub enum LookupStep {
    Proceed,
    RetryAfter { delay_ms: u64 },
}

/// WAITING: a change of the log's modification time moves on to line
/// extraction; anything else keeps waiting.
pub fn on_poll(modified: bool) -> (s: WatcherState)
    ensures
        modified ==> s is LineExtracted,
        !modified ==> s is Waiting,
{
    if modified {
        WatcherState::LineExtracted
    } else {
        WatcherState::Waiting
    }
}

/// LINE_EXTRACTED: only a line matching the join pattern advances, to
/// the identity check for the captured name; no match returns to
/// waiting.  A malformed line is no error here.
pub fn on_line(line: &str) -> (s: WatcherState)
    ensures
        match join_name(line@) {
            Some(n) => s matches WatcherState::IdentityCheck { name } && name@ == n,
            None => s is Waiting,
        },
{
    match extract_join_name(line) {
        Some(name) => WatcherState::IdentityCheck { name },
        None => WatcherState::Waiting,
    }
}

/// IDENTITY_CHECK: a name absent from the mapping is sent to the
/// identity lookup first; a known name skips resolution.  Either way
/// the deferred verification is scheduled next.
pub fn on_identity_check(name: String, mapping: &IdentityMapping) -> (r: (
    WatcherAction,
    WatcherState,
))
    ensures
        r.1 matches WatcherState::PendingVerification { name: m } && m@ == name@,
        mapping.names().contains(name@) ==> r.0 is Idle,
        !mapping.names().contains(name@) ==> (r.0 matches WatcherAction::ResolveIdentity {
            name: m,
        } && m@ == name@),
{
    let known = mapping.contains_name(&name);
    let action = if known {
        WatcherAction::Idle
    } else {
        WatcherAction::ResolveIdentity { name: name.clone() }
    };
    (action, WatcherState::PendingVerification { name })
}

/// The identity lookup's retry policy: back off on a rate-limited or
/// failed response, proceed at once on a successful one.
pub fn on_lookup_response(success: bool) -> (r: LookupStep)
    ensures
        success ==> r is Proceed,
        !success ==> (r matches LookupStep::RetryAfter { delay_ms } && delay_ms
            == LOOKUP_RETRY_DELAY_MS),
{
    if success {
        LookupStep::Proceed
    } else {
        LookupStep::RetryAfter { delay_ms: LOOKUP_RETRY_DELAY_MS }
    }
}

/// PENDING_VERIFICATION: the fixed delay elapsed; the differ runs next.
pub fn on_timer(name: String) -> (s: WatcherState)
    ensures
        s matches WatcherState::Verified { name: m } && m@ == name@,
{
    WatcherState::Verified { name }
}

/// VERIFIED: a differ signalling new theft charges the joined name one
/// hit and raises an alert carrying the updated count; no signal, no
/// change.  The machine returns to waiting either way.
pub fn on_verified(name: &String, new_theft: bool, ledger: &mut SuspicionLedger) -> (r: (
    WatcherAction,
    WatcherState,
))
    requires
        old(ledger).wf(),
    ensures
        final(ledger).wf(),
        r.1 is Waiting,
        new_theft ==> final(ledger)@ == old(ledger)@.insert(
            name@,
            bump(count_of(old(ledger)@, name@)),
        ) && (r.0 matches WatcherAction::RaiseAlert { name: m, count } && m@ == name@ && count
            as nat == bump(count_of(old(ledger)@, name@))),
        !new_theft ==> final(ledger)@ == old(ledger)@ && r.0 is Idle,
{
    if new_theft {
        ledger.increment(name);
        let count = ledger.get_count(name);
        (WatcherAction::RaiseAlert { name: name.clone(), count }, WatcherState::Waiting)
    } else {
        (WatcherAction::Idle, WatcherState::Waiting)
    }
}

} // verus!
