//! The store directory: which of its entries belong to it, whether a directory can
//! be used as a store, and which videos are on deck.
use vstd::prelude::*;

use crate::state::PlaybackState;
use crate::text::{chars_eq, to_chars};

verus! {

/// The name of the state file in a store.
pub const STATE_FILE: &'static str = ".flicksync.state.json";

/// The name of the configuration file in a store.
pub const CONFIG_FILE: &'static str = "flicksync.json";

pub open spec fn state_file() -> Seq<char> {
    ".flicksync.state.json"@
}

pub open spec fn config_file() -> Seq<char> {
    "flicksync.json"@
}

fn same_text(a: &str, b: &str) -> (r: bool)
    ensures
        r == (a@ == b@),
{
    let x = to_chars(a);
    let y = to_chars(b);
    chars_eq(x.as_slice(), y.as_slice())
}

fn is_config_file(name: &str) -> (r: bool)
    ensures
        r == (name@ == config_file()),
{
    same_text(name, "flicksync.json")
}

fn is_state_file(name: &str) -> (r: bool)
    ensures
        r == (name@ == state_file()),
{
    same_text(name, ".flicksync.state.json")
}

/// Whether an entry at the top of the store is kept when the store is pruned: the
/// state and configuration files and the directories of configured servers are;
/// anything else, including an entry whose name is not text, is deleted.
pub fn keep_root_entry(name: Option<&str>, servers: &Vec<String>) -> (r: bool)
    ensures
        r == match name {
            Some(n) => n@ == state_file() || n@ == config_file() || exists|i: int|
                0 <= i < servers.len() && #[trigger] servers@[i]@ == n@,
            None => false,
        },
{
    match name {
        None => false,
        Some(n) => {
            if is_state_file(n) || is_config_file(n) {
                return true;
            }
            let mut i: usize = 0;
            while i < servers.len()
                invariant
                    i <= servers.len(),
                    name == Some(n),
                    forall|j: int| 0 <= j < i ==> servers@[j]@ != n@,
                decreases servers.len() - i,
            {
                if same_text(servers[i].as_str(), n) {
                    proof {
                        assert(servers@[i as int]@ == n@);
                    }
                    return true;
                }
                i = i + 1;
            }
            false
        },
    }
}

// ---------------------------------------------------------------------------
// Pruning a server's directory
// ---------------------------------------------------------------------------

/// Whether a file found in a server's directory is one the server expects: a file
/// of a synced item. Files that are not are deleted.
pub fn is_expected_file(path: &str, expected: &Vec<String>) -> (r: bool)
    ensures
        r == exists|i: int| 0 <= i < expected.len() && #[trigger] expected@[i]@ == path@,
{
    let mut i: usize = 0;
    while i < expected.len()
        invariant
            i <= expected.len(),
            forall|j: int| 0 <= j < i ==> expected@[j]@ != path@,
        decreases expected.len() - i,
    {
        if same_text(expected[i].as_str(), path) {
            proof {
                assert(expected@[i as int]@ == path@);
            }
            return true;
        }
        i = i + 1;
    }
    false
}

/// What became of one entry of a directory being pruned.
#[derive(Debug, Clone, Copy, PartialEq, Eq, Structural)]
pub enum PrunedEntry {
    /// A directory, pruned in turn; `removed` when it was removed.
    Directory { removed: bool },
    /// A file the server expects, kept.
    ExpectedFile,
    /// A file the server does not expect; `failed` when deleting it failed other
    /// than by the file being gone already.
    UnknownFile { failed: bool },
    /// An entry whose type could not be read, left alone.
    Unreadable,
}

/// An entry leaves its directory removable when it is gone or could not be read.
pub open spec fn allows_removal(e: PrunedEntry) -> bool {
    match e {
        PrunedEntry::Directory { removed } => removed,
        PrunedEntry::ExpectedFile => false,
        PrunedEntry::UnknownFile { failed } => !failed,
        PrunedEntry::Unreadable => true,
    }
}

/// Whether a directory is still to be removed after one more of its entries.
pub fn prune_step(removable: bool, entry: PrunedEntry) -> (r: bool)
    ensures
        r == (removable && allows_removal(entry)),
{
    match entry {
        PrunedEntry::Directory { removed } => removable && removed,
        PrunedEntry::ExpectedFile => false,
        PrunedEntry::UnknownFile { failed } => removable && !failed,
        PrunedEntry::Unreadable => removable,
    }
}

/// Whether a directory is removed once all its entries are seen: when it could be
/// listed to the end and every entry allows it. A directory that could not be
/// listed is reported as not removed.
pub fn directory_removable(listed: bool, entries: &Vec<PrunedEntry>) -> (r: bool)
    ensures
        r == (listed && forall|i: int| 0 <= i < entries.len() ==> allows_removal(
            #[trigger] entries@[i],
        )),
{
    if !listed {
        return false;
    }
    let mut removable = true;
    let mut i: usize = 0;
    while i < entries.len()
        invariant
            i <= entries.len(),
            removable == forall|j: int| 0 <= j < i ==> allows_removal(#[trigger] entries@[j]),
        decreases entries.len() - i,
    {
        removable = prune_step(removable, entries[i]);
        i = i + 1;
        proof {
            assert(removable == forall|j: int| 0 <= j < i ==> allows_removal(
                #[trigger] entries@[j],
            )) by {
                if removable {
                    assert forall|j: int| 0 <= j < i implies allows_removal(
                        #[trigger] entries@[j],
                    ) by {}
                }
            }
        }
    }
    removable
}

// ---------------------------------------------------------------------------
// Checking a store directory
// ---------------------------------------------------------------------------

/// What is found at a path.
#[derive(Debug, Clone, Copy, PartialEq, Eq, Structural)]
pub enum EntryKind {
    Missing,
    File,
    Other,
}

/// Why a directory cannot be a store.
#[derive(Debug, Clone, Copy, PartialEq, Eq, Structural)]
pub enum StoreError {
    NotADirectory,
    ConfigNotAFile,
    StateNotAFile,
    NotEmpty,
}

/// The verdict on a candidate store from what is at its path and at its
/// configuration and state files.
#[derive(Debug, Clone, Copy, PartialEq, Eq, Structural)]
pub enum StoreCheck {
    Valid,
    Invalid(StoreError),
    /// Neither file is there: the directory is a new store if it holds nothing but
    /// a configuration file.
    CheckEntries,
}

pub open spec fn check_store_spec(store: EntryKind, config: EntryKind, state: EntryKind) -> StoreCheck {
    if store != EntryKind::Other {
        StoreCheck::Invalid(StoreError::NotADirectory)
    } else if config == EntryKind::File {
        StoreCheck::Valid
    } else if config == EntryKind::Other {
        StoreCheck::Invalid(StoreError::ConfigNotAFile)
    } else if state == EntryKind::File {
        StoreCheck::Valid
    } else if state == EntryKind::Other {
        StoreCheck::Invalid(StoreError::StateNotAFile)
    } else {
        StoreCheck::CheckEntries
    }
}

/// `store` is `Other` for a directory.
pub fn check_store(store: EntryKind, config: EntryKind, state: EntryKind) -> (r: StoreCheck)
    ensures
        r == check_store_spec(store, config, state),
{
    if store != EntryKind::Other {
        StoreCheck::Invalid(StoreError::NotADirectory)
    } else if config == EntryKind::File {
        StoreCheck::Valid
    } else if config == EntryKind::Other {
        StoreCheck::Invalid(StoreError::ConfigNotAFile)
    } else if state == EntryKind::File {
        StoreCheck::Valid
    } else if state == EntryKind::Other {
        StoreCheck::Invalid(StoreError::StateNotAFile)
    } else {
        StoreCheck::CheckEntries
    }
}

/// Whether an entry may be in a new store: only a configuration file may.
pub fn new_store_entry_allowed(name: Option<&str>, is_file: bool) -> (r: bool)
    ensures
        r == match name {
            Some(n) => is_file && n@ == config_file(),
            None => false,
        },
{
    match name {
        Some(n) => is_file && is_config_file(n),
        None => false,
    }
}

// ---------------------------------------------------------------------------
// On deck
// ---------------------------------------------------------------------------

/// What a video contributes to the videos on deck.
#[derive(Debug, Clone, Copy, PartialEq, Eq, Structural)]
pub enum OnDeck {
    /// Nothing.
    Nothing,
    /// The video itself.
    This,
    /// The video that follows it.
    Next,
}

/// A week and a day, in nanoseconds: a whole number of days since a time is at
/// most seven exactly when less than eight days have passed.
pub open spec fn eight_days() -> i128 {
    691_200_000_000_000i128
}

pub open spec fn on_deck_spec(
    state: PlaybackState,
    downloaded: bool,
    since_last_played: Option<i128>,
    next: Option<(PlaybackState, bool)>,
) -> OnDeck {
    match state {
        PlaybackState::Played => match (since_last_played, next) {
            (Some(d), Some((next_state, next_downloaded))) => if d < eight_days() && next_state
                == PlaybackState::Unplayed && next_downloaded {
                OnDeck::Next
            } else {
                OnDeck::Nothing
            },
            _ => OnDeck::Nothing,
        },
        PlaybackState::InProgress { .. } => if downloaded {
            OnDeck::This
        } else {
            OnDeck::Nothing
        },
        PlaybackState::Unplayed => OnDeck::Nothing,
    }
}

/// A video is on deck while it is being watched and is downloaded; the video after
/// one watched in the last seven whole days is on deck when it is unwatched and
/// downloaded. `since_last_played` is the time since the video was last played, in
/// nanoseconds; `next` the state of the following video and whether it is
/// downloaded.
pub fn on_deck(
    state: PlaybackState,
    downloaded: bool,
    since_last_played: Option<i128>,
    next: Option<(PlaybackState, bool)>,
) -> (r: OnDeck)
    ensures
        r == on_deck_spec(state, downloaded, since_last_played, next),
{
    match state {
        PlaybackState::Played => match (since_last_played, next) {
            (Some(d), Some((next_state, next_downloaded))) => {
                if d < 691_200_000_000_000i128 && next_state == PlaybackState::Unplayed
                    && next_downloaded {
                    OnDeck::Next
                } else {
                    OnDeck::Nothing
                }
            },
            _ => OnDeck::Nothing,
        },
        PlaybackState::InProgress { .. } => if downloaded {
            OnDeck::This
        } else {
            OnDeck::Nothing
        },
        PlaybackState::Unplayed => OnDeck::Nothing,
    }
}

// ---------------------------------------------------------------------------
// The videos on deck across servers
// ---------------------------------------------------------------------------

/// What deciding whether a video is on deck reads of it: its id (unique across
/// servers), its state, whether it is downloaded, the time since it was last
/// played, and the id, state and download of the video after it.
pub struct DeckFacts {
    pub id: String,
    pub state: PlaybackState,
    pub downloaded: bool,
    pub since_last_played: Option<i128>,
    pub next: Option<(String, PlaybackState, bool)>,
}

/// What a video puts on deck: itself, the video after it, or nothing.
pub open spec fn deck_pick(v: DeckFacts) -> Option<Seq<char>> {
    match on_deck_spec(
        v.state,
        v.downloaded,
        v.since_last_played,
        match v.next {
            Some((_, st, d)) => Some((st, d)),
            None => None,
        },
    ) {
        OnDeck::This => Some(v.id@),
        OnDeck::Next => match v.next {
            Some((n, _, _)) => Some(n@),
            None => None,
        },
        OnDeck::Nothing => None,
    }
}

/// Some video among the first `n` puts this id on deck.
pub open spec fn picked(videos: Seq<DeckFacts>, n: int, id: Seq<char>) -> bool {
    exists|i: int| 0 <= i < n && #[trigger] deck_pick(videos[i]) == Some(id)
}

fn text_eq(a: &str, b: &str) -> (r: bool)
    ensures
        r == (a@ == b@),
{
    let x = to_chars(a);
    let y = to_chars(b);
    chars_eq(x.as_slice(), y.as_slice())
}

fn contains_id(ids: &Vec<String>, id: &str) -> (r: bool)
    ensures
        r == exists|j: int| 0 <= j < ids.len() && #[trigger] ids@[j]@ == id@,
{
    let mut j: usize = 0;
    while j < ids.len()
        invariant
            j <= ids.len(),
            forall|k: int| 0 <= k < j ==> #[trigger] ids@[k]@ != id@,
        decreases ids.len() - j,
    {
        if text_eq(ids[j].as_str(), id) {
            proof {
                assert(ids@[j as int]@ == id@);
            }
            return true;
        }
        j = j + 1;
    }
    false
}

/// The videos on deck across all servers, each once: exactly the ids that some
/// video puts on deck, in the order they are first put there.
pub fn collect_on_deck(videos: &Vec<DeckFacts>) -> (r: Vec<String>)
    ensures
        forall|a: int, b: int| 0 <= a < b < r.len() ==> #[trigger] r@[a]@ != #[trigger] r@[b]@,
        forall|a: int| 0 <= a < r.len() ==> picked(videos@, videos.len() as int, #[trigger] r@[a]@),
        forall|id: Seq<char>|
            picked(videos@, videos.len() as int, id) ==> exists|a: int|
                0 <= a < r.len() && #[trigger] r@[a]@ == id,
{
    let mut out: Vec<String> = Vec::new();
    let mut i: usize = 0;
    while i < videos.len()
        invariant
            i <= videos.len(),
            forall|a: int, b: int| 0 <= a < b < out.len() ==> #[trigger] out@[a]@ != #[trigger] out@[b]@,
            forall|a: int| 0 <= a < out.len() ==> picked(videos@, i as int, #[trigger] out@[a]@),
            forall|id: Seq<char>|
                picked(videos@, i as int, id) ==> exists|a: int| 0 <= a < out.len() && #[trigger] out@[a]@ == id,
        decreases videos.len() - i,
    {
        let v = &videos[i];
        let next = match &v.next {
            Some((_, st, d)) => Some((*st, *d)),
            None => None,
        };
        let pick: Option<String> = match on_deck(v.state, v.downloaded, v.since_last_played, next) {
            OnDeck::This => Some(v.id.clone()),
            OnDeck::Next => match &v.next {
                Some((n, _, _)) => Some(n.clone()),
                None => None,
            },
            OnDeck::Nothing => None,
        };
        let ghost before = out@;
        proof {
            assert(match pick {
                Some(p) => deck_pick(videos@[i as int]) == Some(p@),
                None => deck_pick(videos@[i as int]) is None,
            });
        }
        match pick {
            Some(p) => {
                if !contains_id(&out, p.as_str()) {
                    out.push(p);
                }
            },
            None => {},
        }
        proof {
            let n1 = i + 1;
            assert forall|a: int| 0 <= a < out.len() implies picked(videos@, n1, #[trigger] out@[a]@) by {
                if a < before.len() {
                    assert(out@[a] == before[a]);
                    let w = choose|k: int| 0 <= k < i && #[trigger] deck_pick(videos@[k]) == Some(before[a]@);
                    assert(deck_pick(videos@[w]) == Some(out@[a]@));
                } else {
                    assert(deck_pick(videos@[i as int]) == Some(out@[a]@));
                }
            }
            assert forall|id: Seq<char>| #[trigger] picked(videos@, n1, id) implies exists|a: int|
                0 <= a < out.len() && #[trigger] out@[a]@ == id by {
                let w = choose|k: int| 0 <= k < n1 && #[trigger] deck_pick(videos@[k]) == Some(id);
                if w < i {
                    assert(picked(videos@, i as int, id));
                    let a = choose|a: int| 0 <= a < before.len() && #[trigger] before[a]@ == id;
                    assert(out@[a] == before[a]);
                } else {
                    if exists|a: int| 0 <= a < before.len() && #[trigger] before[a]@ == id {
                        let a = choose|a: int| 0 <= a < before.len() && #[trigger] before[a]@ == id;
                        assert(out@[a] == before[a]);
                    } else {
                        assert(out@[before.len() as int]@ == id);
                    }
                }
            }
        }
        i = i + 1;
    }
    out
}

} // verus!
