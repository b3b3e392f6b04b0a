use flick_sync::state::PlaybackState;
use flick_sync::store::{
    check_store, directory_removable, is_expected_file, keep_root_entry, new_store_entry_allowed,
    collect_on_deck, on_deck, prune_step, DeckFacts, EntryKind, OnDeck, PrunedEntry, StoreCheck, StoreError, CONFIG_FILE,
    STATE_FILE,
};

#[test]
fn root_entries_kept_when_pruning() {
    let servers = vec!["home".to_string()];
    assert!(keep_root_entry(Some(".flicksync.state.json"), &servers));
    assert!(keep_root_entry(Some("flicksync.json"), &servers));
    assert!(keep_root_entry(Some("home"), &servers));
    assert!(!keep_root_entry(Some("stray"), &servers));
    assert!(!keep_root_entry(None, &servers));
    assert_eq!(STATE_FILE, ".flicksync.state.json");
    assert_eq!(CONFIG_FILE, "flicksync.json");
}

#[test]
fn store_checks() {
    assert_eq!(check_store(EntryKind::File, EntryKind::Missing, EntryKind::Missing), StoreCheck::Invalid(StoreError::NotADirectory));
    assert_eq!(check_store(EntryKind::Missing, EntryKind::Missing, EntryKind::Missing), StoreCheck::Invalid(StoreError::NotADirectory));
    assert_eq!(check_store(EntryKind::Other, EntryKind::File, EntryKind::Other), StoreCheck::Valid);
    assert_eq!(check_store(EntryKind::Other, EntryKind::Other, EntryKind::File), StoreCheck::Invalid(StoreError::ConfigNotAFile));
    assert_eq!(check_store(EntryKind::Other, EntryKind::Missing, EntryKind::File), StoreCheck::Valid);
    assert_eq!(check_store(EntryKind::Other, EntryKind::Missing, EntryKind::Other), StoreCheck::Invalid(StoreError::StateNotAFile));
    assert_eq!(check_store(EntryKind::Other, EntryKind::Missing, EntryKind::Missing), StoreCheck::CheckEntries);
    assert!(new_store_entry_allowed(Some("flicksync.json"), true));
    assert!(!new_store_entry_allowed(Some("flicksync.json"), false));
    assert!(!new_store_entry_allowed(Some("other"), true));
    assert!(!new_store_entry_allowed(None, true));
}

#[test]
fn on_deck_videos() {
    let day: i128 = 86_400_000_000_000;
    assert_eq!(on_deck(PlaybackState::InProgress { position: 5 }, true, None, None), OnDeck::This);
    assert_eq!(on_deck(PlaybackState::InProgress { position: 5 }, false, None, None), OnDeck::Nothing);
    assert_eq!(
        on_deck(PlaybackState::Played, true, Some(7 * day + 1), Some((PlaybackState::Unplayed, true))),
        OnDeck::Next
    );
    assert_eq!(
        on_deck(PlaybackState::Played, true, Some(8 * day), Some((PlaybackState::Unplayed, true))),
        OnDeck::Nothing
    );
    assert_eq!(
        on_deck(PlaybackState::Played, true, Some(day), Some((PlaybackState::Played, true))),
        OnDeck::Nothing
    );
    assert_eq!(on_deck(PlaybackState::Played, true, Some(day), None), OnDeck::Nothing);
    assert_eq!(on_deck(PlaybackState::Unplayed, true, Some(day), None), OnDeck::Nothing);
}

#[test]
fn pruning_server_directories() {
    let expected = vec!["srv/a.mkv".to_string(), "srv/b.jpg".to_string()];
    assert!(is_expected_file("srv/b.jpg", &expected));
    assert!(!is_expected_file("srv/c.tmp", &expected));

    assert!(prune_step(true, PrunedEntry::Unreadable));
    assert!(!prune_step(true, PrunedEntry::ExpectedFile));
    assert!(!prune_step(false, PrunedEntry::Directory { removed: true }));
    assert!(prune_step(true, PrunedEntry::UnknownFile { failed: false }));

    assert!(directory_removable(true, &Vec::new()));
    assert!(!directory_removable(false, &Vec::new()));
    assert!(directory_removable(
        true,
        &vec![
            PrunedEntry::Directory { removed: true },
            PrunedEntry::UnknownFile { failed: false },
            PrunedEntry::Unreadable,
        ]
    ));
    assert!(!directory_removable(
        true,
        &vec![
            PrunedEntry::UnknownFile { failed: false },
            PrunedEntry::UnknownFile { failed: true },
        ]
    ));
    assert!(!directory_removable(true, &vec![PrunedEntry::ExpectedFile]));
}

fn facts(id: &str, state: PlaybackState, downloaded: bool, since: Option<i128>, next: Option<(&str, PlaybackState, bool)>) -> DeckFacts {
    DeckFacts {
        id: id.to_string(),
        state,
        downloaded,
        since_last_played: since,
        next: next.map(|(n, s, d)| (n.to_string(), s, d)),
    }
}

#[test]
fn on_deck_collects_each_video_once() {
    let day: i128 = 86_400_000_000_000;
    let videos = vec![
        facts("a", PlaybackState::InProgress { position: 10 }, true, None, None),
        facts("b", PlaybackState::Played, true, Some(day), Some(("c", PlaybackState::Unplayed, true))),
        facts("c", PlaybackState::Unplayed, true, None, None),
        facts("d", PlaybackState::Played, true, Some(2 * day), Some(("c", PlaybackState::Unplayed, true))),
        facts("e", PlaybackState::InProgress { position: 3 }, false, None, None),
        facts("f", PlaybackState::Played, true, Some(9 * day), Some(("g", PlaybackState::Unplayed, true))),
        facts("h", PlaybackState::Played, true, Some(day), Some(("i", PlaybackState::Unplayed, false))),
    ];
    let deck = collect_on_deck(&videos);
    assert_eq!(deck, vec!["a".to_string(), "c".to_string()]);
    assert!(collect_on_deck(&Vec::new()).is_empty());
}
