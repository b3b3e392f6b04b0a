use flick_sync::dlna::{
    checked_video_part_ref, playback_position, preceding_duration, resource_id, root_container,
    stream_window, thumbnail_icon_id, top_container, video_parent, video_part_ref, IconRef,
    ItemKind, ObjectRef,
};

#[test]
fn object_ids() {
    assert!(matches!(ObjectRef::parse("0"), ObjectRef::Root));
    assert!(matches!(ObjectRef::parse("L"), ObjectRef::Libraries));
    assert!(matches!(ObjectRef::parse("P"), ObjectRef::Playlists));
    assert!(matches!(ObjectRef::parse("C"), ObjectRef::Collections));
    match ObjectRef::parse("home/S:42") {
        ObjectRef::Item { server, kind, id } => {
            assert_eq!(server, "home");
            assert_eq!(kind, "S");
            assert_eq!(id, "42");
        }
        _ => panic!("expected an item"),
    }
    match ObjectRef::parse("home/VP:7/1") {
        ObjectRef::Item { kind, id, .. } => {
            assert_eq!(kind, "VP");
            assert_eq!(id, "7/1");
        }
        _ => panic!("expected an item"),
    }
    assert!(matches!(ObjectRef::parse("home"), ObjectRef::Unknown));
    assert!(matches!(ObjectRef::parse("home/42"), ObjectRef::Unknown));
}

#[test]
fn item_kinds() {
    let code: Vec<char> = "VP".chars().collect();
    assert_eq!(ItemKind::from_code(&code), Some(ItemKind::VideoPart));
    let code: Vec<char> = "N".chars().collect();
    assert_eq!(ItemKind::from_code(&code), Some(ItemKind::Season));
    let code: Vec<char> = "X".chars().collect();
    assert_eq!(ItemKind::from_code(&code), None);
}

#[test]
fn icon_ids() {
    assert!(matches!(IconRef::parse("thumbnail/home/V:1"), IconRef::Thumbnail { ref object_id } if object_id == "home/V:1"));
    assert!(matches!(IconRef::parse("resource/logo-32.png"), IconRef::Resource { ref path } if path == "upnp/logo-32.png"));
    assert!(matches!(IconRef::parse("other"), IconRef::Unknown));
    assert_eq!(thumbnail_icon_id("home/V:1"), "thumbnail/home/V:1");
}

#[test]
fn resource_ids_round_trip() {
    let id = resource_id("home", "1234", 2);
    assert_eq!(id, "video/home/VP:1234/2");
    assert_eq!(
        video_part_ref(&id),
        Some(("home".to_string(), "1234".to_string(), 2))
    );
    assert_eq!(video_part_ref("video/home/V:1234/2"), None);
    assert_eq!(
        checked_video_part_ref("video/home/VP:1/99999999999999999999999"),
        Err(())
    );
    assert_eq!(checked_video_part_ref("nothing"), Ok(None));
}

#[test]
fn video_parents() {
    assert_eq!(video_parent(true, "lib", "home"), "home/L:lib");
    assert_eq!(video_parent(false, "season", "home"), "home/N:season");
}

#[test]
fn top_containers() {
    let root = root_container();
    assert_eq!((root.id.as_str(), root.parent_id.as_str(), root.child_count), ("0", "-1", Some(3)));
    let libraries = top_container(ItemKind::Library, 4);
    assert_eq!(libraries.id, "L");
    assert_eq!(libraries.title, "Libraries");
    assert_eq!(libraries.child_count, Some(4));
    assert_eq!(top_container(ItemKind::Collection, 0).title, "Collections");
}

#[test]
fn stream_windows() {
    let w = stream_window(100, Some(40), None, Some(40));
    assert_eq!((w.range.map(|r| (r.start, r.length)), w.position, w.limit), (Some((40, 60)), 40, 60));
    let w = stream_window(100, Some(40), Some(500), Some(40));
    assert_eq!(w.limit, 60);
    let w = stream_window(100, Some(40), Some(10), None);
    assert_eq!((w.range.is_none(), w.position, w.limit), (true, 0, 100));
    let w = stream_window(100, Some(0), Some(10), None);
    assert_eq!((w.range.map(|r| (r.start, r.length)), w.position, w.limit), (Some((0, 10)), 0, 10));
    let w = stream_window(100, None, Some(150), None);
    assert_eq!(w.limit, 100);
    let w = stream_window(100, None, None, None);
    assert_eq!((w.range.is_none(), w.limit), (true, 100));
}

#[test]
fn playback_positions() {
    assert_eq!(preceding_duration(&vec![1000, 2000, 3000], 2), 3000);
    assert_eq!(preceding_duration(&vec![1000], 0), 0);
    assert_eq!(playback_position(3000, 60_000, 50, 100), 33_000);
}
