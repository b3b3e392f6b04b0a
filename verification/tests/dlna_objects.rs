use flick_sync::dlna::{ItemKind, ObjectRef};
use flick_sync::dlna_objects::{
    found, list_children, listed_container, root_children, target_of, Target, object_id, part_item, part_ref, part_resource,
    season_container, show_container, video_container, Listing,
};
use flick_sync::title_sort::sort_by_title;
use flick_sync::upnp::{Container, Item, Object, UpnpError};

fn container(title: &str) -> Object {
    Object::Container(Container {
        id: title.to_string(),
        parent_id: "0".to_string(),
        child_count: None,
        title: title.to_string(),
    })
}

fn item(id: &str, title: &str) -> Object {
    Object::Item(Item {
        id: id.to_string(),
        parent_id: "0".to_string(),
        title: title.to_string(),
        resources: Vec::new(),
    })
}

fn ids(objects: &[Object]) -> Vec<String> {
    objects
        .iter()
        .map(|o| match o {
            Object::Item(i) => i.id.clone(),
            Object::Container(c) => c.id.clone(),
        })
        .collect()
}

#[test]
fn object_ids_read_back() {
    let id = object_id("home", ItemKind::Season, "17");
    assert_eq!(id, "home/N:17");
    match ObjectRef::parse(&id) {
        ObjectRef::Item { server, kind, id } => {
            assert_eq!(server, "home");
            assert_eq!(kind, "N");
            assert_eq!(id, "17");
        }
        _ => panic!("expected an item"),
    }
    assert_eq!(object_id("home", ItemKind::VideoPart, "5/0"), "home/VP:5/0");
}

#[test]
fn containers_of_items() {
    let c = listed_container(ItemKind::Playlist, "home", "9", "Road trip".to_string(), 4);
    assert_eq!(c.id, "home/P:9");
    assert_eq!(c.parent_id, "P");
    assert_eq!(c.child_count, Some(4));
    assert_eq!(c.title, "Road trip");

    let c = listed_container(ItemKind::Library, "home", "1", "Movies".to_string(), 0);
    assert_eq!(c.id, "home/L:1");
    assert_eq!(c.parent_id, "L");

    let c = show_container("home", "30", "Show".to_string(), "home", "2", 3);
    assert_eq!(c.id, "home/S:30");
    assert_eq!(c.parent_id, "home/L:2");
    assert_eq!(c.child_count, Some(3));

    let c = season_container("home", "31", "Season 1".to_string(), "home", "30", 10);
    assert_eq!(c.id, "home/N:31");
    assert_eq!(c.parent_id, "home/S:30");
    assert_eq!(c.child_count, Some(10));

    let c = video_container("home", "7", "Long".to_string(), "home/L:1".to_string(), 2);
    assert_eq!(c.id, "home/V:7");
    assert_eq!(c.parent_id, "home/L:1");
    assert_eq!(c.child_count, Some(2));
}

#[test]
fn parts_of_videos() {
    let only = part_item("home", "7", 0, 1, "Film", "home/L:1".to_string(), Vec::new());
    assert_eq!(only.id, "home/V:7");
    assert_eq!(only.parent_id, "home/L:1");
    assert_eq!(only.title, "Film");

    let resource = part_resource("home", "7", 1, "video/mp4".to_string(), 1000, 60000);
    assert_eq!(resource.id, "video/home/VP:7/1");
    assert_eq!(resource.size, Some(1000));
    assert_eq!(resource.duration, Some(60000));
    assert!(resource.seekable);

    let second = part_item("home", "7", 1, 2, "Film", "home/L:1".to_string(), vec![resource]);
    assert_eq!(second.id, "home/VP:7/1");
    assert_eq!(second.parent_id, "home/V:7");
    assert_eq!(second.title, "Film - Pt 2");
    assert_eq!(second.resources.len(), 1);
}

#[test]
fn children_in_title_order() {
    let sorted = sort_by_title(vec![
        container("The Zoo"),
        item("b1", "bird"),
        container("Apple"),
        item("b2", "The Bird"),
        container("a cat"),
    ]);
    assert_eq!(ids(&sorted), vec!["Apple", "b1", "b2", "a cat", "The Zoo"]);
    assert!(sort_by_title(Vec::<Object>::new()).is_empty());
}

#[test]
fn part_ids_within_a_server() {
    assert_eq!(part_ref("1234/2"), Some(("1234".to_string(), 2)));
    assert_eq!(part_ref("1234/+3"), Some(("1234".to_string(), 3)));
    assert_eq!(part_ref("1234"), None);
    assert_eq!(part_ref("1234/x"), None);
    assert_eq!(part_ref("a/b/1"), None);
    assert_eq!(part_ref("1234/99999999999999999999999"), None);
}

#[test]
fn listings_sort_by_kind() {
    let children = || vec![container("Zoo"), container("apple")];
    assert_eq!(ids(&list_children(Listing::Libraries, children())), vec!["apple", "Zoo"]);
    assert_eq!(ids(&list_children(Listing::ShowCollection, children())), vec!["apple", "Zoo"]);
    assert_eq!(ids(&list_children(Listing::Playlist, children())), vec!["Zoo", "apple"]);
    assert_eq!(ids(&list_children(Listing::Season, children())), vec!["Zoo", "apple"]);
}

#[test]
fn object_ids_name_their_targets() {
    assert!(matches!(target_of("0"), Ok(Target::Root)));
    assert!(matches!(target_of("L"), Ok(Target::Libraries)));
    assert!(matches!(target_of("P"), Ok(Target::Playlists)));
    assert!(matches!(target_of("C"), Ok(Target::Collections)));
    match target_of("home/N:42") {
        Ok(Target::Item { server, kind, id }) => {
            assert_eq!(server, "home");
            assert_eq!(kind, ItemKind::Season);
            assert_eq!(id, "42");
        },
        _ => panic!("expected an item"),
    }
    assert_eq!(target_of("home/Q:42").err(), Some(UpnpError::ArgumentInvalid));
    assert_eq!(target_of("nonsense").err(), Some(UpnpError::ArgumentInvalid));
    assert_eq!(target_of("").err(), Some(UpnpError::ArgumentInvalid));
}

#[test]
fn missing_objects_are_invalid_arguments() {
    assert_eq!(found(Some(3)), Ok(3));
    assert_eq!(found::<u32>(None), Err(UpnpError::ArgumentInvalid));
}

#[test]
fn root_lists_libraries_collections_playlists() {
    let children = root_children(2, 0, 5);
    let expected: Vec<(&str, &str, Option<usize>)> =
        vec![("L", "Libraries", Some(2)), ("C", "Collections", Some(0)), ("P", "Playlists", Some(5))];
    assert_eq!(children.len(), 3);
    for (child, (id, title, count)) in children.iter().zip(expected) {
        match child {
            Object::Container(c) => {
                assert_eq!(c.id, id);
                assert_eq!(c.parent_id, "0");
                assert_eq!(c.title, title);
                assert_eq!(c.child_count, count);
            },
            _ => panic!("expected a container"),
        }
    }
}
