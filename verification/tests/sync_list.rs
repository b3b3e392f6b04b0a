use flick_sync::sync_list::{add_sync, SyncItem, SyncList};

fn find<'a>(list: &'a SyncList, id: &str) -> Option<&'a SyncItem> {
    list.items.iter().find(|i| i.id == id)
}

#[test]
fn adding_and_removing_syncs() {
    let mut list = SyncList::new();
    let configured = vec!["custom".to_string()];

    assert_eq!(add_sync(&mut list, &configured, "10", Some("720p".to_string()), false), Ok(()));
    assert_eq!(add_sync(&mut list, &configured, "11", None, true), Ok(()));
    assert_eq!(add_sync(&mut list, &configured, "12", Some("custom".to_string()), false), Ok(()));
    assert_eq!(
        add_sync(&mut list, &configured, "13", Some("4k".to_string()), false),
        Err("4k".to_string())
    );
    assert!(!list.contains("13"));
    assert_eq!(list.items.len(), 3);

    // A second add of the same key replaces the first.
    assert_eq!(add_sync(&mut list, &configured, "10", None, true), Ok(()));
    assert_eq!(list.items.len(), 3);
    let item = find(&list, "10").unwrap();
    assert_eq!(item.transcode_profile, None);
    assert!(item.only_unplayed);

    assert!(list.remove("11"));
    assert!(!list.remove("11"));
    assert!(!list.contains("11"));
    assert!(list.contains("12"));
    assert_eq!(list.items.len(), 2);
}
