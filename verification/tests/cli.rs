use flick_sync::cli::{
    err, list_line, pick_server, pick_user, prune_plan, select_servers, server_url, Error, ItemType, Pick,
    Serve, SyncItemInfo,
};

#[test]
fn errors_carry_their_message() {
    let r: Result<(), Error> = err("boom");
    assert_eq!(r, Err(Error::Generic("boom".to_string())));
    assert_eq!(Error::UnsupportedType("Photo".to_string()).message(), "Unable to sync 'Photo'");
    assert_eq!(Error::UnknownServer("home".to_string()).message(), "Unknown server home");
    assert_eq!(Error::Unknown.message(), "Unknown error");
}

#[test]
fn serve_defaults() {
    let serve = Serve { port: None, certificate: Some("c".to_string()), private_key: None, disable_syncing: false };
    assert_eq!(serve.port(), 80);
    assert!(serve.tls_files().is_none());
    let tls = Serve { port: Some(443), certificate: Some("c".to_string()), private_key: Some("k".to_string()), disable_syncing: true };
    assert_eq!(tls.port(), 443);
    assert_eq!(tls.tls_files(), Some(("c".to_string(), "k".to_string())));
}

#[test]
fn servers_are_selected_by_name() {
    let known = vec!["a".to_string(), "b".to_string()];
    assert_eq!(select_servers(&known, &vec![]), Ok(known.clone()));
    assert_eq!(select_servers(&known, &vec!["b".to_string()]), Ok(vec!["b".to_string()]));
    assert_eq!(
        select_servers(&known, &vec!["b".to_string(), "c".to_string(), "d".to_string()]),
        Err("c".to_string())
    );
}

#[test]
fn server_addresses_get_a_scheme_and_port() {
    assert_eq!(server_url("192.168.1.2"), "http://192.168.1.2:32400");
    assert_eq!(server_url("192.168.1.2:8080"), "http://192.168.1.2:8080");
    assert_eq!(server_url("https://plex.example"), "https://plex.example");
}

#[test]
fn sync_items_are_listed_in_columns() {
    let item = SyncItemInfo {
        id: "123".to_string(),
        item_type: ItemType::MovieCollection,
        title: "Favourites".to_string(),
        transcode_profile: Some("720p".to_string()),
        only_unplayed: true,
    };
    assert_eq!(
        list_line("home", &item),
        "home       123      Movie Collection  Favourites           unplayed 720p      "
    );
    let plain = SyncItemInfo {
        id: "9".to_string(),
        item_type: ItemType::Show,
        title: "S".to_string(),
        transcode_profile: None,
        only_unplayed: false,
    };
    assert_eq!(
        list_line("h", &plain),
        "h          9        Show              S                    all           "
    );
}

#[test]
fn picking_users_and_servers() {
    let users = vec!["u1".to_string(), "u2".to_string(), "u2".to_string()];
    assert_eq!(pick_user(&users, Some("u2")), Pick::Remembered(1));
    assert_eq!(pick_user(&users, Some("u9")), Pick::Ask);
    assert_eq!(pick_user(&users, None), Pick::Ask);
    let one = vec!["u1".to_string()];
    assert_eq!(pick_user(&one, Some("u9")), Pick::Only);
    assert_eq!(pick_user(&one, None), Pick::Only);

    assert_eq!(pick_server(0), Pick::NoneListed);
    assert_eq!(pick_server(1), Pick::Only);
    assert_eq!(pick_server(3), Pick::Ask);
}

#[test]
fn pruning_covers_the_top_level_only_without_servers() {
    let known = vec!["home".to_string(), "work".to_string()];
    assert_eq!(prune_plan(&known, &Vec::new()), Ok((true, known.clone())));
    assert_eq!(prune_plan(&known, &vec!["work".to_string()]), Ok((false, vec!["work".to_string()])));
    assert_eq!(prune_plan(&known, &vec!["away".to_string()]), Err("away".to_string()));
}
