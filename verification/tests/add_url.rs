use flick_sync::add_url::{sync_item_from_url, AddUrlError};

#[test]
fn reads_server_and_rating_key() {
    let r = sync_item_from_url(
        "https://app.plex.tv/desktop/#!/server/abc123/details?key=%2Flibrary%2Fmetadata%2F5678",
    );
    assert_eq!(r, Ok(("abc123".to_string(), "5678".to_string())));
    let r = sync_item_from_url("https://app.plex.tv/desktop/#!/server/s1/playlist?other=1&key=/playlists/42&key=/x/9");
    assert_eq!(r, Ok(("s1".to_string(), "42".to_string())));
}

#[test]
fn refuses_other_addresses() {
    assert_eq!(sync_item_from_url("not a url"), Err(AddUrlError::Url));
    assert_eq!(sync_item_from_url("https://app.plex.tv/desktop/"), Err(AddUrlError::Unexpected));
    assert_eq!(
        sync_item_from_url("https://app.plex.tv/desktop/#/server/a/details?key=/a/1"),
        Err(AddUrlError::Unexpected)
    );
    assert_eq!(
        sync_item_from_url("https://app.plex.tv/desktop/#!/library/a/details?key=/a/1"),
        Err(AddUrlError::Unexpected)
    );
    assert_eq!(
        sync_item_from_url("https://app.plex.tv/desktop/#!/server/a/details?key=1"),
        Err(AddUrlError::Unexpected)
    );
    assert_eq!(
        sync_item_from_url("https://app.plex.tv/desktop/#!/server/a/details?other=/a/1"),
        Err(AddUrlError::Unexpected)
    );
    assert_eq!(sync_item_from_url("https://app.plex.tv/desktop/#!/server"), Err(AddUrlError::Unexpected));
}
