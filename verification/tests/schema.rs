use flick_sync::schema::{
    apply, copy_json, find_member, insert_member, migrate_state, Edit, Json, JsonNumber,
    JsonObject, MigrateError, Step, SCHEMA_VERSION,
};

fn obj(members: Vec<(&str, Json)>) -> Json {
    Json::Object(members.into_iter().map(|(k, v)| (k.to_string(), v)).collect())
}

fn text(s: &str) -> Json {
    Json::Text(s.to_string())
}

fn num(n: u64) -> Json {
    Json::Num(JsonNumber::Unsigned(n))
}

fn get<'a>(j: &'a Json, path: &[&str]) -> Option<&'a Json> {
    let mut cur = j;
    for key in path {
        match cur {
            Json::Object(ms) => {
                let i = find_member(ms, key)?;
                cur = &ms[i].1;
            }
            _ => return None,
        }
    }
    Some(cur)
}

fn is_text(j: Option<&Json>, s: &str) -> bool {
    matches!(j, Some(Json::Text(t)) if t == s)
}

fn is_num(j: Option<&Json>, n: u64) -> bool {
    matches!(j, Some(Json::Num(JsonNumber::Unsigned(m))) if *m == n)
}

fn version_zero_state() -> JsonObject {
    let video = obj(vec![
        ("thumbnail", obj(vec![("state", text("downloaded")), ("path", text("a.jpg"))])),
        ("metadata", obj(vec![("state", text("none"))])),
        ("lastUpdated", num(5)),
    ]);
    let show = obj(vec![
        ("thumbnail", obj(vec![("state", text("downloaded")), ("path", text("s.jpg"))])),
        ("lastUpdated", num(7)),
    ]);
    let server = obj(vec![
        ("videos", obj(vec![("v1", video)])),
        ("shows", obj(vec![("s1", show)])),
        ("collections", obj(vec![])),
        ("playlists", obj(vec![("p1", obj(vec![("title", text("Mix"))]))])),
    ]);
    match obj(vec![("clientId", text("abc")), ("servers", obj(vec![("srv", server)]))]) {
        Json::Object(ms) => ms,
        _ => unreachable!(),
    }
}

#[test]
fn migrates_version_zero() {
    let mut data = version_zero_state();
    assert_eq!(migrate_state(&mut data), Ok(true));
    let doc = Json::Object(data);
    assert!(is_num(get(&doc, &["schema"]), SCHEMA_VERSION));
    assert!(is_text(get(&doc, &["servers", "srv", "videos", "v1", "thumbnail", "state"]), "stored"));
    assert!(is_num(get(&doc, &["servers", "srv", "videos", "v1", "thumbnail", "updated"]), 5));
    assert!(is_text(get(&doc, &["servers", "srv", "videos", "v1", "metadata", "state"]), "none"));
    assert!(get(&doc, &["servers", "srv", "videos", "v1", "metadata", "updated"]).is_none());
    assert!(is_text(get(&doc, &["servers", "srv", "shows", "s1", "thumbnail", "state"]), "stored"));
    assert!(is_num(get(&doc, &["servers", "srv", "shows", "s1", "thumbnail", "updated"]), 7));
    assert!(is_num(get(&doc, &["servers", "srv", "playlists", "p1", "lastUpdated"]), 0));
    assert!(is_text(get(&doc, &["clientId"]), "abc"));

    let mut again = match doc {
        Json::Object(ms) => ms,
        _ => unreachable!(),
    };
    assert_eq!(migrate_state(&mut again), Ok(false));
}

#[test]
fn migrates_from_version_two() {
    let mut data = version_zero_state();
    insert_member(&mut data, "schema", num(2));
    assert_eq!(migrate_state(&mut data), Ok(true));
    let doc = Json::Object(data);
    assert!(is_text(get(&doc, &["servers", "srv", "videos", "v1", "thumbnail", "state"]), "downloaded"));
    assert!(get(&doc, &["servers", "srv", "videos", "v1", "thumbnail", "updated"]).is_none());
    assert!(is_num(get(&doc, &["servers", "srv", "playlists", "p1", "lastUpdated"]), 0));
    assert!(is_num(get(&doc, &["schema"]), 3));
}

#[test]
fn refuses_unknown_versions() {
    let mut data = version_zero_state();
    insert_member(&mut data, "schema", num(4));
    assert_eq!(migrate_state(&mut data), Err(MigrateError::UnexpectedVersion));
    assert!(is_num(get(&Json::Object(data), &["schema"]), 4));
    let mut data = version_zero_state();
    insert_member(&mut data, "schema", Json::Num(JsonNumber::Signed(-1)));
    assert_eq!(migrate_state(&mut data), Err(MigrateError::UnexpectedVersion));
    let mut data = version_zero_state();
    insert_member(&mut data, "schema", text("3"));
    assert_eq!(migrate_state(&mut data), Err(MigrateError::MissingVersion));
    let mut data = version_zero_state();
    insert_member(&mut data, "schema", num(3));
    assert_eq!(migrate_state(&mut data), Ok(false));
}

#[test]
fn paths_reach_arrays_and_objects() {
    let doc = obj(vec![("list", Json::Array(vec![obj(vec![]), num(1), obj(vec![("a", Json::Null)])]))]);
    let path = [Step::Key("list"), Step::Each];
    let r = apply(copy_json(&doc), &path, 0, Edit::ResetUpdated);
    match get(&r, &["list"]) {
        Some(Json::Array(items)) => {
            assert_eq!(items.len(), 3);
            assert!(is_num(get(&items[0], &["lastUpdated"]), 0));
            assert!(is_num(Some(&items[1]), 1));
            assert!(is_num(get(&items[2], &["lastUpdated"]), 0));
            assert!(matches!(get(&items[2], &["a"]), Some(Json::Null)));
        }
        _ => panic!("expected an array"),
    }
    let untouched = apply(copy_json(&doc), &[Step::Key("missing"), Step::Each], 0, Edit::ResetUpdated);
    assert!(get(&untouched, &["lastUpdated"]).is_none());
    let mut ms: JsonObject = Vec::new();
    insert_member(&mut ms, "k", num(1));
    insert_member(&mut ms, "k", num(2));
    assert_eq!(ms.len(), 1);
    assert!(is_num(Some(&ms[0].1), 2));
}
