use flick_sync::schema::{Json, JsonNumber, MigrateError};
use flick_sync::state_load::{load_state, LoadProblem, StoreLoad, StoreRead};

fn read(text: &str) -> StoreLoad {
    load_state(StoreRead::Text(text.to_string()))
}

#[test]
fn missing_state_file_is_created_empty() {
    match load_state(StoreRead::Missing) {
        StoreLoad::Create { text } => assert_eq!(text, "{}"),
        _ => panic!("expected a new file"),
    }
}

#[test]
fn unusable_state_files_give_an_empty_state() {
    assert!(matches!(load_state(StoreRead::Unreadable), StoreLoad::Fallback(LoadProblem::Unreadable)));
    assert!(matches!(read("not json"), StoreLoad::Fallback(LoadProblem::Unparseable)));
    assert!(matches!(read("[1, 2]"), StoreLoad::Fallback(LoadProblem::Unparseable)));
    assert!(matches!(
        read(r#"{"schema": 4}"#),
        StoreLoad::Fallback(LoadProblem::Migration(MigrateError::UnexpectedVersion))
    ));
    assert!(matches!(
        read(r#"{"schema": "3"}"#),
        StoreLoad::Fallback(LoadProblem::Migration(MigrateError::MissingVersion))
    ));
}

#[test]
fn current_state_is_used_as_read() {
    match read(r#"{"schema": 3, "x": -5, "y": 1.5, "clientId": "abc"}"#) {
        StoreLoad::Current(members) => {
            let keys: Vec<&str> = members.iter().map(|(k, _)| k.as_str()).collect();
            assert_eq!(keys, vec!["clientId", "schema", "x", "y"]);
            assert!(matches!(&members[0].1, Json::Text(t) if t == "abc"));
            assert!(matches!(&members[1].1, Json::Num(JsonNumber::Unsigned(3))));
            assert!(matches!(&members[2].1, Json::Num(JsonNumber::Signed(-5))));
            assert!(matches!(&members[3].1, Json::Num(JsonNumber::Other(t)) if t == "1.5"));
        }
        _ => panic!("expected the state as read"),
    }
}

#[test]
fn older_state_is_migrated_and_rewritten() {
    match read(r#"{"clientId": "abc", "servers": {}}"#) {
        StoreLoad::Migrated { state, text } => {
            assert!(state.iter().any(|(k, v)| k == "schema" && matches!(v, Json::Num(JsonNumber::Unsigned(3)))));
            assert!(text.contains("\"schema\": 3"));
            assert!(text.contains("\"clientId\": \"abc\""));
            assert!(matches!(read(&text), StoreLoad::Current(_)));
        }
        _ => panic!("expected a migrated state"),
    }
}
