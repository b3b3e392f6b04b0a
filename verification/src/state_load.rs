//! Loading the store's state file: its text is read as a JSON object, brought to
//! the current schema, and written back when the migration changed it.
use vstd::prelude::*;

use crate::schema::{members_view, migrate_spec, migrate_state, Json, JsonNumber, JsonObject, JsonV, MigrateError};
use serde_json::Value;

verus! {

#[verifier::external_type_specification]
#[verifier::external_body]
pub struct ExJsonValue(serde_json::Value);

/// The members, in serde_json's order (by key), of the JSON object that
/// `serde_json::from_str` reads from a text, each number kept as an unsigned
/// integer where it is one, else as a signed integer where it is one, else by the
/// text serde_json writes for it; `None` when the text is not a JSON object.
pub uninterp spec fn json_object_of_text(text: Seq<char>) -> Option<Seq<(Seq<char>, JsonV)>>;

/// The text `serde_json::to_string_pretty` writes for an object with these
/// members, a later member replacing an earlier one of the same key; `None` when
/// a number kept by its text is not a JSON number.
pub uninterp spec fn pretty_text_of(members: Seq<(Seq<char>, JsonV)>) -> Option<Seq<char>>;

/// serde_json's value as the library's, one for one (`Number::as_u64`,
/// `Number::as_i64`, and the number's text otherwise). The meaning of what it
/// gives is stated by the names of the wrappers that use it.
#[verifier::external_body]
fn json_of_value(v: Value) -> Json {
    match v {
        Value::Null => Json::Null,
        Value::Bool(b) => Json::Bool(b),
        Value::Number(n) => Json::Num(match (n.as_u64(), n.as_i64()) {
            (Some(u), _) => JsonNumber::Unsigned(u),
            (None, Some(i)) => JsonNumber::Signed(i),
            (None, None) => JsonNumber::Other(n.to_string()),
        }),
        Value::String(s) => Json::Text(s),
        Value::Array(items) => Json::Array(items.into_iter().map(json_of_value).collect()),
        Value::Object(m) => Json::Object(m.into_iter().map(|(k, x)| (k, json_of_value(x))).collect()),
    }
}

/// The library's JSON value as serde_json's, one for one; a number kept by its
/// text is read back with `Number::from_str`, and `None` comes when that fails.
/// The meaning of what it gives is stated by the names of the wrappers that use it.
#[verifier::external_body]
fn value_of_json(j: &Json) -> Option<Value> {
    Some(match j {
        Json::Null => Value::Null,
        Json::Bool(b) => Value::Bool(*b),
        Json::Num(JsonNumber::Unsigned(u)) => Value::Number((*u).into()),
        Json::Num(JsonNumber::Signed(i)) => Value::Number((*i).into()),
        Json::Num(JsonNumber::Other(t)) => Value::Number(t.parse().ok()?),
        Json::Text(s) => Value::String(s.clone()),
        Json::Array(items) => Value::Array(items.iter().map(value_of_json).collect::<Option<_>>()?),
        Json::Object(ms) => object_of(ms)?,
    })
}

/// The members of a library object as serde_json's object, as `value_of_json`
/// converts values. The meaning of what it gives is stated by the names of the
/// wrappers that use it.
#[verifier::external_body]
fn object_of(members: &JsonObject) -> Option<Value> {
    Some(Value::Object(members.iter().map(|(k, x)| Some((k.clone(), value_of_json(x)?))).collect::<Option<_>>()?))
}

/// `serde_json::from_str` of a text as a JSON object, its members converted to
/// the library's values; `None` when serde_json refuses the text.
#[verifier::external_body]
fn parse_json_object(text: &str) -> (r: Option<JsonObject>)
    ensures
        match r {
            Some(o) => json_object_of_text(text@) == Some(members_view(o@)),
            None => json_object_of_text(text@) is None,
        },
{
    let m: serde_json::Map<String, Value> = serde_json::from_str(text).ok()?;
    Some(m.into_iter().map(|(k, v)| (k, json_of_value(v))).collect())
}

/// `serde_json::to_string_pretty` of an object with these members.
#[verifier::external_body]
fn pretty_json_object(members: &JsonObject) -> (r: Option<String>)
    ensures
        match r {
            Some(t) => pretty_text_of(members_view(members@)) == Some(t@),
            None => pretty_text_of(members_view(members@)) is None,
        },
{
    serde_json::to_string_pretty(&object_of(members)?).ok()
}

/// What reading the state file gave.
pub enum StoreRead {
    /// There is no file.
    Missing,
    /// The file could not be read.
    Unreadable,
    /// The file's text.
    Text(String),
}

/// Why a stored state was set aside.
#[derive(Debug, Clone, Copy, PartialEq, Eq)]
pub enum LoadProblem {
    /// The file could not be read.
    Unreadable,
    /// The text is not a JSON object.
    Unparseable,
    /// The state could not be migrated.
    Migration(MigrateError),
}

/// What to do with the state file, and the state to use.
pub enum StoreLoad {
    /// There was no file: the state is empty, and this text is to be written.
    Create { text: String },
    /// The stored state cannot be used: the state is empty and the file is left.
    Fallback(LoadProblem),
    /// The stored state is current and is used as it is.
    Current(JsonObject),
    /// The stored state was migrated: it is used, and this text is to be written.
    Migrated { state: JsonObject, text: String },
    /// A state to be written cannot be written as JSON.
    Unwritable,
}

/// Decides what a read of the state file gives: a missing file starts an empty
/// state that is written out; an unreadable file, a text that is not a JSON object
/// or a state that cannot be migrated gives the empty state; a migrated state is
/// written back.
pub fn load_state(read: StoreRead) -> (r: StoreLoad)
    ensures
        match read {
            StoreRead::Missing => match pretty_text_of(Seq::empty()) {
                Some(t) => r matches StoreLoad::Create { text } && text@ == t,
                None => r is Unwritable,
            },
            StoreRead::Unreadable => r matches StoreLoad::Fallback(p) && p == LoadProblem::Unreadable,
            StoreRead::Text(s) => match json_object_of_text(s@) {
                None => r matches StoreLoad::Fallback(p) && p == LoadProblem::Unparseable,
                Some(ms) => match migrate_spec(ms) {
                    Err(e) => r matches StoreLoad::Fallback(p) && p == LoadProblem::Migration(e),
                    Ok((false, m)) => r matches StoreLoad::Current(o) && members_view(o@) == m,
                    Ok((true, m)) => match pretty_text_of(m) {
                        Some(t) => r matches StoreLoad::Migrated { state, text } && members_view(state@) == m
                            && text@ == t,
                        None => r is Unwritable,
                    },
                },
            },
        },
{
    match read {
        StoreRead::Missing => {
            let empty: JsonObject = Vec::new();
            proof {
                assert(members_view(empty@) =~= Seq::empty());
            }
            match pretty_json_object(&empty) {
                Some(text) => StoreLoad::Create { text },
                None => StoreLoad::Unwritable,
            }
        },
        StoreRead::Unreadable => StoreLoad::Fallback(LoadProblem::Unreadable),
        StoreRead::Text(s) => {
            let mut data = match parse_json_object(s.as_str()) {
                Some(o) => o,
                None => {
                    return StoreLoad::Fallback(LoadProblem::Unparseable);
                },
            };
            match migrate_state(&mut data) {
                Err(e) => StoreLoad::Fallback(LoadProblem::Migration(e)),
                Ok(false) => StoreLoad::Current(data),
                Ok(true) => match pretty_json_object(&data) {
                    Some(text) => StoreLoad::Migrated { state: data, text },
                    None => StoreLoad::Unwritable,
                },
            }
        },
    }
}

} // verus!
