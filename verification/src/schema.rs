//! Stored JSON documents and the migration of the state file from older schema
//! versions to the current one.
use vstd::prelude::*;

use crate::text::{chars_eq, to_chars};

verus! {

// ---------------------------------------------------------------------------
// JSON values
// ---------------------------------------------------------------------------

/// A JSON number: a non-negative or a negative integer, or any other number by
/// its text.
#[derive(Debug, Clone, PartialEq, Eq)]
pub enum JsonNumber {
    Unsigned(u64),
    Signed(i64),
    Other(String),
}

/// A JSON value. An object's keys are distinct.
#[derive(Debug)]
pub enum Json {
    Null,
    Bool(bool),
    Num(JsonNumber),
    Text(String),
    Array(Vec<Json>),
    Object(Vec<(String, Json)>),
}

/// The members of a JSON object.
pub type JsonObject = Vec<(String, Json)>;

/// A JSON number as a mathematical value.
pub enum NumberV {
    Unsigned(u64),
    Signed(i64),
    Other(Seq<char>),
}

/// A JSON value as a mathematical value.
pub enum JsonV {
    Null,
    Bool(bool),
    Num(NumberV),
    Text(Seq<char>),
    Array(Seq<JsonV>),
    Object(Seq<(Seq<char>, JsonV)>),
}

pub open spec fn number_view(n: JsonNumber) -> NumberV {
    match n {
        JsonNumber::Unsigned(u) => NumberV::Unsigned(u),
        JsonNumber::Signed(i) => NumberV::Signed(i),
        JsonNumber::Other(t) => NumberV::Other(t@),
    }
}

/// What a JSON value holds.
pub open spec fn json_view(j: Json) -> JsonV
    decreases j,
{
    match j {
        Json::Null => JsonV::Null,
        Json::Bool(b) => JsonV::Bool(b),
        Json::Num(n) => JsonV::Num(number_view(n)),
        Json::Text(t) => JsonV::Text(t@),
        Json::Array(items) => {
            proof {
                assert(decreases_to!(j => items));
                assert(decreases_to!(items => items@));
            }
            JsonV::Array(items_view(items@))
        },
        Json::Object(members) => {
            proof {
                assert(decreases_to!(j => members));
                assert(decreases_to!(members => members@));
            }
            JsonV::Object(members_view(members@))
        },
    }
}

/// What the items of an array hold.
pub open spec fn items_view(s: Seq<Json>) -> Seq<JsonV>
    decreases s,
{
    if s.len() == 0 {
        Seq::empty()
    } else {
        proof {
            assert(decreases_to!(s => s[0]));
            assert(decreases_to!(s => s.subrange(1, s.len() as int)));
        }
        seq![json_view(s[0])] + items_view(s.subrange(1, s.len() as int))
    }
}

/// What the members of an object hold.
pub open spec fn members_view(s: Seq<(String, Json)>) -> Seq<(Seq<char>, JsonV)>
    decreases s,
{
    if s.len() == 0 {
        Seq::empty()
    } else {
        proof {
            assert(decreases_to!(s => s[0]));
            assert(decreases_to!(s[0] => s[0].1));
            assert(decreases_to!(s => s.subrange(1, s.len() as int)));
        }
        seq![(s[0].0@, json_view(s[0].1))] + members_view(s.subrange(1, s.len() as int))
    }
}

/// The view of an array holds the view of each item, in order.
pub proof fn lemma_items_view(s: Seq<Json>)
    ensures
        items_view(s).len() == s.len(),
        forall|i: int| 0 <= i < s.len() ==> #[trigger] items_view(s)[i] == json_view(s[i]),
    decreases s.len(),
{
    if s.len() > 0 {
        let rest = s.subrange(1, s.len() as int);
        lemma_items_view(rest);
        assert forall|i: int| 0 <= i < s.len() implies #[trigger] items_view(s)[i] == json_view(
            s[i],
        ) by {
            if i > 0 {
                assert(rest[i - 1] == s[i]);
            }
        }
    }
}

/// The view of an object holds each member's key and the view of its value, in
/// order.
pub proof fn lemma_members_view(s: Seq<(String, Json)>)
    ensures
        members_view(s).len() == s.len(),
        forall|i: int|
            0 <= i < s.len() ==> #[trigger] members_view(s)[i] == (s[i].0@, json_view(s[i].1)),
    decreases s.len(),
{
    if s.len() > 0 {
        let rest = s.subrange(1, s.len() as int);
        lemma_members_view(rest);
        assert forall|i: int| 0 <= i < s.len() implies #[trigger] members_view(s)[i] == (
            s[i].0@,
            json_view(s[i].1),
        ) by {
            if i > 0 {
                assert(rest[i - 1] == s[i]);
            }
        }
    }
}


// ---------------------------------------------------------------------------
// Object members
// ---------------------------------------------------------------------------

/// Whether an object has a member with a key.
pub open spec fn has_member(ms: Seq<(Seq<char>, JsonV)>, key: Seq<char>) -> bool {
    exists|i: int| 0 <= i < ms.len() && #[trigger] ms[i].0 == key
}

/// Where the first member with a key is.
pub open spec fn member_index(ms: Seq<(Seq<char>, JsonV)>, key: Seq<char>) -> int {
    choose|i: int|
        0 <= i < ms.len() && ms[i].0 == key && forall|j: int| 0 <= j < i ==> #[trigger] ms[j].0 != key
}

/// The value of the member with a key.
pub open spec fn member(ms: Seq<(Seq<char>, JsonV)>, key: Seq<char>) -> Option<JsonV> {
    if has_member(ms, key) {
        Some(ms[member_index(ms, key)].1)
    } else {
        None
    }
}

/// The members after setting a key: its member takes the value, or a new member
/// comes last.
pub open spec fn with_member(ms: Seq<(Seq<char>, JsonV)>, key: Seq<char>, v: JsonV) -> Seq<(Seq<char>, JsonV)> {
    if has_member(ms, key) {
        ms.update(member_index(ms, key), (key, v))
    } else {
        ms.push((key, v))
    }
}

/// The first member with a key is at `i` when no member before it has the key.
pub proof fn lemma_member_index(ms: Seq<(Seq<char>, JsonV)>, key: Seq<char>, i: int)
    requires
        0 <= i < ms.len(),
        ms[i].0 == key,
        forall|j: int| 0 <= j < i ==> #[trigger] ms[j].0 != key,
    ensures
        has_member(ms, key),
        member_index(ms, key) == i,
        member(ms, key) == Some(ms[i].1),
{
    let c = member_index(ms, key);
    if c < i {
        assert(ms[c].0 != key);
    } else if c > i {
        assert(ms[i].0 != key);
    }
}

/// An object with a member with some key has a first such member.
pub proof fn lemma_first_member(ms: Seq<(Seq<char>, JsonV)>, key: Seq<char>)
    requires
        has_member(ms, key),
    ensures
        0 <= member_index(ms, key) < ms.len(),
        ms[member_index(ms, key)].0 == key,
        forall|j: int| 0 <= j < member_index(ms, key) ==> #[trigger] ms[j].0 != key,
    decreases ms.len(),
{
    if ms[0].0 == key {
        lemma_member_index(ms, key, 0);
    } else {
        let rest = ms.drop_first();
        let w = choose|i: int| 0 <= i < ms.len() && #[trigger] ms[i].0 == key;
        assert(rest[w - 1].0 == key);
        lemma_first_member(rest, key);
        let k = member_index(rest, key);
        assert forall|j: int| 0 <= j < k + 1 implies #[trigger] ms[j].0 != key by {
            if j > 0 {
                assert(ms[j] == rest[j - 1]);
            }
        }
        lemma_member_index(ms, key, k + 1);
    }
}

/// Reading a member back after setting it gives the value set; other keys are
/// as they were.
pub proof fn lemma_read_member(ms: Seq<(Seq<char>, JsonV)>, key: Seq<char>, v: JsonV, other: Seq<char>)
    ensures
        member(with_member(ms, key, v), key) == Some(v),
        other != key ==> member(with_member(ms, key, v), other) == member(ms, other),
        has_member(with_member(ms, key, v), other) == (other == key || has_member(ms, other)),
{
    let r = with_member(ms, key, v);
    if has_member(ms, key) {
        lemma_first_member(ms, key);
        let i = member_index(ms, key);
        assert forall|j: int| 0 <= j < i implies #[trigger] r[j].0 != key by {
            assert(r[j] == ms[j]);
        }
        lemma_member_index(r, key, i);
    } else {
        let i = ms.len() as int;
        assert forall|j: int| 0 <= j < i implies #[trigger] r[j].0 != key by {
            assert(r[j] == ms[j]);
        }
        lemma_member_index(r, key, i);
    }
    if other != key {
        if has_member(ms, other) {
            lemma_first_member(ms, other);
            let k = member_index(ms, other);
            assert(r[k] == ms[k]);
            assert forall|j: int| 0 <= j < k implies #[trigger] r[j].0 != other by {
                if j < ms.len() {
                    assert(r[j].0 == key || r[j] == ms[j]);
                }
            }
            lemma_member_index(r, other, k);
        } else {
            assert forall|j: int| 0 <= j < r.len() implies #[trigger] r[j].0 != other by {
                if j < ms.len() {
                    assert(r[j].0 == key || r[j] == ms[j]);
                }
            }
        }
    }
}

/// Where the first member with a key is.
pub fn find_member(ms: &JsonObject, key: &str) -> (r: Option<usize>)
    ensures
        match r {
            Some(i) => i < ms.len() && ms@[i as int].0@ == key@ && has_member(members_view(ms@), key@)
                && i == member_index(members_view(ms@), key@),
            None => !has_member(members_view(ms@), key@),
        },
{
    proof {
        lemma_members_view(ms@);
    }
    let target = to_chars(key);
    let mut i: usize = 0;
    while i < ms.len()
        invariant
            i <= ms.len(),
            target@ == key@,
            members_view(ms@).len() == ms@.len(),
            forall|j: int| 0 <= j < ms@.len() ==> #[trigger] members_view(ms@)[j] == (ms@[j].0@, json_view(ms@[j].1)),
            forall|j: int| 0 <= j < i ==> #[trigger] members_view(ms@)[j].0 != key@,
        decreases ms.len() - i,
    {
        let k = to_chars(ms[i].0.as_str());
        if chars_eq(k.as_slice(), target.as_slice()) {
            proof {
                lemma_member_index(members_view(ms@), key@, i as int);
            }
            return Some(i);
        }
        i = i + 1;
    }
    None
}

/// The member found for a key holds the value at the place found.
proof fn lemma_found_member(ms: Seq<(String, Json)>, key: Seq<char>, i: int)
    requires
        0 <= i < ms.len(),
        has_member(members_view(ms), key),
        i == member_index(members_view(ms), key),
    ensures
        member(members_view(ms), key) == Some(json_view(ms[i].1)),
{
    lemma_members_view(ms);
}

/// Sets a member: the first with the key takes the value, or it is added last.
pub fn insert_member(ms: &mut JsonObject, key: &str, v: Json)
    ensures
        members_view(final(ms)@) == with_member(members_view(old(ms)@), key@, json_view(v)),
{
    proof {
        lemma_members_view(old(ms)@);
    }
    let ghost jv = json_view(v);
    match find_member(ms, key) {
        Some(i) => {
            let ghost before = ms@;
            ms.set(i, (key.to_owned(), v));
            proof {
                lemma_members_view(ms@);
                assert(ms@ == before.update(i as int, (ms@[i as int].0, v)));
                assert forall|k: int| 0 <= k < ms@.len() implies #[trigger] members_view(ms@)[k]
                    == members_view(before).update(i as int, (key@, jv))[k] by {
                    if k != i {
                        assert(ms@[k] == before[k]);
                    }
                }
                assert(members_view(ms@) =~= members_view(before).update(i as int, (key@, jv)));
            }
        },
        None => {
            ms.push((key.to_owned(), v));
            proof {
                lemma_members_view(ms@);
                assert(members_view(ms@) =~= members_view(old(ms)@).push((key@, jv)));
            }
        },
    }
}

/// A copy of a JSON value.
#[verifier::loop_isolation(false)]
pub fn copy_json(j: &Json) -> (r: Json)
    ensures
        json_view(r) == json_view(*j),
    decreases j,
{
    match j {
        Json::Null => Json::Null,
        Json::Bool(b) => Json::Bool(*b),
        Json::Num(n) => Json::Num(
            match n {
                JsonNumber::Unsigned(u) => JsonNumber::Unsigned(*u),
                JsonNumber::Signed(i) => JsonNumber::Signed(*i),
                JsonNumber::Other(t) => JsonNumber::Other(t.clone()),
            },
        ),
        Json::Text(t) => Json::Text(t.clone()),
        Json::Array(items) => {
            let mut out: Vec<Json> = Vec::new();
            let mut i: usize = 0;
            while i < items.len()
                invariant
                    i <= items.len(),
                    out.len() == i,
                    forall|k: int| 0 <= k < i ==> #[trigger] json_view(out@[k]) == json_view(items@[k]),
                decreases items.len() - i,
            {
                proof {
                    assert(decreases_to!(*j => *items));
                    assert(decreases_to!(*items => items@));
                    assert(decreases_to!(items@ => items@[i as int]));
                }
                let c = copy_json(&items[i]);
                out.push(c);
                i = i + 1;
            }
            proof {
                lemma_items_view(out@);
                lemma_items_view(items@);
                assert(items_view(out@) =~= items_view(items@));
            }
            Json::Array(out)
        },
        Json::Object(members) => {
            let mut out: Vec<(String, Json)> = Vec::new();
            let mut i: usize = 0;
            while i < members.len()
                invariant
                    i <= members.len(),
                    out.len() == i,
                    forall|k: int|
                        0 <= k < i ==> #[trigger] out@[k].0@ == members@[k].0@ && json_view(out@[k].1)
                            == json_view(members@[k].1),
                decreases members.len() - i,
            {
                proof {
                    assert(decreases_to!(*j => *members));
                    assert(decreases_to!(*members => members@));
                    assert(decreases_to!(members@ => members@[i as int]));
                    assert(decreases_to!(members@[i as int] => members@[i as int].1));
                }
                let c = copy_json(&members[i].1);
                out.push((members[i].0.clone(), c));
                i = i + 1;
            }
            proof {
                lemma_members_view(out@);
                lemma_members_view(members@);
                assert(members_view(out@) =~= members_view(members@));
            }
            Json::Object(out)
        },
    }
}


// ---------------------------------------------------------------------------
// Editing the values a path reaches
// ---------------------------------------------------------------------------

/// One step of a path into a document.
#[derive(Debug, Clone, Copy)]
pub enum Step {
    /// The value of an object's member with this key.
    Key(&'static str),
    /// Each value of an object, or each item of an array.
    Each,
}

/// What is done to each object a path reaches.
#[derive(Debug, Clone, Copy, PartialEq, Eq, Structural)]
pub enum Edit {
    /// A file recorded as `downloaded` becomes `stored`.
    MarkStored,
    /// The item's `lastUpdated` is copied to `updated` in its stored thumbnail
    /// and, when asked, its stored metadata.
    CopyUpdated { metadata: bool },
    /// A playlist gets a `lastUpdated` of 0.
    ResetUpdated,
}

/// A child object that has a `path` gets `updated` set to `u`.
pub open spec fn copy_into(ms: Seq<(Seq<char>, JsonV)>, child: Seq<char>, u: JsonV) -> Seq<(Seq<char>, JsonV)> {
    match member(ms, child) {
        Some(JsonV::Object(cs)) => if has_member(cs, "path"@) {
            with_member(ms, child, JsonV::Object(with_member(cs, "updated"@, u)))
        } else {
            ms
        },
        _ => ms,
    }
}

/// An edit of an object's members.
pub open spec fn edit_members(ms: Seq<(Seq<char>, JsonV)>, edit: Edit) -> Seq<(Seq<char>, JsonV)> {
    match edit {
        Edit::MarkStored => if member(ms, "state"@) == Some(JsonV::Text("downloaded"@)) {
            with_member(ms, "state"@, JsonV::Text("stored"@))
        } else {
            ms
        },
        Edit::CopyUpdated { metadata } => match member(ms, "lastUpdated"@) {
            Some(u) => {
                let a = copy_into(ms, "thumbnail"@, u);
                if metadata {
                    copy_into(a, "metadata"@, u)
                } else {
                    a
                }
            },
            None => ms,
        },
        Edit::ResetUpdated => with_member(ms, "lastUpdated"@, JsonV::Num(NumberV::Unsigned(0))),
    }
}

/// A value after an edit: only objects are edited.
pub open spec fn edit_spec(v: JsonV, edit: Edit) -> JsonV {
    match v {
        JsonV::Object(ms) => JsonV::Object(edit_members(ms, edit)),
        _ => v,
    }
}

/// A value after the objects a path reaches in it are edited.
pub open spec fn apply_spec(v: JsonV, path: Seq<Step>, edit: Edit) -> JsonV
    decreases path.len(), 1int,
{
    if path.len() == 0 {
        edit_spec(v, edit)
    } else {
        match path[0] {
            Step::Key(k) => match v {
                JsonV::Object(ms) => JsonV::Object(apply_key_spec(ms, path, edit)),
                _ => v,
            },
            Step::Each => match v {
                JsonV::Object(ms) => JsonV::Object(apply_members_spec(ms, path, edit)),
                JsonV::Array(xs) => JsonV::Array(apply_items_spec(xs, path, edit)),
                _ => v,
            },
        }
    }
}

/// The members after the path, whose first step is a key, goes on into the
/// member with that key, if there is one.
pub open spec fn apply_key_spec(ms: Seq<(Seq<char>, JsonV)>, path: Seq<Step>, edit: Edit) -> Seq<(Seq<char>, JsonV)>
    decreases path.len(), 0int,
{
    if path.len() > 0 && path[0] is Key {
        let k = path[0]->Key_0@;
        if has_member(ms, k) {
            let i = member_index(ms, k);
            ms.update(i, (k, apply_spec(ms[i].1, path.drop_first(), edit)))
        } else {
            ms
        }
    } else {
        ms
    }
}

/// The members after the path goes on into each of them.
pub open spec fn apply_members_spec(ms: Seq<(Seq<char>, JsonV)>, path: Seq<Step>, edit: Edit) -> Seq<(Seq<char>, JsonV)>
    decreases path.len(), 0int,
{
    if path.len() > 0 {
        Seq::new(ms.len(), |i: int| (ms[i].0, apply_spec(ms[i].1, path.drop_first(), edit)))
    } else {
        ms
    }
}

/// The items after the path goes on into each of them.
pub open spec fn apply_items_spec(xs: Seq<JsonV>, path: Seq<Step>, edit: Edit) -> Seq<JsonV>
    decreases path.len(), 0int,
{
    if path.len() > 0 {
        Seq::new(xs.len(), |i: int| apply_spec(xs[i], path.drop_first(), edit))
    } else {
        xs
    }
}

/// Setting a member's value changes its view at the same place.
proof fn lemma_set_member(ms: Seq<(String, Json)>, i: int, key: String, v: Json)
    requires
        0 <= i < ms.len(),
    ensures
        members_view(ms.update(i, (key, v))) == members_view(ms).update(i, (key@, json_view(v))),
{
    let r = ms.update(i, (key, v));
    lemma_members_view(ms);
    lemma_members_view(r);
    assert forall|k: int| 0 <= k < r.len() implies #[trigger] members_view(r)[k] == members_view(
        ms,
    ).update(i, (key@, json_view(v)))[k] by {
        if k != i {
            assert(r[k] == ms[k]);
        }
    }
    assert(members_view(r) =~= members_view(ms).update(i, (key@, json_view(v))));
}

/// Copies `lastUpdated` into a child that has a `path`.
fn copy_into_exec(ms: &mut JsonObject, child: &str, u: &Json)
    ensures
        members_view(final(ms)@) == copy_into(members_view(old(ms)@), child@, json_view(*u)),
{
    proof {
        reveal_strlit("path");
        reveal_strlit("updated");
    }
    let i = match find_member(ms, child) {
        Some(i) => i,
        None => {
            return;
        },
    };
    proof {
        lemma_found_member(ms@, child@, i as int);
    }
    let mut cs = match copy_json(&ms[i].1) {
        Json::Object(cs) => cs,
        _ => {
            return;
        },
    };
    if find_member(&cs, "path").is_none() {
        return;
    }
    let ghost old_cs = cs@;
    insert_member(&mut cs, "updated", copy_json(u));
    let key = ms[i].0.clone();
    let ghost before = ms@;
    ms.set(i, (key, Json::Object(cs)));
    proof {
        lemma_set_member(before, i as int, key, Json::Object(cs));
        assert(key@ == child@);
    }
}

/// A file recorded as `downloaded` is recorded as `stored`.
fn mark_stored(ms: &mut JsonObject)
    ensures
        members_view(final(ms)@) == edit_members(members_view(old(ms)@), Edit::MarkStored),
{
    proof {
        reveal_strlit("state");
        reveal_strlit("downloaded");
        reveal_strlit("stored");
    }
    let downloaded = match find_member(ms, "state") {
        Some(i) => {
            proof {
                lemma_found_member(ms@, "state"@, i as int);
            }
            match &ms[i].1 {
                Json::Text(t) => {
                    let tc = to_chars(t.as_str());
                    let d = to_chars("downloaded");
                    chars_eq(tc.as_slice(), d.as_slice())
                },
                _ => false,
            }
        },
        None => false,
    };
    if downloaded {
        insert_member(ms, "state", Json::Text("stored".to_owned()));
    }
}

/// An item's `lastUpdated` is copied into its stored files.
fn copy_updated(ms: &mut JsonObject, metadata: bool)
    ensures
        members_view(final(ms)@) == edit_members(members_view(old(ms)@), Edit::CopyUpdated { metadata }),
{
    proof {
        reveal_strlit("lastUpdated");
        reveal_strlit("thumbnail");
        reveal_strlit("metadata");
    }
    match find_member(ms, "lastUpdated") {
        Some(i) => {
            proof {
                lemma_found_member(ms@, "lastUpdated"@, i as int);
            }
            let u = copy_json(&ms[i].1);
            copy_into_exec(ms, "thumbnail", &u);
            if metadata {
                copy_into_exec(ms, "metadata", &u);
            }
        },
        None => {},
    }
}

/// Edits the members of an object.
fn edit_members_exec(ms: &mut JsonObject, edit: Edit)
    ensures
        members_view(final(ms)@) == edit_members(members_view(old(ms)@), edit),
{
    match edit {
        Edit::MarkStored => mark_stored(ms),
        Edit::CopyUpdated { metadata } => copy_updated(ms, metadata),
        Edit::ResetUpdated => {
            proof {
                reveal_strlit("lastUpdated");
            }
            insert_member(ms, "lastUpdated", Json::Num(JsonNumber::Unsigned(0)));
        },
    }
}

/// Edits the objects a path, from its step `from` on, reaches in a value.
pub fn apply(v: Json, path: &[Step], from: usize, edit: Edit) -> (r: Json)
    requires
        from <= path.len(),
    ensures
        json_view(r) == apply_spec(json_view(v), path@.skip(from as int), edit),
    decreases path.len() - from, 1nat,
{
    if from == path.len() {
        return match v {
            Json::Object(mut ms) => {
                edit_members_exec(&mut ms, edit);
                Json::Object(ms)
            },
            other => other,
        };
    }
    proof {
        assert(path@.skip(from as int)[0] == path@[from as int]);
    }
    match path[from] {
        Step::Key(k) => match v {
            Json::Object(ms) => Json::Object(apply_key(ms, k, path, from, edit)),
            other => other,
        },
        Step::Each => match v {
            Json::Object(ms) => Json::Object(apply_members(ms, path, from, edit)),
            Json::Array(xs) => Json::Array(apply_items(xs, path, from, edit)),
            other => other,
        },
    }
}

/// The members of an object after the path goes on into the member with key `k`.
fn apply_key(ms: JsonObject, k: &'static str, path: &[Step], from: usize, edit: Edit) -> (r: JsonObject)
    requires
        from < path.len(),
        path@[from as int] == Step::Key(k),
    ensures
        members_view(r@) == apply_key_spec(members_view(ms@), path@.skip(from as int), edit),
    decreases path.len() - from, 0nat,
{
    proof {
        lemma_members_view(ms@);
    }
    match find_member(&ms, k) {
        Some(i) => {
            let mut ms = ms;
            let ghost before = ms@;
            let child = copy_json(&ms[i].1);
            let c = apply(child, path, from + 1, edit);
            let key = ms[i].0.clone();
            ms.set(i, (key, c));
            proof {
                lemma_set_member(before, i as int, key, c);
                let p = path@.skip(from as int);
                assert(p[0] == path@[from as int]);
                assert(p.drop_first() =~= path@.skip(from + 1));
            }
            ms
        },
        None => {
            proof {
                let p = path@.skip(from as int);
                assert(p[0] == path@[from as int]);
            }
            ms
        },
    }
}

/// The members of an object after the path goes on into each of them.
fn apply_members(ms: JsonObject, path: &[Step], from: usize, edit: Edit) -> (r: JsonObject)
    requires
        from < path.len(),
    ensures
        members_view(r@) == apply_members_spec(members_view(ms@), path@.skip(from as int), edit),
    decreases path.len() - from, 0nat,
{
    let mut out: Vec<(String, Json)> = Vec::new();
    let mut i: usize = 0;
    while i < ms.len()
        invariant
            from < path.len(),
            i <= ms.len(),
            out.len() == i,
            forall|k: int| 0 <= k < i ==> (#[trigger] out@[k]).0@ == ms@[k].0@,
            forall|k: int|
                0 <= k < i ==> json_view((#[trigger] out@[k]).1) == apply_spec(
                    json_view(ms@[k].1),
                    path@.skip(from + 1),
                    edit,
                ),
        decreases ms.len() - i,
    {
        let child = copy_json(&ms[i].1);
        let c = apply(child, path, from + 1, edit);
        let key = ms[i].0.clone();
        let ghost before = out@;
        out.push((key, c));
        proof {
            assert(out@[i as int] == (key, c));
        }
        i = i + 1;
    }
    proof {
        lemma_members_view(out@);
        lemma_members_view(ms@);
        let mv = members_view(ms@);
        assert(path@.skip(from as int).drop_first() =~= path@.skip(from + 1));
        assert(members_view(out@) =~= Seq::new(
            mv.len(),
            |i: int| (mv[i].0, apply_spec(mv[i].1, path@.skip(from as int).drop_first(), edit)),
        ));
    }
    out
}

/// The items of an array after the path goes on into each of them.
fn apply_items(xs: Vec<Json>, path: &[Step], from: usize, edit: Edit) -> (r: Vec<Json>)
    requires
        from < path.len(),
    ensures
        items_view(r@) == apply_items_spec(items_view(xs@), path@.skip(from as int), edit),
    decreases path.len() - from, 0nat,
{
    let mut out: Vec<Json> = Vec::new();
    let mut i: usize = 0;
    while i < xs.len()
        invariant
            from < path.len(),
            i <= xs.len(),
            out.len() == i,
            forall|k: int|
                0 <= k < i ==> #[trigger] json_view(out@[k]) == apply_spec(
                    json_view(xs@[k]),
                    path@.skip(from + 1),
                    edit,
                ),
        decreases xs.len() - i,
    {
        let child = copy_json(&xs[i]);
        let c = apply(child, path, from + 1, edit);
        out.push(c);
        i = i + 1;
    }
    proof {
        lemma_items_view(out@);
        lemma_items_view(xs@);
        let xv = items_view(xs@);
        assert(path@.skip(from as int).drop_first() =~= path@.skip(from + 1));
        assert(items_view(out@) =~= Seq::new(
            xv.len(),
            |i: int| apply_spec(xv[i], path@.skip(from as int).drop_first(), edit),
        ));
    }
    out
}


// ---------------------------------------------------------------------------
// Migrating the state file
// ---------------------------------------------------------------------------

/// The schema version of the state file this library writes.
pub const SCHEMA_VERSION: u64 = 3;

/// Why a state file cannot be migrated.
#[derive(Debug, Clone, Copy, PartialEq, Eq, Structural)]
pub enum MigrateError {
    /// The version is not a non-negative integer, or is newer than this library's.
    UnexpectedVersion,
    /// The version is not a number.
    MissingVersion,
}

/// `servers.*.<kind>.*`: each item of some kind on each server.
pub open spec fn items_of(kind: Step) -> Seq<Step> {
    seq![Step::Key("servers"), Step::Each, kind, Step::Each]
}

/// `servers.*.<kind>.*.<file>`: a file of each item of some kind.
pub open spec fn files_of(kind: Step, file: Step) -> Seq<Step> {
    items_of(kind).push(file)
}

/// Version 0 recorded stored files as `downloaded`.
#[verifier::opaque]
pub open spec fn upgrade_v0(d: JsonV) -> JsonV {
    let d = apply_spec(d, files_of(Step::Key("videos"), Step::Key("thumbnail")), Edit::MarkStored);
    let d = apply_spec(d, files_of(Step::Key("videos"), Step::Key("metadata")), Edit::MarkStored);
    let d = apply_spec(d, files_of(Step::Key("collections"), Step::Key("thumbnail")), Edit::MarkStored);
    let d = apply_spec(d, files_of(Step::Key("shows"), Step::Key("thumbnail")), Edit::MarkStored);
    apply_spec(d, files_of(Step::Key("shows"), Step::Key("metadata")), Edit::MarkStored)
}

/// Version 1 did not record when stored files were updated.
#[verifier::opaque]
pub open spec fn upgrade_v1(d: JsonV) -> JsonV {
    let d = apply_spec(d, items_of(Step::Key("videos")), Edit::CopyUpdated { metadata: true });
    let d = apply_spec(d, items_of(Step::Key("shows")), Edit::CopyUpdated { metadata: true });
    apply_spec(d, items_of(Step::Key("collections")), Edit::CopyUpdated { metadata: false })
}

/// Version 2 did not record when playlists were updated.
#[verifier::opaque]
pub open spec fn upgrade_v2(d: JsonV) -> JsonV {
    apply_spec(d, items_of(Step::Key("playlists")), Edit::ResetUpdated)
}

/// A state file of some version after the upgrades from it.
pub open spec fn upgrade_doc(ms: Seq<(Seq<char>, JsonV)>, version: u64) -> JsonV {
    let d0 = JsonV::Object(ms);
    let d1 = if version < 1 {
        upgrade_v0(d0)
    } else {
        d0
    };
    let d2 = if version < 2 {
        upgrade_v1(d1)
    } else {
        d1
    };
    if version < 3 {
        upgrade_v2(d2)
    } else {
        d2
    }
}

/// A state file of an older version brought to the current one.
pub open spec fn upgraded(ms: Seq<(Seq<char>, JsonV)>, version: u64) -> Seq<(Seq<char>, JsonV)> {
    match upgrade_doc(ms, version) {
        JsonV::Object(m) => with_member(m, "schema"@, JsonV::Num(NumberV::Unsigned(SCHEMA_VERSION))),
        _ => ms,
    }
}

/// What migrating a state file gives: whether it changed and its members, or
/// why it cannot be migrated. A file without a version is of version 0.
pub open spec fn migrate_spec(ms: Seq<(Seq<char>, JsonV)>) -> Result<(bool, Seq<(Seq<char>, JsonV)>), MigrateError> {
    match member(ms, "schema"@) {
        None => Ok((true, upgraded(ms, 0))),
        Some(JsonV::Num(NumberV::Unsigned(v))) => if v == SCHEMA_VERSION {
            Ok((false, ms))
        } else if v > SCHEMA_VERSION {
            Err(MigrateError::UnexpectedVersion)
        } else {
            Ok((true, upgraded(ms, v)))
        },
        Some(JsonV::Num(_)) => Err(MigrateError::UnexpectedVersion),
        Some(_) => Err(MigrateError::MissingVersion),
    }
}

/// Editing an object gives an object.
proof fn lemma_apply_object(d: JsonV, path: Seq<Step>, edit: Edit)
    requires
        d is Object,
    ensures
        apply_spec(d, path, edit) is Object,
{
}

/// The upgrades turn an object into an object.
pub proof fn lemma_upgrade_object(ms: Seq<(Seq<char>, JsonV)>, version: u64)
    ensures
        upgrade_doc(ms, version) is Object,
{
    reveal(upgrade_v0);
    reveal(upgrade_v1);
    reveal(upgrade_v2);
    let d0 = JsonV::Object(ms);
    let v0a = apply_spec(d0, files_of(Step::Key("videos"), Step::Key("thumbnail")), Edit::MarkStored);
    lemma_apply_object(d0, files_of(Step::Key("videos"), Step::Key("thumbnail")), Edit::MarkStored);
    let v0b = apply_spec(v0a, files_of(Step::Key("videos"), Step::Key("metadata")), Edit::MarkStored);
    lemma_apply_object(v0a, files_of(Step::Key("videos"), Step::Key("metadata")), Edit::MarkStored);
    let v0c = apply_spec(v0b, files_of(Step::Key("collections"), Step::Key("thumbnail")), Edit::MarkStored);
    lemma_apply_object(v0b, files_of(Step::Key("collections"), Step::Key("thumbnail")), Edit::MarkStored);
    let v0d = apply_spec(v0c, files_of(Step::Key("shows"), Step::Key("thumbnail")), Edit::MarkStored);
    lemma_apply_object(v0c, files_of(Step::Key("shows"), Step::Key("thumbnail")), Edit::MarkStored);
    lemma_apply_object(v0d, files_of(Step::Key("shows"), Step::Key("metadata")), Edit::MarkStored);
    let d1 = if version < 1 {
        upgrade_v0(d0)
    } else {
        d0
    };
    let v1a = apply_spec(d1, items_of(Step::Key("videos")), Edit::CopyUpdated { metadata: true });
    lemma_apply_object(d1, items_of(Step::Key("videos")), Edit::CopyUpdated { metadata: true });
    let v1b = apply_spec(v1a, items_of(Step::Key("shows")), Edit::CopyUpdated { metadata: true });
    lemma_apply_object(v1a, items_of(Step::Key("shows")), Edit::CopyUpdated { metadata: true });
    lemma_apply_object(v1b, items_of(Step::Key("collections")), Edit::CopyUpdated { metadata: false });
    let d2 = if version < 2 {
        upgrade_v1(d1)
    } else {
        d1
    };
    lemma_apply_object(d2, items_of(Step::Key("playlists")), Edit::ResetUpdated);
}

fn items_path(kind: Step) -> (r: Vec<Step>)
    ensures
        r@ == items_of(kind),
{
    let mut p: Vec<Step> = Vec::new();
    p.push(Step::Key("servers"));
    p.push(Step::Each);
    p.push(kind);
    p.push(Step::Each);
    proof {
        assert(p@ =~= items_of(kind));
    }
    p
}

fn files_path(kind: Step, file: Step) -> (r: Vec<Step>)
    ensures
        r@ == files_of(kind, file),
{
    let mut p = items_path(kind);
    p.push(file);
    p
}

fn run(d: Json, path: Vec<Step>, edit: Edit) -> (r: Json)
    ensures
        json_view(r) == apply_spec(json_view(d), path@, edit),
{
    proof {
        assert(path@.skip(0) =~= path@);
    }
    apply(d, path.as_slice(), 0, edit)
}

fn upgrade_v0_exec(d: Json) -> (r: Json)
    ensures
        json_view(r) == upgrade_v0(json_view(d)),
{
    proof {
        reveal(upgrade_v0);
    }
    let d = run(d, files_path(Step::Key("videos"), Step::Key("thumbnail")), Edit::MarkStored);
    let d = run(d, files_path(Step::Key("videos"), Step::Key("metadata")), Edit::MarkStored);
    let d = run(d, files_path(Step::Key("collections"), Step::Key("thumbnail")), Edit::MarkStored);
    let d = run(d, files_path(Step::Key("shows"), Step::Key("thumbnail")), Edit::MarkStored);
    run(d, files_path(Step::Key("shows"), Step::Key("metadata")), Edit::MarkStored)
}

fn upgrade_v1_exec(d: Json) -> (r: Json)
    ensures
        json_view(r) == upgrade_v1(json_view(d)),
{
    proof {
        reveal(upgrade_v1);
    }
    let d = run(d, items_path(Step::Key("videos")), Edit::CopyUpdated { metadata: true });
    let d = run(d, items_path(Step::Key("shows")), Edit::CopyUpdated { metadata: true });
    run(d, items_path(Step::Key("collections")), Edit::CopyUpdated { metadata: false })
}

fn upgrade_v2_exec(d: Json) -> (r: Json)
    ensures
        json_view(r) == upgrade_v2(json_view(d)),
{
    proof {
        reveal(upgrade_v2);
    }
    run(d, items_path(Step::Key("playlists")), Edit::ResetUpdated)
}

/// The version a state file records, if it is an older one than the current;
/// `None` when it is the current one.
fn older_version(data: &JsonObject) -> (r: Result<Option<u64>, MigrateError>)
    ensures
        match migrate_spec(members_view(data@)) {
            Ok((false, _)) => r == Ok::<Option<u64>, MigrateError>(None),
            Ok((true, _)) => r matches Ok(Some(v)) && v < SCHEMA_VERSION && migrate_spec(members_view(data@))
                == Ok::<(bool, Seq<(Seq<char>, JsonV)>), MigrateError>((true, upgraded(members_view(data@), v))),
            Err(e) => r == Err::<Option<u64>, MigrateError>(e),
        },
{
    proof {
        reveal_strlit("schema");
    }
    match find_member(data, "schema") {
        None => Ok(Some(0)),
        Some(i) => {
            proof {
                lemma_found_member(data@, "schema"@, i as int);
            }
            match &data[i].1 {
                Json::Num(JsonNumber::Unsigned(v)) => {
                    if *v == SCHEMA_VERSION {
                        Ok(None)
                    } else if *v > SCHEMA_VERSION {
                        Err(MigrateError::UnexpectedVersion)
                    } else {
                        Ok(Some(*v))
                    }
                },
                Json::Num(_) => Err(MigrateError::UnexpectedVersion),
                _ => Err(MigrateError::MissingVersion),
            }
        },
    }
}

/// Brings a state file to the current schema version. Whether it changed; a file
/// of an unknown version is left as it is.
pub fn migrate_state(data: &mut JsonObject) -> (r: Result<bool, MigrateError>)
    ensures
        match migrate_spec(members_view(old(data)@)) {
            Ok((changed, ms)) => r == Ok::<bool, MigrateError>(changed) && members_view(final(data)@) == ms,
            Err(e) => r == Err::<bool, MigrateError>(e) && final(data)@ == old(data)@,
        },
{
    let version = match older_version(data) {
        Err(e) => {
            return Err(e);
        },
        Ok(None) => {
            return Ok(false);
        },
        Ok(Some(v)) => v,
    };
    let ghost ms0 = members_view(data@);
    let mut taken: JsonObject = Vec::new();
    std::mem::swap(&mut taken, data);
    let mut doc = Json::Object(taken);
    if version < 1 {
        doc = upgrade_v0_exec(doc);
    }
    if version < 2 {
        doc = upgrade_v1_exec(doc);
    }
    if version < 3 {
        doc = upgrade_v2_exec(doc);
    }
    proof {
        assert(json_view(doc) == upgrade_doc(ms0, version));
        lemma_upgrade_object(ms0, version);
    }
    let mut ms = match doc {
        Json::Object(ms) => ms,
        _ => Vec::new(),
    };
    proof {
        reveal_strlit("schema");
    }
    insert_member(&mut ms, "schema", Json::Num(JsonNumber::Unsigned(SCHEMA_VERSION)));
    *data = ms;
    Ok(true)
}

/// A migrated state file is of the current version: migrating it again changes
/// nothing.
pub proof fn lemma_migrate_twice(ms: Seq<(Seq<char>, JsonV)>)
    requires
        migrate_spec(ms) is Ok,
    ensures
        migrate_spec(migrate_spec(ms)->Ok_0.1) == Ok::<(bool, Seq<(Seq<char>, JsonV)>), MigrateError>(
            (false, migrate_spec(ms)->Ok_0.1),
        ),
{
    let v: u64 = match member(ms, "schema"@) {
        Some(JsonV::Num(NumberV::Unsigned(v))) => v,
        _ => 0,
    };
    if v != SCHEMA_VERSION {
        lemma_upgrade_object(ms, v);
        if let JsonV::Object(m) = upgrade_doc(ms, v) {
            lemma_read_member(m, "schema"@, JsonV::Num(NumberV::Unsigned(SCHEMA_VERSION)), "schema"@);
        }
    }
}

} // verus!
