//! What migrating the state file does to the files recorded for each item,
//! stated over the values reached by keys in the document.
use vstd::prelude::*;

use crate::schema::{
    apply_key_spec, apply_members_spec, apply_spec, copy_into, edit_members, edit_spec, files_of,
    has_member, items_of, lemma_first_member, lemma_member_index, lemma_read_member, member,
    lemma_upgrade_object, member_index, migrate_spec, upgrade_doc, upgrade_v0, upgrade_v1, upgrade_v2, upgraded,
    with_member, Edit, JsonV, MigrateError, NumberV, Step, SCHEMA_VERSION,
};

verus! {

/// The value reached in a document by following keys through its objects.
#[verifier::opaque]
pub open spec fn lookup(v: JsonV, keys: Seq<Seq<char>>) -> Option<JsonV>
    decreases keys.len(),
{
    if keys.len() == 0 {
        Some(v)
    } else {
        match v {
            JsonV::Object(ms) => match member(ms, keys[0]) {
                Some(c) => lookup(c, keys.drop_first()),
                None => None,
            },
            _ => None,
        }
    }
}

/// Following keys is following the first into its member, then the rest.
pub proof fn lemma_lookup_unfold(v: JsonV, keys: Seq<Seq<char>>)
    ensures
        lookup(v, keys) == if keys.len() == 0 {
            Some(v)
        } else {
            match v {
                JsonV::Object(ms) => match member(ms, keys[0]) {
                    Some(c) => lookup(c, keys.drop_first()),
                    None => None,
                },
                _ => None,
            }
        },
{
    reveal(lookup);
}

/// Following no key stays where one is.
pub proof fn lemma_lookup_empty()
    ensures
        forall|v: JsonV| #[trigger] lookup(v, Seq::<Seq<char>>::empty()) == Some(v),
{
    reveal(lookup);
}

/// A step of a path goes the way of a key.
pub open spec fn step_fits(s: Step, k: Seq<char>) -> bool {
    match s {
        Step::Each => true,
        Step::Key(x) => x@ == k,
    }
}

/// Each step of a path goes the way of the keys, which go on at least as far.
pub open spec fn path_reaches(q: Seq<Step>, p: Seq<Seq<char>>) -> bool {
    q.len() <= p.len() && forall|i: int| 0 <= i < q.len() ==> step_fits(#[trigger] q[i], p[i])
}

/// A path leaves the way of the keys at step `j`, by another key.
pub open spec fn path_leaves(q: Seq<Step>, p: Seq<Seq<char>>, j: int) -> bool {
    &&& 0 <= j < q.len()
    &&& j < p.len()
    &&& !step_fits(q[j], p[j])
    &&& forall|i: int| 0 <= i < j ==> step_fits(#[trigger] q[i], p[i])
}

/// Following keys one after the other.
proof fn lemma_lookup_append(v: JsonV, p: Seq<Seq<char>>, r: Seq<Seq<char>>)
    ensures
        lookup(v, p + r) == match lookup(v, p) {
            Some(x) => lookup(x, r),
            None => None,
        },
    decreases p.len(),
{
    reveal(lookup);
    if p.len() > 0 {
        assert((p + r)[0] == p[0]);
        assert((p + r).drop_first() =~= p.drop_first() + r);
        if let JsonV::Object(ms) = v {
            if let Some(c) = member(ms, p[0]) {
                lemma_lookup_append(c, p.drop_first(), r);
            }
        }
    } else {
        assert(p + r =~= r);
    }
}

/// Going on into each member keeps the keys, so a key's member is the one edited
/// further.
proof fn lemma_members_member(ms: Seq<(Seq<char>, JsonV)>, path: Seq<Step>, e: Edit, k: Seq<char>)
    requires
        path.len() > 0,
    ensures
        member(apply_members_spec(ms, path, e), k) == match member(ms, k) {
            Some(c) => Some(apply_spec(c, path.drop_first(), e)),
            None => None,
        },
{
    let r = apply_members_spec(ms, path, e);
    assert(r.len() == ms.len());
    assert forall|i: int| 0 <= i < r.len() implies #[trigger] r[i].0 == ms[i].0 by {
    }
    if has_member(ms, k) {
        lemma_first_member(ms, k);
        let i = member_index(ms, k);
        assert forall|j: int| 0 <= j < i implies #[trigger] r[j].0 != k by {
            assert(ms[j].0 != k);
        }
        lemma_member_index(r, k, i);
    } else {
        if has_member(r, k) {
            let w = choose|i: int| 0 <= i < r.len() && #[trigger] r[i].0 == k;
            assert(ms[w].0 == k);
        }
    }
}

/// Going on into one key's member edits that member further and leaves the
/// others.
proof fn lemma_key_member(ms: Seq<(Seq<char>, JsonV)>, path: Seq<Step>, e: Edit, k: Seq<char>)
    requires
        path.len() > 0,
        path[0] is Key,
    ensures
        member(apply_key_spec(ms, path, e), k) == if k == path[0]->Key_0@ {
            match member(ms, k) {
                Some(c) => Some(apply_spec(c, path.drop_first(), e)),
                None => None,
            }
        } else {
            member(ms, k)
        },
{
    let k0 = path[0]->Key_0@;
    if has_member(ms, k0) {
        lemma_first_member(ms, k0);
        let i = member_index(ms, k0);
        let v = apply_spec(ms[i].1, path.drop_first(), e);
        assert(apply_key_spec(ms, path, e) == with_member(ms, k0, v));
        lemma_read_member(ms, k0, v, k);
    }
}

/// A path that goes the way of the keys edits the value the keys reach at its
/// end, and what lies under it is reached as in the edited value.
proof fn lemma_apply_reach(v: JsonV, q: Seq<Step>, e: Edit, p: Seq<Seq<char>>)
    requires
        path_reaches(q, p),
    ensures
        lookup(apply_spec(v, q, e), p) == match lookup(v, p.take(q.len() as int)) {
            Some(x) => lookup(edit_spec(x, e), p.skip(q.len() as int)),
            None => None,
        },
    decreases q.len(),
{
    reveal(lookup);
    if q.len() == 0 {
        assert(p.take(0) =~= Seq::<Seq<char>>::empty());
        assert(p.skip(0) =~= p);
    } else {
        let q1 = q.drop_first();
        let p1 = p.drop_first();
        assert(path_reaches(q1, p1)) by {
            assert forall|i: int| 0 <= i < q1.len() implies step_fits(#[trigger] q1[i], p1[i]) by {
                assert(step_fits(q[i + 1], p[i + 1]));
            }
        }
        assert(step_fits(q[0], p[0]));
        let n = q.len() as int;
        assert(p.take(n).len() > 0);
        assert(p.take(n)[0] == p[0]);
        assert(p.take(n).drop_first() =~= p1.take(n - 1));
        assert(p.skip(n) =~= p1.skip(n - 1));
        match v {
            JsonV::Object(ms) => {
                match q[0] {
                    Step::Key(_) => lemma_key_member(ms, q, e, p[0]),
                    Step::Each => lemma_members_member(ms, q, e, p[0]),
                }
                if let Some(c) = member(ms, p[0]) {
                    lemma_apply_reach(c, q1, e, p1);
                }
            },
            _ => {
            },
        }
    }
}

/// A path that leaves the way of the keys by another key leaves what they reach.
proof fn lemma_apply_leave(v: JsonV, q: Seq<Step>, e: Edit, p: Seq<Seq<char>>, j: int)
    requires
        path_leaves(q, p, j),
    ensures
        lookup(apply_spec(v, q, e), p) == lookup(v, p),
    decreases q.len(),
{
    reveal(lookup);
    let q1 = q.drop_first();
    let p1 = p.drop_first();
    match v {
        JsonV::Object(ms) => {
            if j == 0 {
                lemma_key_member(ms, q, e, p[0]);
            } else {
                assert(step_fits(q[0], p[0]));
                assert(path_leaves(q1, p1, j - 1)) by {
                    assert(q1[j - 1] == q[j] && p1[j - 1] == p[j]);
                    assert forall|i: int| 0 <= i < j - 1 implies step_fits(#[trigger] q1[i], p1[i]) by {
                        assert(step_fits(q[i + 1], p[i + 1]));
                    }
                }
                match q[0] {
                    Step::Key(_) => lemma_key_member(ms, q, e, p[0]),
                    Step::Each => lemma_members_member(ms, q, e, p[0]),
                }
                if let Some(c) = member(ms, p[0]) {
                    lemma_apply_leave(c, q1, e, p1, j - 1);
                }
            }
        },
        _ => {
        },
    }
}

/// Copying `updated` into a child sets it in that child when it has a path and
/// leaves the other members.
proof fn lemma_copy_into(ms: Seq<(Seq<char>, JsonV)>, c: Seq<char>, u: JsonV, k: Seq<char>)
    ensures
        member(copy_into(ms, c, u), k) == if k == c {
            match member(ms, c) {
                Some(JsonV::Object(cs)) => if has_member(cs, "path"@) {
                    Some(JsonV::Object(with_member(cs, "updated"@, u)))
                } else {
                    member(ms, c)
                },
                _ => member(ms, c),
            }
        } else {
            member(ms, k)
        },
{
    if let Some(JsonV::Object(cs)) = member(ms, c) {
        if has_member(cs, "path"@) {
            lemma_read_member(ms, c, JsonV::Object(with_member(cs, "updated"@, u)), k);
        }
    }
}

/// The keys of a video.
pub open spec fn video_keys(server: Seq<char>, video: Seq<char>) -> Seq<Seq<char>> {
    seq!["servers"@, server, "videos"@, video]
}

/// The keys the upgrades name differ.
proof fn lemma_keys_distinct()
    ensures
        "shows"@ != "videos"@,
        "collections"@ != "videos"@,
        "playlists"@ != "videos"@,
        "lastUpdated"@ != "thumbnail"@,
        "lastUpdated"@ != "metadata"@,
        "thumbnail"@ != "metadata"@,
        "schema"@ != "servers"@,
        "playlists"@ != "shows"@,
        "playlists"@ != "collections"@,
        "state"@ != "updated"@,
        "thumbnail"@ != "updated"@,
{
    reveal_strlit("shows");
    reveal_strlit("videos");
    reveal_strlit("collections");
    reveal_strlit("playlists");
    reveal_strlit("lastUpdated");
    reveal_strlit("thumbnail");
    reveal_strlit("metadata");
    reveal_strlit("schema");
    reveal_strlit("servers");
    assert("shows"@.len() != "videos"@.len());
    assert("collections"@.len() != "videos"@.len());
    assert("playlists"@.len() != "videos"@.len());
    assert("lastUpdated"@.len() != "thumbnail"@.len());
    assert("lastUpdated"@.len() != "metadata"@.len());
    assert("thumbnail"@.len() != "metadata"@.len());
    assert("schema"@.len() != "servers"@.len());
    assert("playlists"@.len() != "shows"@.len());
    assert("playlists"@.len() != "collections"@.len());
    reveal_strlit("state");
    reveal_strlit("updated");
    assert("state"@.len() != "updated"@.len());
    assert("thumbnail"@.len() != "updated"@.len());
}

/// One pass of an upgrade over a document.
#[verifier::opaque]
spec fn pass(d: JsonV, q: Seq<Step>, e: Edit) -> JsonV {
    apply_spec(d, q, e)
}

/// The upgrades as passes.
proof fn lemma_upgrade_passes(d: JsonV)
    ensures
        upgrade_v0(d) == pass(
            pass(
                pass(
                    pass(
                        pass(d, files_of(Step::Key("videos"), Step::Key("thumbnail")), Edit::MarkStored),
                        files_of(Step::Key("videos"), Step::Key("metadata")),
                        Edit::MarkStored,
                    ),
                    files_of(Step::Key("collections"), Step::Key("thumbnail")),
                    Edit::MarkStored,
                ),
                files_of(Step::Key("shows"), Step::Key("thumbnail")),
                Edit::MarkStored,
            ),
            files_of(Step::Key("shows"), Step::Key("metadata")),
            Edit::MarkStored,
        ),
        upgrade_v2(upgrade_v1(d)) == pass(
            pass(
                pass(
                    pass(d, items_of(Step::Key("videos")), Edit::CopyUpdated { metadata: true }),
                    items_of(Step::Key("shows")),
                    Edit::CopyUpdated { metadata: true },
                ),
                items_of(Step::Key("collections")),
                Edit::CopyUpdated { metadata: false },
            ),
            items_of(Step::Key("playlists")),
            Edit::ResetUpdated,
        ),
{
    reveal(pass);
    reveal(upgrade_v0);
    reveal(upgrade_v1);
    reveal(upgrade_v2);
}

/// A pass over the items of one kind leaves what lies under an item of another.
proof fn lemma_items_elsewhere(d: JsonV, kind: Step, e: Edit, p: Seq<Seq<char>>)
    requires
        kind matches Step::Key(k) && k@ != p[2],
        p.len() >= 3,
        p[0] == "servers"@,
    ensures
        lookup(pass(d, items_of(kind), e), p) == lookup(d, p),
        lookup(pass(d, files_of(kind, Step::Key("thumbnail")), e), p) == lookup(d, p),
        lookup(pass(d, files_of(kind, Step::Key("metadata")), e), p) == lookup(d, p),
{
    reveal(pass);
    reveal_strlit("servers");
    let q = items_of(kind);
    assert(path_leaves(q, p, 2));
    lemma_apply_leave(d, q, e, p, 2);
    let qt = files_of(kind, Step::Key("thumbnail"));
    assert(path_leaves(qt, p, 2));
    lemma_apply_leave(d, qt, e, p, 2);
    let qm = files_of(kind, Step::Key("metadata"));
    assert(path_leaves(qm, p, 2));
    lemma_apply_leave(d, qm, e, p, 2);
}

/// A pass over one file of the videos leaves what lies under another member of a
/// video.
proof fn lemma_other_member(d: JsonV, f: &'static str, e: Edit, server: Seq<char>, video: Seq<char>, k: Seq<char>)
    requires
        k != f@,
    ensures
        lookup(pass(d, files_of(Step::Key("videos"), Step::Key(f)), e), video_keys(server, video).push(k)) == lookup(
            d,
            video_keys(server, video).push(k),
        ),
{
    reveal(pass);
    reveal_strlit("servers");
    reveal_strlit("videos");
    let p = video_keys(server, video).push(k);
    let q = files_of(Step::Key("videos"), Step::Key(f));
    assert(path_leaves(q, p, 4));
    lemma_apply_leave(d, q, e, p, 4);
}

/// Marking a video's file as stored keeps its path.
proof fn lemma_mark_file(d: JsonV, f: &'static str, server: Seq<char>, video: Seq<char>, fs: Seq<(Seq<char>, JsonV)>)
    requires
        lookup(d, video_keys(server, video).push(f@)) == Some(JsonV::Object(fs)),
        has_member(fs, "path"@),
    ensures
        lookup(pass(d, files_of(Step::Key("videos"), Step::Key(f)), Edit::MarkStored), video_keys(server, video).push(f@))
            matches Some(JsonV::Object(fs2)) && has_member(fs2, "path"@),
{
    reveal(pass);
    reveal_strlit("servers");
    reveal_strlit("videos");
    reveal_strlit("path");
    reveal_strlit("state");
    let p = video_keys(server, video).push(f@);
    let q = files_of(Step::Key("videos"), Step::Key(f));
    assert(path_reaches(q, p)) by {
        assert forall|k: int| 0 <= k < q.len() implies step_fits(#[trigger] q[k], p[k]) by {
        }
    }
    lemma_apply_reach(d, q, Edit::MarkStored, p);
    assert(p.take(5) =~= p);
    assert(p.skip(5) =~= Seq::<Seq<char>>::empty());
    lemma_lookup_unfold(edit_spec(JsonV::Object(fs), Edit::MarkStored), Seq::<Seq<char>>::empty());
    if member(fs, "state"@) == Some(JsonV::Text("downloaded"@)) {
        lemma_read_member(fs, "state"@, JsonV::Text("stored"@), "path"@);
    }
}

/// What lies under a video's keys is read from its members.
proof fn lemma_video_members(d: JsonV, i: Seq<Seq<char>>, file: Seq<char>, u: JsonV, fs: Seq<(Seq<char>, JsonV)>)
    requires
        lookup(d, i.push("lastUpdated"@)) == Some(u),
        lookup(d, i.push(file)) == Some(JsonV::Object(fs)),
    ensures
        lookup(d, i) matches Some(JsonV::Object(vs)) && member(vs, "lastUpdated"@) == Some(u) && member(vs, file)
            == Some(JsonV::Object(fs)),
{
    lemma_lookup_append(d, i, seq!["lastUpdated"@]);
    lemma_lookup_append(d, i, seq![file]);
    assert(i.push("lastUpdated"@) =~= i + seq!["lastUpdated"@]);
    assert(i.push(file) =~= i + seq![file]);
    let x = lookup(d, i)->Some_0;
    lemma_lookup_unfold(x, seq!["lastUpdated"@]);
    lemma_lookup_unfold(x, seq![file]);
    assert(seq!["lastUpdated"@].drop_first() =~= Seq::<Seq<char>>::empty());
    assert(seq![file].drop_first() =~= Seq::<Seq<char>>::empty());
    lemma_lookup_empty();
}

/// Copying `lastUpdated` into a video's files sets it as the `updated` of a file
/// of it that has a path.
proof fn lemma_copy_member(vs: Seq<(Seq<char>, JsonV)>, file: Seq<char>, u: JsonV, fs: Seq<(Seq<char>, JsonV)>)
    requires
        file == "thumbnail"@ || file == "metadata"@,
        member(vs, "lastUpdated"@) == Some(u),
        member(vs, file) == Some(JsonV::Object(fs)),
        has_member(fs, "path"@),
    ensures
        member(edit_members(vs, Edit::CopyUpdated { metadata: true }), file) == Some(
            JsonV::Object(with_member(fs, "updated"@, u)),
        ),
{
    lemma_keys_distinct();
    let t = copy_into(vs, "thumbnail"@, u);
    assert(edit_members(vs, Edit::CopyUpdated { metadata: true }) == copy_into(t, "metadata"@, u));
    lemma_copy_into(vs, "thumbnail"@, u, file);
    lemma_copy_into(t, "metadata"@, u, file);
}

/// Two keys reach a value through two objects that have it.
proof fn lemma_lookup_two(x: JsonV, a: Seq<char>, b: Seq<char>, f: Seq<(Seq<char>, JsonV)>, u: JsonV)
    requires
        x matches JsonV::Object(ms) && member(ms, a) == Some(JsonV::Object(f)),
        member(f, b) == Some(u),
    ensures
        lookup(x, seq![a, b]) == Some(u),
{
    lemma_lookup_unfold(x, seq![a, b]);
    assert(seq![a, b].drop_first() =~= seq![b]);
    lemma_lookup_unfold(JsonV::Object(f), seq![b]);
    assert(seq![b].drop_first() =~= Seq::<Seq<char>>::empty());
    lemma_lookup_empty();
}

/// The pass over the videos records a video's `lastUpdated` in a file of it that
/// has a path.
proof fn lemma_videos_pass(d: JsonV, server: Seq<char>, video: Seq<char>, file: Seq<char>, u: JsonV, fs: Seq<(Seq<char>, JsonV)>)
    requires
        file == "thumbnail"@ || file == "metadata"@,
        lookup(d, video_keys(server, video).push("lastUpdated"@)) == Some(u),
        lookup(d, video_keys(server, video).push(file)) == Some(JsonV::Object(fs)),
        has_member(fs, "path"@),
    ensures
        lookup(
            pass(d, items_of(Step::Key("videos")), Edit::CopyUpdated { metadata: true }),
            video_keys(server, video).push(file).push("updated"@),
        ) == Some(u),
{
    reveal(pass);
    reveal_strlit("servers");
    reveal_strlit("videos");
    let i = video_keys(server, video);
    let uk = i.push(file).push("updated"@);
    let cu = Edit::CopyUpdated { metadata: true };
    let q = items_of(Step::Key("videos"));
    assert(path_reaches(q, uk)) by {
        assert forall|k: int| 0 <= k < q.len() implies step_fits(#[trigger] q[k], uk[k]) by {
        }
    }
    lemma_apply_reach(d, q, cu, uk);
    assert(uk.take(4) =~= i);
    assert(uk.skip(4) =~= seq![file, "updated"@]);
    lemma_video_members(d, i, file, u, fs);
    let vs = lookup(d, i)->Some_0->Object_0;
    lemma_copy_member(vs, file, u, fs);
    lemma_read_member(fs, "updated"@, u, "updated"@);
    lemma_lookup_two(edit_spec(JsonV::Object(vs), cu), file, "updated"@, with_member(fs, "updated"@, u), u);
}

/// After the second version's upgrade, a video's file that has a path records the
/// video's `lastUpdated` as `updated`.
proof fn lemma_v1_upgrade(d: JsonV, server: Seq<char>, video: Seq<char>, file: Seq<char>, u: JsonV, fs: Seq<(Seq<char>, JsonV)>)
    requires
        file == "thumbnail"@ || file == "metadata"@,
        lookup(d, video_keys(server, video).push("lastUpdated"@)) == Some(u),
        lookup(d, video_keys(server, video).push(file)) == Some(JsonV::Object(fs)),
        has_member(fs, "path"@),
    ensures
        lookup(upgrade_v2(upgrade_v1(d)), video_keys(server, video).push(file).push("updated"@)) == Some(u),
{
    lemma_keys_distinct();
    lemma_upgrade_passes(d);
    let uk = video_keys(server, video).push(file).push("updated"@);
    let a1 = pass(d, items_of(Step::Key("videos")), Edit::CopyUpdated { metadata: true });
    lemma_videos_pass(d, server, video, file, u, fs);
    let a2 = pass(a1, items_of(Step::Key("shows")), Edit::CopyUpdated { metadata: true });
    lemma_items_elsewhere(a1, Step::Key("shows"), Edit::CopyUpdated { metadata: true }, uk);
    let a3 = pass(a2, items_of(Step::Key("collections")), Edit::CopyUpdated { metadata: false });
    lemma_items_elsewhere(a2, Step::Key("collections"), Edit::CopyUpdated { metadata: false }, uk);
    lemma_items_elsewhere(a3, Step::Key("playlists"), Edit::ResetUpdated, uk);
}

/// The first version's upgrade keeps a video's `lastUpdated` and the path of its
/// files.
proof fn lemma_v0_upgrade(d: JsonV, server: Seq<char>, video: Seq<char>, file: Seq<char>, u: JsonV, fs: Seq<(Seq<char>, JsonV)>)
    requires
        file == "thumbnail"@ || file == "metadata"@,
        lookup(d, video_keys(server, video).push("lastUpdated"@)) == Some(u),
        lookup(d, video_keys(server, video).push(file)) == Some(JsonV::Object(fs)),
        has_member(fs, "path"@),
    ensures
        lookup(upgrade_v0(d), video_keys(server, video).push("lastUpdated"@)) == Some(u),
        lookup(upgrade_v0(d), video_keys(server, video).push(file)) matches Some(JsonV::Object(fs2)) && has_member(
            fs2,
            "path"@,
        ),
{
    lemma_keys_distinct();
    lemma_upgrade_passes(d);
    let i = video_keys(server, video);
    let lk = i.push("lastUpdated"@);
    let fk = i.push(file);
    let ms = Edit::MarkStored;
    let v1 = pass(d, files_of(Step::Key("videos"), Step::Key("thumbnail")), ms);
    lemma_other_member(d, "thumbnail", ms, server, video, "lastUpdated"@);
    if file == "thumbnail"@ {
        lemma_mark_file(d, "thumbnail", server, video, fs);
    } else {
        lemma_other_member(d, "thumbnail", ms, server, video, file);
    }
    let fs1 = lookup(v1, fk)->Some_0->Object_0;
    let v2 = pass(v1, files_of(Step::Key("videos"), Step::Key("metadata")), ms);
    lemma_other_member(v1, "metadata", ms, server, video, "lastUpdated"@);
    if file == "metadata"@ {
        lemma_mark_file(v1, "metadata", server, video, fs1);
    } else {
        lemma_other_member(v1, "metadata", ms, server, video, file);
    }
    let v3 = pass(v2, files_of(Step::Key("collections"), Step::Key("thumbnail")), ms);
    lemma_items_elsewhere(v2, Step::Key("collections"), ms, lk);
    lemma_items_elsewhere(v2, Step::Key("collections"), ms, fk);
    let v4 = pass(v3, files_of(Step::Key("shows"), Step::Key("thumbnail")), ms);
    lemma_items_elsewhere(v3, Step::Key("shows"), ms, lk);
    lemma_items_elsewhere(v3, Step::Key("shows"), ms, fk);
    lemma_items_elsewhere(v4, Step::Key("shows"), ms, lk);
    lemma_items_elsewhere(v4, Step::Key("shows"), ms, fk);
}

/// Migrating a state file of a version before the second, or of no version,
/// records in each file of a video that has a path the video's `lastUpdated` as
/// its `updated`.
pub proof fn law_older_files_record_updates(
    ms: Seq<(Seq<char>, JsonV)>,
    server: Seq<char>,
    video: Seq<char>,
    file: Seq<char>,
    u: JsonV,
    fs: Seq<(Seq<char>, JsonV)>,
)
    requires
        match member(ms, "schema"@) {
            None => true,
            Some(JsonV::Num(NumberV::Unsigned(v))) => v < 2,
            _ => false,
        },
        file == "thumbnail"@ || file == "metadata"@,
        lookup(JsonV::Object(ms), seq!["servers"@, server, "videos"@, video, "lastUpdated"@]) == Some(u),
        lookup(JsonV::Object(ms), seq!["servers"@, server, "videos"@, video, file]) == Some(JsonV::Object(fs)),
        has_member(fs, "path"@),
    ensures
        migrate_spec(ms) matches Ok((true, m)) && lookup(
            JsonV::Object(m),
            seq!["servers"@, server, "videos"@, video, file, "updated"@],
        ) == Some(u),
{
    reveal_strlit("servers");
    reveal_strlit("schema");
    let version: u64 = match member(ms, "schema"@) {
        Some(JsonV::Num(NumberV::Unsigned(v))) => v,
        _ => 0,
    };
    let i = video_keys(server, video);
    assert(seq!["servers"@, server, "videos"@, video, "lastUpdated"@] =~= i.push("lastUpdated"@));
    assert(seq!["servers"@, server, "videos"@, video, file] =~= i.push(file));
    let uk = i.push(file).push("updated"@);
    assert(seq!["servers"@, server, "videos"@, video, file, "updated"@] =~= uk);
    let d0 = JsonV::Object(ms);
    let d1 = if version < 1 {
        upgrade_v0(d0)
    } else {
        d0
    };
    if version < 1 {
        lemma_v0_upgrade(d0, server, video, file, u, fs);
    }
    let fs1 = lookup(d1, i.push(file))->Some_0->Object_0;
    lemma_v1_upgrade(d1, server, video, file, u, fs1);
    assert(upgrade_doc(ms, version) == upgrade_v2(upgrade_v1(d1)));
    let doc = upgrade_doc(ms, version);
    assert(lookup(doc, uk) == Some(u));
    lemma_lookup_unfold(doc, uk);
    let m = doc->Object_0;
    let m2 = with_member(m, "schema"@, JsonV::Num(NumberV::Unsigned(SCHEMA_VERSION)));
    assert(upgraded(ms, version) == m2);
    lemma_keys_distinct();
    lemma_read_member(m, "schema"@, JsonV::Num(NumberV::Unsigned(SCHEMA_VERSION)), "servers"@);
    assert(uk[0] == "servers"@);
    lemma_lookup_unfold(JsonV::Object(m2), uk);
    assert(lookup(JsonV::Object(m2), uk) == lookup(doc, uk));
}

/// A migrated state file is of the current schema version.
pub proof fn law_migrated_is_current(ms: Seq<(Seq<char>, JsonV)>)
    ensures
        migrate_spec(ms) matches Ok((true, m)) ==> member(m, "schema"@) == Some(
            JsonV::Num(NumberV::Unsigned(SCHEMA_VERSION)),
        ),
{
    if let Ok((true, m)) = migrate_spec(ms) {
        let v: u64 = match member(ms, "schema"@) {
            Some(JsonV::Num(NumberV::Unsigned(v))) => v,
            _ => 0,
        };
        lemma_upgrade_object(ms, v);
        let doc = upgrade_doc(ms, v)->Object_0;
        lemma_read_member(doc, "schema"@, JsonV::Num(NumberV::Unsigned(SCHEMA_VERSION)), "schema"@);
    }
}

/// A state file of the current version is kept as it is, and one of a later
/// version is refused.
pub proof fn law_current_kept(ms: Seq<(Seq<char>, JsonV)>, v: u64)
    requires
        member(ms, "schema"@) == Some(JsonV::Num(NumberV::Unsigned(v))),
        v >= SCHEMA_VERSION,
    ensures
        v == SCHEMA_VERSION ==> migrate_spec(ms) == Ok::<(bool, Seq<(Seq<char>, JsonV)>), MigrateError>((false, ms)),
        v > SCHEMA_VERSION ==> migrate_spec(ms) == Err::<(bool, Seq<(Seq<char>, JsonV)>), MigrateError>(
            MigrateError::UnexpectedVersion,
        ),
{
}

/// The passes of the first two upgrades leave what lies under a playlist.
proof fn lemma_playlist_untouched(d: JsonV, p: Seq<Seq<char>>, version: u64)
    requires
        p.len() >= 3,
        p[0] == "servers"@,
        p[2] == "playlists"@,
    ensures
        lookup(
            upgrade_v1(
                if version < 1 {
                    upgrade_v0(d)
                } else {
                    d
                },
            ),
            p,
        ) == lookup(d, p),
{
    lemma_keys_distinct();
    lemma_upgrade_passes(d);
    let ms = Edit::MarkStored;
    let d1 = if version < 1 {
        upgrade_v0(d)
    } else {
        d
    };
    if version < 1 {
        let v1 = pass(d, files_of(Step::Key("videos"), Step::Key("thumbnail")), ms);
        lemma_items_elsewhere(d, Step::Key("videos"), ms, p);
        let v2 = pass(v1, files_of(Step::Key("videos"), Step::Key("metadata")), ms);
        lemma_items_elsewhere(v1, Step::Key("videos"), ms, p);
        let v3 = pass(v2, files_of(Step::Key("collections"), Step::Key("thumbnail")), ms);
        lemma_items_elsewhere(v2, Step::Key("collections"), ms, p);
        let v4 = pass(v3, files_of(Step::Key("shows"), Step::Key("thumbnail")), ms);
        lemma_items_elsewhere(v3, Step::Key("shows"), ms, p);
        lemma_items_elsewhere(v4, Step::Key("shows"), ms, p);
    }
    lemma_v1_passes(d1);
    let cu = Edit::CopyUpdated { metadata: true };
    let a1 = pass(d1, items_of(Step::Key("videos")), cu);
    lemma_items_elsewhere(d1, Step::Key("videos"), cu, p);
    let a2 = pass(a1, items_of(Step::Key("shows")), cu);
    lemma_items_elsewhere(a1, Step::Key("shows"), cu, p);
    lemma_items_elsewhere(a2, Step::Key("collections"), Edit::CopyUpdated { metadata: false }, p);
}

/// The second version's upgrade as passes.
proof fn lemma_v1_passes(d: JsonV)
    ensures
        upgrade_v1(d) == pass(
            pass(
                pass(d, items_of(Step::Key("videos")), Edit::CopyUpdated { metadata: true }),
                items_of(Step::Key("shows")),
                Edit::CopyUpdated { metadata: true },
            ),
            items_of(Step::Key("collections")),
            Edit::CopyUpdated { metadata: false },
        ),
        upgrade_v2(d) == pass(d, items_of(Step::Key("playlists")), Edit::ResetUpdated),
{
    reveal(pass);
    reveal(upgrade_v1);
    reveal(upgrade_v2);
}

/// The last upgrade gives each playlist a `lastUpdated` of 0.
proof fn lemma_playlists_pass(d: JsonV, server: Seq<char>, playlist: Seq<char>, ps: Seq<(Seq<char>, JsonV)>)
    requires
        lookup(d, seq!["servers"@, server, "playlists"@, playlist]) == Some(JsonV::Object(ps)),
    ensures
        lookup(upgrade_v2(d), seq!["servers"@, server, "playlists"@, playlist, "lastUpdated"@]) == Some(
            JsonV::Num(NumberV::Unsigned(0)),
        ),
{
    lemma_v1_passes(d);
    reveal(pass);
    reveal_strlit("servers");
    reveal_strlit("playlists");
    let p = seq!["servers"@, server, "playlists"@, playlist, "lastUpdated"@];
    let q = items_of(Step::Key("playlists"));
    assert(path_reaches(q, p)) by {
        assert forall|k: int| 0 <= k < q.len() implies step_fits(#[trigger] q[k], p[k]) by {
        }
    }
    lemma_apply_reach(d, q, Edit::ResetUpdated, p);
    assert(p.take(4) =~= seq!["servers"@, server, "playlists"@, playlist]);
    assert(p.skip(4) =~= seq!["lastUpdated"@]);
    let z = JsonV::Num(NumberV::Unsigned(0));
    lemma_read_member(ps, "lastUpdated"@, z, "lastUpdated"@);
    let e = edit_spec(JsonV::Object(ps), Edit::ResetUpdated);
    lemma_lookup_unfold(e, seq!["lastUpdated"@]);
    assert(seq!["lastUpdated"@].drop_first() =~= Seq::<Seq<char>>::empty());
    lemma_lookup_empty();
}

/// Migrating a state file of a version before the current one gives each of its
/// playlists a `lastUpdated` of 0.
pub proof fn law_older_playlists_reset(
    ms: Seq<(Seq<char>, JsonV)>,
    server: Seq<char>,
    playlist: Seq<char>,
    ps: Seq<(Seq<char>, JsonV)>,
)
    requires
        match member(ms, "schema"@) {
            None => true,
            Some(JsonV::Num(NumberV::Unsigned(v))) => v < SCHEMA_VERSION,
            _ => false,
        },
        lookup(JsonV::Object(ms), seq!["servers"@, server, "playlists"@, playlist]) == Some(JsonV::Object(ps)),
    ensures
        migrate_spec(ms) matches Ok((true, m)) && lookup(
            JsonV::Object(m),
            seq!["servers"@, server, "playlists"@, playlist, "lastUpdated"@],
        ) == Some(JsonV::Num(NumberV::Unsigned(0))),
{
    reveal_strlit("servers");
    reveal_strlit("playlists");
    let version: u64 = match member(ms, "schema"@) {
        Some(JsonV::Num(NumberV::Unsigned(v))) => v,
        _ => 0,
    };
    let d0 = JsonV::Object(ms);
    let pk = seq!["servers"@, server, "playlists"@, playlist];
    let lk = seq!["servers"@, server, "playlists"@, playlist, "lastUpdated"@];
    let d1 = if version < 1 {
        upgrade_v0(d0)
    } else {
        d0
    };
    let d2 = if version < 2 {
        upgrade_v1(d1)
    } else {
        d1
    };
    if version < 2 {
        lemma_playlist_untouched(d0, pk, version);
    }
    assert(lookup(d2, pk) == Some(JsonV::Object(ps)));
    lemma_playlists_pass(d2, server, playlist, ps);
    assert(upgrade_doc(ms, version) == upgrade_v2(d2));
    let doc = upgrade_doc(ms, version);
    lemma_lookup_unfold(doc, lk);
    let m = doc->Object_0;
    let m2 = with_member(m, "schema"@, JsonV::Num(NumberV::Unsigned(SCHEMA_VERSION)));
    assert(upgraded(ms, version) == m2);
    lemma_keys_distinct();
    lemma_read_member(m, "schema"@, JsonV::Num(NumberV::Unsigned(SCHEMA_VERSION)), "servers"@);
    lemma_lookup_unfold(JsonV::Object(m2), lk);
}

/// Marking a video's file recorded as downloaded records it as stored.
proof fn lemma_mark_state(d: JsonV, f: &'static str, server: Seq<char>, video: Seq<char>)
    requires
        lookup(d, video_keys(server, video).push(f@).push("state"@)) == Some(JsonV::Text("downloaded"@)),
    ensures
        lookup(
            pass(d, files_of(Step::Key("videos"), Step::Key(f)), Edit::MarkStored),
            video_keys(server, video).push(f@).push("state"@),
        ) == Some(JsonV::Text("stored"@)),
{
    reveal(pass);
    reveal_strlit("servers");
    reveal_strlit("videos");
    let fk = video_keys(server, video).push(f@);
    let p = fk.push("state"@);
    let q = files_of(Step::Key("videos"), Step::Key(f));
    assert(path_reaches(q, p)) by {
        assert forall|k: int| 0 <= k < q.len() implies step_fits(#[trigger] q[k], p[k]) by {
        }
    }
    lemma_apply_reach(d, q, Edit::MarkStored, p);
    assert(p.take(5) =~= fk);
    assert(p.skip(5) =~= seq!["state"@]);
    lemma_lookup_append(d, fk, seq!["state"@]);
    assert(p =~= fk + seq!["state"@]);
    let x = lookup(d, fk)->Some_0;
    lemma_lookup_unfold(x, seq!["state"@]);
    assert(seq!["state"@].drop_first() =~= Seq::<Seq<char>>::empty());
    lemma_lookup_empty();
    let fs = x->Object_0;
    assert(member(fs, "state"@) == Some(JsonV::Text("downloaded"@)));
    lemma_read_member(fs, "state"@, JsonV::Text("stored"@), "state"@);
    lemma_lookup_unfold(edit_spec(x, Edit::MarkStored), seq!["state"@]);
}

/// What copying `lastUpdated` into a video's files makes of one of them: either
/// it is as it was, or it is an object that gains an `updated`.
proof fn lemma_copy_file(vs: Seq<(Seq<char>, JsonV)>, file: Seq<char>) -> (r: Option<(Seq<(Seq<char>, JsonV)>, JsonV)>)
    ensures
        match r {
            None => member(edit_members(vs, Edit::CopyUpdated { metadata: true }), file) == member(vs, file),
            Some((cs, u)) => member(vs, file) == Some(JsonV::Object(cs)) && member(
                edit_members(vs, Edit::CopyUpdated { metadata: true }),
                file,
            ) == Some(JsonV::Object(with_member(cs, "updated"@, u))),
        },
{
    let cu = Edit::CopyUpdated { metadata: true };
    match member(vs, "lastUpdated"@) {
        None => {
            assert(edit_members(vs, cu) == vs);
            None
        },
        Some(u) => {
            assert(edit_members(vs, cu) == copy_into(copy_into(vs, "thumbnail"@, u), "metadata"@, u));
            lemma_copy_twice(vs, file, u)
        },
    }
}

/// Copying a time into a video's thumbnail and then its metadata makes of one of
/// its members what `lemma_copy_file` says.
proof fn lemma_copy_twice(vs: Seq<(Seq<char>, JsonV)>, file: Seq<char>, u: JsonV) -> (r: Option<(Seq<(Seq<char>, JsonV)>, JsonV)>)
    ensures
        match r {
            None => member(copy_into(copy_into(vs, "thumbnail"@, u), "metadata"@, u), file) == member(vs, file),
            Some((cs, u2)) => member(vs, file) == Some(JsonV::Object(cs)) && member(
                copy_into(copy_into(vs, "thumbnail"@, u), "metadata"@, u),
                file,
            ) == Some(JsonV::Object(with_member(cs, "updated"@, u2))),
        },
{
    lemma_keys_distinct();
    let t = copy_into(vs, "thumbnail"@, u);
    lemma_copy_into(vs, "thumbnail"@, u, file);
    lemma_copy_into(t, "metadata"@, u, file);
    lemma_copy_into(vs, "thumbnail"@, u, "metadata"@);
    if let Some(JsonV::Object(cs)) = member(vs, file) {
        if has_member(cs, "path"@) && (file == "thumbnail"@ || file == "metadata"@) {
            return Some((cs, u));
        }
    }
    None
}

/// Following two keys in objects whose members under the first are the same, or
/// differ only in `updated`, reaches the same for any other second key.
proof fn lemma_lookup_two_keep(x: JsonV, y: JsonV, a: Seq<char>, k: Seq<char>, c: Option<(Seq<(Seq<char>, JsonV)>, JsonV)>)
    requires
        k != "updated"@,
        x is Object,
        y is Object,
        match c {
            None => member(x->Object_0, a) == member(y->Object_0, a),
            Some((cs, u)) => member(y->Object_0, a) == Some(JsonV::Object(cs)) && member(x->Object_0, a) == Some(
                JsonV::Object(with_member(cs, "updated"@, u)),
            ),
        },
    ensures
        lookup(x, seq![a, k]) == lookup(y, seq![a, k]),
{
    lemma_lookup_unfold(x, seq![a, k]);
    lemma_lookup_unfold(y, seq![a, k]);
    assert(seq![a, k].drop_first() =~= seq![k]);
    if let Some((cs, u)) = c {
        lemma_read_member(cs, "updated"@, u, k);
        lemma_lookup_unfold(JsonV::Object(with_member(cs, "updated"@, u)), seq![k]);
        lemma_lookup_unfold(JsonV::Object(cs), seq![k]);
    }
}

/// The upgrades after the first leave a video's file's members other than
/// `updated`.
proof fn lemma_v1_keeps(d: JsonV, server: Seq<char>, video: Seq<char>, file: Seq<char>, k: Seq<char>)
    requires
        k != "updated"@,
    ensures
        lookup(upgrade_v2(upgrade_v1(d)), video_keys(server, video).push(file).push(k)) == lookup(
            d,
            video_keys(server, video).push(file).push(k),
        ),
{
    lemma_keys_distinct();
    lemma_upgrade_passes(d);
    let i = video_keys(server, video);
    let p = i.push(file).push(k);
    let cu = Edit::CopyUpdated { metadata: true };
    let a1 = pass(d, items_of(Step::Key("videos")), cu);
    lemma_videos_pass_keeps(d, i, file, k);
    let a2 = pass(a1, items_of(Step::Key("shows")), cu);
    lemma_items_elsewhere(a1, Step::Key("shows"), cu, p);
    let a3 = pass(a2, items_of(Step::Key("collections")), Edit::CopyUpdated { metadata: false });
    lemma_items_elsewhere(a2, Step::Key("collections"), Edit::CopyUpdated { metadata: false }, p);
    lemma_items_elsewhere(a3, Step::Key("playlists"), Edit::ResetUpdated, p);
}

/// The pass over the videos leaves a video's file's members other than `updated`.
proof fn lemma_videos_pass_keeps(d: JsonV, i: Seq<Seq<char>>, file: Seq<char>, k: Seq<char>)
    requires
        k != "updated"@,
        i.len() == 4,
        i[0] == "servers"@,
        i[2] == "videos"@,
    ensures
        lookup(pass(d, items_of(Step::Key("videos")), Edit::CopyUpdated { metadata: true }), i.push(file).push(k))
            == lookup(d, i.push(file).push(k)),
{
    reveal(pass);
    reveal_strlit("servers");
    reveal_strlit("videos");
    let p = i.push(file).push(k);
    let cu = Edit::CopyUpdated { metadata: true };
    let q = items_of(Step::Key("videos"));
    assert(path_reaches(q, p)) by {
        assert forall|j: int| 0 <= j < q.len() implies step_fits(#[trigger] q[j], p[j]) by {
        }
    }
    lemma_apply_reach(d, q, cu, p);
    assert(p.take(4) =~= i);
    assert(p.skip(4) =~= seq![file, k]);
    lemma_lookup_append(d, i, seq![file, k]);
    assert(p =~= i + seq![file, k]);
    if let Some(JsonV::Object(vs)) = lookup(d, i) {
        let c = lemma_copy_file(vs, file);
        lemma_lookup_two_keep(edit_spec(JsonV::Object(vs), cu), JsonV::Object(vs), file, k, c);
    } else if let Some(x) = lookup(d, i) {
        lemma_lookup_unfold(x, seq![file, k]);
    }
}

/// Migrating a state file of the first version, or of no version, records each
/// file of a video that was recorded as downloaded as stored.
pub proof fn law_first_version_files_stored(
    ms: Seq<(Seq<char>, JsonV)>,
    server: Seq<char>,
    video: Seq<char>,
    file: Seq<char>,
)
    requires
        match member(ms, "schema"@) {
            None => true,
            Some(JsonV::Num(NumberV::Unsigned(v))) => v == 0,
            _ => false,
        },
        file == "thumbnail"@ || file == "metadata"@,
        lookup(JsonV::Object(ms), seq!["servers"@, server, "videos"@, video, file, "state"@]) == Some(
            JsonV::Text("downloaded"@),
        ),
    ensures
        migrate_spec(ms) matches Ok((true, m)) && lookup(
            JsonV::Object(m),
            seq!["servers"@, server, "videos"@, video, file, "state"@],
        ) == Some(JsonV::Text("stored"@)),
{
    reveal_strlit("servers");
    reveal_strlit("videos");
    reveal_strlit("thumbnail");
    reveal_strlit("metadata");
    reveal_strlit("state");
    reveal_strlit("updated");
    lemma_keys_distinct();
    let i = video_keys(server, video);
    let sk = i.push(file).push("state"@);
    assert(seq!["servers"@, server, "videos"@, video, file, "state"@] =~= sk);
    let d0 = JsonV::Object(ms);
    lemma_upgrade_passes(d0);
    let mst = Edit::MarkStored;
    let v1 = pass(d0, files_of(Step::Key("videos"), Step::Key("thumbnail")), mst);
    if file == "thumbnail"@ {
        lemma_mark_state(d0, "thumbnail", server, video);
    } else {
        lemma_other_file_member(d0, "thumbnail", mst, i, file, "state"@);
    }
    let v2 = pass(v1, files_of(Step::Key("videos"), Step::Key("metadata")), mst);
    if file == "metadata"@ {
        lemma_mark_state(v1, "metadata", server, video);
    } else {
        lemma_other_file_member(v1, "metadata", mst, i, file, "state"@);
    }
    let v3 = pass(v2, files_of(Step::Key("collections"), Step::Key("thumbnail")), mst);
    lemma_items_elsewhere(v2, Step::Key("collections"), mst, sk);
    let v4 = pass(v3, files_of(Step::Key("shows"), Step::Key("thumbnail")), mst);
    lemma_items_elsewhere(v3, Step::Key("shows"), mst, sk);
    lemma_items_elsewhere(v4, Step::Key("shows"), mst, sk);
    let d1 = upgrade_v0(d0);
    assert(lookup(d1, sk) == Some(JsonV::Text("stored"@)));
    lemma_v1_keeps(d1, server, video, file, "state"@);
    assert(upgrade_doc(ms, 0) == upgrade_v2(upgrade_v1(d1)));
    let doc = upgrade_doc(ms, 0);
    lemma_lookup_unfold(doc, sk);
    let m = doc->Object_0;
    let m2 = with_member(m, "schema"@, JsonV::Num(NumberV::Unsigned(SCHEMA_VERSION)));
    assert(upgraded(ms, 0) == m2);
    lemma_read_member(m, "schema"@, JsonV::Num(NumberV::Unsigned(SCHEMA_VERSION)), "servers"@);
    lemma_lookup_unfold(JsonV::Object(m2), sk);
}

/// A pass over one file of the videos leaves what lies under another file.
proof fn lemma_other_file_member(d: JsonV, f: &'static str, e: Edit, i: Seq<Seq<char>>, file: Seq<char>, k: Seq<char>)
    requires
        file != f@,
        i.len() == 4,
        i[0] == "servers"@,
        i[2] == "videos"@,
    ensures
        lookup(pass(d, files_of(Step::Key("videos"), Step::Key(f)), e), i.push(file).push(k)) == lookup(
            d,
            i.push(file).push(k),
        ),
{
    reveal(pass);
    reveal_strlit("servers");
    reveal_strlit("videos");
    let p = i.push(file).push(k);
    let q = files_of(Step::Key("videos"), Step::Key(f));
    assert(path_leaves(q, p, 4));
    lemma_apply_leave(d, q, e, p, 4);
}

} // verus!
