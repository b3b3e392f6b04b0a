//! The objects the media server lists: the ids of libraries, playlists,
//! collections, shows, seasons, videos and their parts, the containers and items
//! made for them, and the order children are listed in.
use vstd::prelude::*;

use crate::dlna::{object_ref_spec, split_once, top_container, ItemKind, ObjectRef};
use crate::names::{uniform_title, uniform_title_spec};
use crate::title_sort::{in_title_order, lemma_sorted_by_title, sort_by_title, sorted_by_title, Titled};
use crate::text::{
    decimal, find, find_char, from_chars, lemma_parse_decimal, parse_u64_spec, push_decimal,
    push_str, slice_chars, to_chars,
};
use crate::upnp::{Container, Item, Object, Resource, UpnpError};

verus! {

// ---------------------------------------------------------------------------
// Object ids
// ---------------------------------------------------------------------------

/// The id of an item of a server: `<server>/<code>:<id>`.
pub open spec fn object_id_spec(server: Seq<char>, kind: ItemKind, id: Seq<char>) -> Seq<char> {
    server + "/"@ + kind.code_spec() + ":"@ + id
}

/// The id of an item of a server, as `object_id_spec` says.
pub fn object_id(server: &str, kind: ItemKind, id: &str) -> (r: String)
    ensures
        r@ == object_id_spec(server@, kind, id@),
{
    let code = match kind {
        ItemKind::Library => "L",
        ItemKind::Playlist => "P",
        ItemKind::Collection => "C",
        ItemKind::Show => "S",
        ItemKind::Season => "N",
        ItemKind::Video => "V",
        ItemKind::VideoPart => "VP",
    };
    let mut s = String::new();
    push_str(&mut s, server);
    push_str(&mut s, "/");
    push_str(&mut s, code);
    push_str(&mut s, ":");
    push_str(&mut s, id);
    proof {
        assert(s@ =~= object_id_spec(server@, kind, id@));
    }
    s
}

/// The first occurrence of `c` in `a + [c] + b` is right after `a` when `a` holds
/// none.
proof fn lemma_find_char_after(a: Seq<char>, c: char, b: Seq<char>)
    requires
        find_char(a, c) is None,
    ensures
        find_char(a + seq![c] + b, c) == Some(a.len() as int),
    decreases a.len(),
{
    let s = a + seq![c] + b;
    if a.len() > 0 {
        assert(s[0] == a[0]);
        assert(s.drop_first() =~= a.drop_first() + seq![c] + b);
        lemma_find_char_after(a.drop_first(), c, b);
    }
}

/// No kind's code holds a `/` or a `:`.
proof fn lemma_code_plain(kind: ItemKind)
    ensures
        find_char(kind.code_spec(), '/') is None,
        find_char(kind.code_spec(), ':') is None,
        kind.code_spec().len() >= 1,
        ItemKind::from_code_spec(kind.code_spec()) == Some(kind),
{
    reveal_strlit("L");
    reveal_strlit("P");
    reveal_strlit("C");
    reveal_strlit("S");
    reveal_strlit("N");
    reveal_strlit("V");
    reveal_strlit("VP");
    let code = kind.code_spec();
    reveal_with_fuel(find_char, 3);
    if code.len() == 2 {
        assert(code.drop_first().drop_first() =~= Seq::<char>::empty());
    } else {
        assert(code.drop_first() =~= Seq::<char>::empty());
    }
}

/// An id made for an item of a server whose name holds no `/` reads back as that
/// server, that kind's code and that id, and names none of the top containers.
pub proof fn lemma_object_id_read_back(server: Seq<char>, kind: ItemKind, id: Seq<char>)
    requires
        find_char(server, '/') is None,
    ensures
        object_id_spec(server, kind, id) != "0"@,
        object_id_spec(server, kind, id) != "L"@,
        object_id_spec(server, kind, id) != "P"@,
        object_id_spec(server, kind, id) != "C"@,
        object_ref_spec(object_id_spec(server, kind, id)) == Some((server, kind.code_spec(), id)),
        ItemKind::from_code_spec(kind.code_spec()) == Some(kind),
{
    reveal_strlit("/");
    reveal_strlit(":");
    reveal_strlit("0");
    reveal_strlit("L");
    reveal_strlit("P");
    reveal_strlit("C");
    lemma_code_plain(kind);
    let code = kind.code_spec();
    let full = object_id_spec(server, kind, id);
    let rest = code + seq![':'] + id;
    assert(full =~= server + seq!['/'] + rest);
    assert(full.len() >= 3);
    lemma_find_char_after(server, '/', rest);
    assert(full.take(server.len() as int) =~= server);
    assert(full.skip(server.len() as int + 1) =~= rest);
    assert(split_once(full, '/') == Some((server, rest)));
    lemma_find_char_after(code, ':', id);
    assert(rest.take(code.len() as int) =~= code);
    assert(rest.skip(code.len() as int + 1) =~= id);
    assert(split_once(rest, ':') == Some((code, id)));
}

// ---------------------------------------------------------------------------
// Containers and items
// ---------------------------------------------------------------------------

/// A playlist, a collection or a library of a server, listed under the top
/// container of its kind.
pub fn listed_container(kind: ItemKind, server: &str, id: &str, title: String, count: usize) -> (r:
    Container)
    requires
        kind == ItemKind::Playlist || kind == ItemKind::Collection || kind == ItemKind::Library,
    ensures
        r.id@ == object_id_spec(server@, kind, id@),
        r.parent_id@ == kind.code_spec(),
        r.child_count == Some(count),
        r.title == title,
{
    let parent = match kind {
        ItemKind::Playlist => "P",
        ItemKind::Collection => "C",
        _ => "L",
    };
    proof {
        reveal_strlit("P");
        reveal_strlit("C");
        reveal_strlit("L");
    }
    Container {
        id: object_id(server, kind, id),
        parent_id: parent.to_owned(),
        child_count: Some(count),
        title,
    }
}

/// A show, listed under its library.
pub fn show_container(
    server: &str,
    id: &str,
    title: String,
    library_server: &str,
    library: &str,
    seasons: usize,
) -> (r: Container)
    ensures
        r.id@ == object_id_spec(server@, ItemKind::Show, id@),
        r.parent_id@ == object_id_spec(library_server@, ItemKind::Library, library@),
        r.child_count == Some(seasons),
        r.title == title,
{
    Container {
        id: object_id(server, ItemKind::Show, id),
        parent_id: object_id(library_server, ItemKind::Library, library),
        child_count: Some(seasons),
        title,
    }
}

/// A season, listed under its show.
pub fn season_container(
    server: &str,
    id: &str,
    title: String,
    show_server: &str,
    show: &str,
    episodes: usize,
) -> (r: Container)
    ensures
        r.id@ == object_id_spec(server@, ItemKind::Season, id@),
        r.parent_id@ == object_id_spec(show_server@, ItemKind::Show, show@),
        r.child_count == Some(episodes),
        r.title == title,
{
    Container {
        id: object_id(server, ItemKind::Season, id),
        parent_id: object_id(show_server, ItemKind::Show, show),
        child_count: Some(episodes),
        title,
    }
}

/// A video of several parts: a container of its parts.
pub fn video_container(server: &str, video: &str, title: String, parent: String, parts: usize) -> (r:
    Container)
    ensures
        r.id@ == object_id_spec(server@, ItemKind::Video, video@),
        r.parent_id == parent,
        r.child_count == Some(parts),
        r.title == title,
{
    Container {
        id: object_id(server, ItemKind::Video, video),
        parent_id: parent,
        child_count: Some(parts),
        title,
    }
}

/// The id of a part of a video: `<server>/VP:<video>/<index>`.
pub open spec fn part_id_spec(server: Seq<char>, video: Seq<char>, index: nat) -> Seq<char> {
    object_id_spec(server, ItemKind::VideoPart, video + "/"@ + decimal(index))
}

/// The title of a part of a video of several parts: `<title> - Pt <index + 1>`.
pub open spec fn part_title_spec(title: Seq<char>, index: nat) -> Seq<char> {
    title + " - Pt "@ + decimal(index + 1)
}

/// A part of a video. The only part of a video stands for the video itself, under
/// the video's parent; a part of several is listed under its video and titled by
/// its number, counted from one.
pub fn part_item(
    server: &str,
    video: &str,
    index: usize,
    parts: usize,
    title: &str,
    video_parent: String,
    resources: Vec<Resource>,
) -> (r: Item)
    requires
        index < parts,
    ensures
        parts == 1 ==> r.id@ == object_id_spec(server@, ItemKind::Video, video@) && r.title@
            == title@ && r.parent_id == video_parent,
        parts != 1 ==> r.id@ == part_id_spec(server@, video@, index as nat) && r.title@
            == part_title_spec(title@, index as nat) && r.parent_id@ == object_id_spec(
            server@,
            ItemKind::Video,
            video@,
        ),
        r.resources@ == resources@,
{
    let video_id = object_id(server, ItemKind::Video, video);
    if parts == 1 {
        Item { id: video_id, parent_id: video_parent, title: title.to_owned(), resources }
    } else {
        let mut tail = String::new();
        push_str(&mut tail, video);
        push_str(&mut tail, "/");
        push_decimal(&mut tail, index as u64);
        let id = object_id(server, ItemKind::VideoPart, tail.as_str());
        let mut name = String::new();
        push_str(&mut name, title);
        push_str(&mut name, " - Pt ");
        push_decimal(&mut name, (index + 1) as u64);
        proof {
            assert(tail@ =~= video@ + "/"@ + decimal(index as nat));
            assert(name@ =~= part_title_spec(title@, index as nat));
        }
        Item { id, parent_id: video_id, title: name, resources }
    }
}

/// The resource of a downloaded part of a video: found at the part's resource id,
/// seekable, with the file's size and MIME type and the part's duration in
/// milliseconds.
pub fn part_resource(
    server: &str,
    video: &str,
    index: usize,
    mime_type: String,
    size: u64,
    duration: u64,
) -> (r: Resource)
    ensures
        r.id@ == crate::dlna::resource_id_spec(server@, video@, index as u64),
        r.mime_type == mime_type,
        r.size == Some(size),
        r.duration == Some(duration),
        r.seekable,
{
    Resource {
        id: crate::dlna::resource_id(server, video, index),
        mime_type,
        size: Some(size),
        seekable: true,
        duration: Some(duration),
    }
}

// ---------------------------------------------------------------------------
// Parts named by id
// ---------------------------------------------------------------------------

/// The video and index named by the id of a part within its server:
/// `<video>/<index>`; nothing when there is no `/` or the index is not a number
/// that fits.
pub open spec fn part_ref_spec(id: Seq<char>) -> Option<(Seq<char>, usize)> {
    match split_once(id, '/') {
        Some((video, index)) => match parse_u64_spec(index) {
            Some(n) => if n <= usize::MAX {
                Some((video, n as usize))
            } else {
                None
            },
            None => None,
        },
        None => None,
    }
}

/// Reads the id of a part within its server, as `part_ref_spec` says.
pub fn part_ref(id: &str) -> (r: Option<(String, usize)>)
    ensures
        match part_ref_spec(id@) {
            Some((v, i)) => r matches Some((video, index)) && video@ == v && index == i,
            None => r is None,
        },
{
    let chars = to_chars(id);
    match find(chars.as_slice(), '/') {
        Some(k) => {
            let video = slice_chars(chars.as_slice(), 0, k);
            let index = slice_chars(chars.as_slice(), k + 1, chars.len());
            proof {
                assert(video@ =~= id@.take(k as int));
                assert(index@ =~= id@.skip(k + 1));
            }
            let index_text = from_chars(index.as_slice());
            match <usize as core::str::FromStr>::from_str(index_text.as_str()) {
                Ok(n) => Some((from_chars(video.as_slice()), n)),
                Err(_) => None,
            }
        },
        None => None,
    }
}

/// The id a part is listed under reads back as its video and index, when the
/// video's id holds no `/`.
pub proof fn lemma_part_ref_read_back(video: Seq<char>, index: usize)
    requires
        find_char(video, '/') is None,
    ensures
        part_ref_spec(video + "/"@ + decimal(index as nat)) == Some((video, index)),
{
    reveal_strlit("/");
    let digits = decimal(index as nat);
    let id = video + "/"@ + digits;
    assert(id =~= video + seq!['/'] + digits);
    lemma_find_char_after(video, '/', digits);
    assert(id.take(video.len() as int) =~= video);
    assert(id.skip(video.len() as int + 1) =~= digits);
    lemma_parse_decimal(index as u64);
}

// ---------------------------------------------------------------------------
// The order of children
// ---------------------------------------------------------------------------

/// The title of an object.
pub open spec fn object_title(o: Object) -> Seq<char> {
    match o {
        Object::Item(i) => i.title@,
        Object::Container(c) => c.title@,
    }
}

/// Objects are listed by their titles, lower cased, trimmed and without a leading
/// "a " or "the ".
impl Titled for Object {
    open spec fn title_key(&self) -> Seq<char> {
        uniform_title_spec(object_title(*self))
    }

    fn title_key_exec(&self) -> (r: Vec<char>) {
        let title = match self {
            Object::Item(i) => i.title.as_str(),
            Object::Container(c) => c.title.as_str(),
        };
        let t = uniform_title(title);
        to_chars(t.as_str())
    }
}

/// What a listed container is.
#[derive(Debug, Clone, Copy, PartialEq, Eq, Structural)]
pub enum Listing {
    Root,
    Libraries,
    Playlists,
    Collections,
    MovieLibrary,
    ShowLibrary,
    Playlist,
    MovieCollection,
    ShowCollection,
    Show,
    Season,
    Video,
    VideoPart,
}

/// Whether a container lists its children by title: the root, a playlist, a
/// collection of movies, a show, a season and a video keep their own order.
pub open spec fn sorts_children_spec(l: Listing) -> bool {
    !(l == Listing::Root || l == Listing::Playlist || l == Listing::MovieCollection || l
        == Listing::Show || l == Listing::Season || l == Listing::Video)
}

/// The children of a container as it lists them.
pub open spec fn listed(listing: Listing, children: Seq<Object>) -> Seq<Object> {
    if sorts_children_spec(listing) {
        sorted_by_title(children)
    } else {
        children
    }
}

/// The libraries, the collections and the playlists, each library of movies or
/// shows, and each collection of shows list their children by title: the same
/// children, each as often, with none before one whose title comes earlier.
pub proof fn law_libraries_list_by_title(listing: Listing, children: Seq<Object>)
    requires
        listing == Listing::Libraries || listing == Listing::Playlists || listing == Listing::Collections
            || listing == Listing::MovieLibrary || listing == Listing::ShowLibrary || listing
            == Listing::ShowCollection,
    ensures
        in_title_order(listed(listing, children)),
        listed(listing, children).to_multiset() == children.to_multiset(),
{
    lemma_sorted_by_title(children);
}

/// The root, a playlist, a collection of movies, a show, a season and a video
/// list their children as they are given.
pub proof fn law_own_order_kept(listing: Listing, children: Seq<Object>)
    requires
        listing == Listing::Root || listing == Listing::Playlist || listing == Listing::MovieCollection
            || listing == Listing::Show || listing == Listing::Season || listing == Listing::Video,
    ensures
        listed(listing, children) == children,
{
}

/// The children of a container in the order they are listed.
pub fn list_children(listing: Listing, children: Vec<Object>) -> (r: Vec<Object>)
    ensures
        r@ == listed(listing, children@),
{
    match listing {
        Listing::Root | Listing::Playlist | Listing::MovieCollection | Listing::Show
        | Listing::Season | Listing::Video => children,
        _ => sort_by_title(children),
    }
}

// ---------------------------------------------------------------------------
// What a request names
// ---------------------------------------------------------------------------

/// What an object id names once read: the root, one of the top containers, or an
/// item of a server of a known kind.
pub enum Target {
    Root,
    Libraries,
    Playlists,
    Collections,
    Item { server: String, kind: ItemKind, id: String },
}

/// Reads the id of a requested object. The root and the top containers are named
/// by `0`, `L`, `P` and `C`; anything else must be `<server>/<kind>:<id>` with a
/// known kind, and is otherwise an unknown object.
pub fn target_of(id: &str) -> (r: Result<Target, UpnpError>)
    ensures
        id@ == "0"@ ==> r matches Ok(Target::Root),
        id@ == "L"@ ==> r matches Ok(Target::Libraries),
        id@ == "P"@ ==> r matches Ok(Target::Playlists),
        id@ == "C"@ ==> r matches Ok(Target::Collections),
        id@ != "0"@ && id@ != "L"@ && id@ != "P"@ && id@ != "C"@ ==> match object_ref_spec(id@) {
            Some((s, k, i)) => match ItemKind::from_code_spec(k) {
                Some(kind) => r matches Ok(Target::Item { server, kind: kk, id: ii }) && server@ == s
                    && kk == kind && ii@ == i,
                None => r == Err::<Target, UpnpError>(UpnpError::ArgumentInvalid),
            },
            None => r == Err::<Target, UpnpError>(UpnpError::ArgumentInvalid),
        },
{
    match ObjectRef::parse(id) {
        ObjectRef::Root => Ok(Target::Root),
        ObjectRef::Libraries => Ok(Target::Libraries),
        ObjectRef::Playlists => Ok(Target::Playlists),
        ObjectRef::Collections => Ok(Target::Collections),
        ObjectRef::Item { server, kind, id } => {
            let code = to_chars(kind.as_str());
            match ItemKind::from_code(code.as_slice()) {
                Some(k) => Ok(Target::Item { server, kind: k, id }),
                None => Err(UpnpError::unknown_object()),
            }
        },
        ObjectRef::Unknown => Err(UpnpError::unknown_object()),
    }
}

/// An object that was looked up: one that does not exist is an unknown object.
pub fn found<T>(object: Option<T>) -> (r: Result<T, UpnpError>)
    ensures
        match object {
            Some(x) => r == Ok::<T, UpnpError>(x),
            None => r == Err::<T, UpnpError>(UpnpError::ArgumentInvalid),
        },
{
    match object {
        Some(x) => Ok(x),
        None => Err(UpnpError::unknown_object()),
    }
}

/// The children of the root: the libraries, the collections and the playlists,
/// in that order, each holding as many items as it is given.
pub fn root_children(libraries: usize, collections: usize, playlists: usize) -> (r: Vec<Object>)
    ensures
        r@.len() == 3,
        r@[0] matches Object::Container(c) && c.id@ == "L"@ && c.parent_id@ == "0"@ && c.title@
            == "Libraries"@ && c.child_count == Some(libraries),
        r@[1] matches Object::Container(c) && c.id@ == "C"@ && c.parent_id@ == "0"@ && c.title@
            == "Collections"@ && c.child_count == Some(collections),
        r@[2] matches Object::Container(c) && c.id@ == "P"@ && c.parent_id@ == "0"@ && c.title@
            == "Playlists"@ && c.child_count == Some(playlists),
{
    proof {
        reveal_strlit("L");
        reveal_strlit("C");
        reveal_strlit("P");
    }
    let l = top_container(ItemKind::Library, libraries);
    let c = top_container(ItemKind::Collection, collections);
    let p = top_container(ItemKind::Playlist, playlists);
    vec![Object::Container(l), Object::Container(c), Object::Container(p)]
}

} // verus!
