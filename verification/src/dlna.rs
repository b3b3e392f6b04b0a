//! The media server's view of the synced media: how object, icon and resource ids
//! are read and made, which containers sit at the top, and how a stream of a video
//! part is cut and turned into a playback position.
use vstd::prelude::*;

use crate::text::{
    find, find_char, parse_u64_spec, push_decimal, push_str, slice_chars, starts_with,
    starts_with_chars, to_chars, from_chars,
};
use crate::upnp::{Container, Range};

verus! {

// ---------------------------------------------------------------------------
// Object ids
// ---------------------------------------------------------------------------

/// The kinds of item an object id of the form `<server>/<kind>:<id>` names.
#[derive(Debug, Clone, Copy, PartialEq, Eq, Structural)]
pub enum ItemKind {
    Library,
    Playlist,
    Collection,
    Show,
    Season,
    Video,
    VideoPart,
}

impl ItemKind {
    pub open spec fn code_spec(self) -> Seq<char> {
        match self {
            ItemKind::Library => "L"@,
            ItemKind::Playlist => "P"@,
            ItemKind::Collection => "C"@,
            ItemKind::Show => "S"@,
            ItemKind::Season => "N"@,
            ItemKind::Video => "V"@,
            ItemKind::VideoPart => "VP"@,
        }
    }

    pub open spec fn from_code_spec(code: Seq<char>) -> Option<ItemKind> {
        if code == "L"@ {
            Some(ItemKind::Library)
        } else if code == "P"@ {
            Some(ItemKind::Playlist)
        } else if code == "C"@ {
            Some(ItemKind::Collection)
        } else if code == "S"@ {
            Some(ItemKind::Show)
        } else if code == "N"@ {
            Some(ItemKind::Season)
        } else if code == "V"@ {
            Some(ItemKind::Video)
        } else if code == "VP"@ {
            Some(ItemKind::VideoPart)
        } else {
            None
        }
    }

    /// The kind a code names.
    pub fn from_code(code: &[char]) -> (r: Option<ItemKind>)
        ensures
            r == ItemKind::from_code_spec(code@),
    {
        proof {
            reveal_strlit("L");
            reveal_strlit("P");
            reveal_strlit("C");
            reveal_strlit("S");
            reveal_strlit("N");
            reveal_strlit("V");
            reveal_strlit("VP");
        }
        if code.len() == 1 {
            let c = code[0];
            if c == 'L' {
                proof {
                    assert(code@ =~= "L"@);
                }
                Some(ItemKind::Library)
            } else if c == 'P' {
                proof {
                    assert(code@ =~= "P"@);
                }
                Some(ItemKind::Playlist)
            } else if c == 'C' {
                proof {
                    assert(code@ =~= "C"@);
                }
                Some(ItemKind::Collection)
            } else if c == 'S' {
                proof {
                    assert(code@ =~= "S"@);
                }
                Some(ItemKind::Show)
            } else if c == 'N' {
                proof {
                    assert(code@ =~= "N"@);
                }
                Some(ItemKind::Season)
            } else if c == 'V' {
                proof {
                    assert(code@ =~= "V"@);
                }
                Some(ItemKind::Video)
            } else {
                proof {
                    assert(code@ != "L"@ && code@ != "P"@ && code@ != "C"@);
                    assert(code@ != "S"@ && code@ != "N"@ && code@ != "V"@);
                }
                None
            }
        } else if code.len() == 2 && code[0] == 'V' && code[1] == 'P' {
            proof {
                assert(code@ =~= "VP"@);
            }
            Some(ItemKind::VideoPart)
        } else {
            proof {
                if code.len() == 2 {
                    assert(code@ != "VP"@ || (code@[0] == 'V' && code@[1] == 'P'));
                }
            }
            None
        }
    }
}

/// What an object id names.
pub enum ObjectRef {
    /// `0`: the root container.
    Root,
    /// `L`: the libraries.
    Libraries,
    /// `P`: the playlists.
    Playlists,
    /// `C`: the collections.
    Collections,
    /// `<server>/<kind>:<id>`: an item of a server; `kind` is the text between the
    /// first `/` and the first `:` after it.
    Item { server: String, kind: String, id: String },
    /// Anything else.
    Unknown,
}

/// `str::split_once` with a character: the text before and after its first
/// occurrence.
pub open spec fn split_once(s: Seq<char>, c: char) -> Option<(Seq<char>, Seq<char>)> {
    match find_char(s, c) {
        Some(i) => Some((s.take(i), s.skip(i + 1))),
        None => None,
    }
}

fn split_once_exec(v: &[char], c: char) -> (r: Option<(Vec<char>, Vec<char>)>)
    ensures
        match split_once(v@, c) {
            Some((a, b)) => r matches Some((x, y)) && x@ == a && y@ == b,
            None => r is None,
        },
{
    match find(v, c) {
        Some(i) => {
            let a = slice_chars(v, 0, i);
            let b = slice_chars(v, i + 1, v.len());
            proof {
                assert(a@ =~= v@.take(i as int));
                assert(b@ =~= v@.skip(i + 1));
            }
            Some((a, b))
        },
        None => None,
    }
}

pub open spec fn object_ref_spec(id: Seq<char>) -> Option<(Seq<char>, Seq<char>, Seq<char>)> {
    match split_once(id, '/') {
        Some((server, item)) => match split_once(item, ':') {
            Some((kind, rest)) => Some((server, kind, rest)),
            None => None,
        },
        None => None,
    }
}

impl ObjectRef {
    /// Reads an object id.
    pub fn parse(id: &str) -> (r: ObjectRef)
        ensures
            id@ == "0"@ ==> r is Root,
            id@ == "L"@ ==> r is Libraries,
            id@ == "P"@ ==> r is Playlists,
            id@ == "C"@ ==> r is Collections,
            id@ != "0"@ && id@ != "L"@ && id@ != "P"@ && id@ != "C"@ ==> match object_ref_spec(
                id@,
            ) {
                Some((s, k, i)) => r matches ObjectRef::Item { server, kind, id: item } && server@
                    == s && kind@ == k && item@ == i,
                None => r is Unknown,
            },
    {
        proof {
            reveal_strlit("0");
            reveal_strlit("L");
            reveal_strlit("P");
            reveal_strlit("C");
        }
        let chars = to_chars(id);
        if chars.len() == 1 && chars[0] == '0' {
            proof {
                assert(id@ =~= "0"@);
            }
            return ObjectRef::Root;
        }
        if chars.len() == 1 && chars[0] == 'L' {
            proof {
                assert(id@ =~= "L"@);
            }
            return ObjectRef::Libraries;
        }
        if chars.len() == 1 && chars[0] == 'P' {
            proof {
                assert(id@ =~= "P"@);
            }
            return ObjectRef::Playlists;
        }
        if chars.len() == 1 && chars[0] == 'C' {
            proof {
                assert(id@ =~= "C"@);
            }
            return ObjectRef::Collections;
        }
        proof {
            if chars.len() == 1 {
                assert(id@ != "0"@ && id@ != "L"@ && id@ != "P"@ && id@ != "C"@);
            }
        }
        match split_once_exec(chars.as_slice(), '/') {
            Some((server, item)) => match split_once_exec(item.as_slice(), ':') {
                Some((kind, rest)) => ObjectRef::Item {
                    server: from_chars(server.as_slice()),
                    kind: from_chars(kind.as_slice()),
                    id: from_chars(rest.as_slice()),
                },
                None => ObjectRef::Unknown,
            },
            None => ObjectRef::Unknown,
        }
    }
}

/// What an icon id names.
pub enum IconRef {
    /// `thumbnail/<object id>`: the thumbnail of an item.
    Thumbnail { object_id: String },
    /// `resource/<name>`: a file bundled with the program, at `upnp/<name>`.
    Resource { path: String },
    Unknown,
}

pub open spec fn strip_prefix(s: Seq<char>, p: Seq<char>) -> Option<Seq<char>> {
    if starts_with(s, p) {
        Some(s.skip(p.len() as int))
    } else {
        None
    }
}

fn strip_prefix_exec(v: &[char], p: &str) -> (r: Option<Vec<char>>)
    ensures
        match strip_prefix(v@, p@) {
            Some(rest) => r matches Some(x) && x@ == rest,
            None => r is None,
        },
{
    let pc = to_chars(p);
    if starts_with_chars(v, pc.as_slice()) {
        let rest = slice_chars(v, pc.len(), v.len());
        proof {
            assert(rest@ =~= v@.skip(p@.len() as int));
        }
        Some(rest)
    } else {
        None
    }
}

impl IconRef {
    pub fn parse(icon_id: &str) -> (r: IconRef)
        ensures
            match strip_prefix(icon_id@, "thumbnail/"@) {
                Some(o) => r matches IconRef::Thumbnail { object_id } && object_id@ == o,
                None => match strip_prefix(icon_id@, "resource/"@) {
                    Some(n) => r matches IconRef::Resource { path } && path@ == "upnp/"@ + n,
                    None => r is Unknown,
                },
            },
    {
        let chars = to_chars(icon_id);
        if let Some(object_id) = strip_prefix_exec(chars.as_slice(), "thumbnail/") {
            return IconRef::Thumbnail { object_id: from_chars(object_id.as_slice()) };
        }
        if let Some(name) = strip_prefix_exec(chars.as_slice(), "resource/") {
            let mut path = String::new();
            push_str(&mut path, "upnp/");
            crate::text::push_chars(&mut path, name.as_slice());
            proof {
                assert(path@ =~= "upnp/"@ + name@);
            }
            return IconRef::Resource { path };
        }
        IconRef::Unknown
    }
}

/// The icon id of an object's thumbnail.
pub fn thumbnail_icon_id(object_id: &str) -> (r: String)
    ensures
        r@ == "thumbnail/"@ + object_id@,
{
    let mut s = String::new();
    push_str(&mut s, "thumbnail/");
    push_str(&mut s, object_id);
    s
}

// ---------------------------------------------------------------------------
// Resource ids of video parts
// ---------------------------------------------------------------------------

/// The resource id of a part of a video: `video/<server>/VP:<video>/<index>`.
pub open spec fn resource_id_spec(server: Seq<char>, video: Seq<char>, index: u64) -> Seq<char> {
    "video/"@ + server + "/VP:"@ + video + "/"@ + crate::text::decimal(index as nat)
}

pub fn resource_id(server: &str, video: &str, index: usize) -> (r: String)
    ensures
        r@ == resource_id_spec(server@, video@, index as u64),
{
    let mut s = String::new();
    push_str(&mut s, "video/");
    push_str(&mut s, server);
    push_str(&mut s, "/VP:");
    push_str(&mut s, video);
    push_str(&mut s, "/");
    push_decimal(&mut s, index as u64);
    proof {
        assert(s@ =~= resource_id_spec(server@, video@, index as u64));
    }
    s
}

/// What the pattern `^video/(.+)/VP:(.+)/(\d+)$` captures in a resource id.
pub uninterp spec fn video_part_match(id: Seq<char>) -> Option<(Seq<char>, Seq<char>, Seq<char>)>;

/// Matches a resource id against `^video/(.+)/VP:(.+)/(\d+)$` with the `regex`
/// crate and hands back its three groups. Which ids match and how the greedy
/// groups split them is left to the name `video_part_match`.
#[verifier::external_body]
fn video_part_captures(id: &str) -> (r: Option<(String, String, String)>)
    ensures
        match video_part_match(id@) {
            Some((a, b, c)) => r matches Some((x, y, z)) && x@ == a && y@ == b && z@ == c,
            None => r is None,
        },
{
    let re = regex::Regex::new("^video/(.+)/VP:(.+)/(\\d+)$").unwrap();
    re.captures(id).map(
        |c| (c[1].to_owned(), c[2].to_owned(), c[3].to_owned()),
    )
}

/// The index text of a matching resource id is a number that fits.
pub open spec fn index_fits(id: Seq<char>) -> bool {
    match video_part_match(id) {
        Some((_, _, digits)) => parse_u64_spec(digits) matches Some(n) && n <= usize::MAX,
        None => true,
    }
}

/// A video part named by a resource id: its server, its video and its index.
pub fn video_part_ref(id: &str) -> (r: Option<(String, String, usize)>)
    requires
        index_fits(id@),
    ensures
        match video_part_match(id@) {
            Some((s, v, digits)) => r matches Some((server, video, index)) && server@ == s
                && video@ == v && parse_u64_spec(digits) == Some(index as u64),
            None => r is None,
        },
{
    match video_part_captures(id) {
        Some((server, video, digits)) => {
            match <usize as core::str::FromStr>::from_str(digits.as_str()) {
                Ok(index) => Some((server, video, index)),
                Err(_) => None,
            }
        },
        None => None,
    }
}

/// The video part named by a resource id, or `Err(())` when the id matches but its
/// index does not fit in a `usize`.
pub fn checked_video_part_ref(id: &str) -> (r: Result<Option<(String, String, usize)>, ()>)
    ensures
        !index_fits(id@) ==> r is Err,
        index_fits(id@) ==> match video_part_match(id@) {
            Some((s, v, digits)) => r matches Ok(Some((server, video, index))) && server@ == s
                && video@ == v && parse_u64_spec(digits) == Some(index as u64),
            None => r matches Ok(None),
        },
{
    match video_part_captures(id) {
        Some((_, _, digits)) => {
            match <usize as core::str::FromStr>::from_str(digits.as_str()) {
                Ok(_) => Ok(video_part_ref(id)),
                Err(_) => Err(()),
            }
        },
        None => Ok(video_part_ref(id)),
    }
}

/// The parent id given to a video: the id of its library, `<server>/L:<library>`,
/// for a movie and of its season, `<server>/N:<season>`, for an episode.
pub fn video_parent(is_movie: bool, parent: &str, server: &str) -> (r: String)
    ensures
        r@ == server@ + (if is_movie {
            "/L:"@
        } else {
            "/N:"@
        }) + parent@,
{
    let mut s = String::new();
    push_str(&mut s, server);
    if is_movie {
        push_str(&mut s, "/L:");
    } else {
        push_str(&mut s, "/N:");
    }
    push_str(&mut s, parent);
    proof {
        assert(s@ =~= server@ + (if is_movie {
            "/L:"@
        } else {
            "/N:"@
        }) + parent@);
    }
    s
}

// ---------------------------------------------------------------------------
// The top containers
// ---------------------------------------------------------------------------

pub fn root_container() -> (r: Container)
    ensures
        r.id@ == "0"@,
        r.parent_id@ == "-1"@,
        r.child_count == Some(3usize),
        r.title@ == "Flick Sync Synced Media"@,
{
    Container {
        id: "0".to_owned(),
        parent_id: "-1".to_owned(),
        child_count: Some(3),
        title: "Flick Sync Synced Media".to_owned(),
    }
}

/// The container of libraries, playlists (`P`) or collections (`C`), holding
/// `count` items.
pub fn top_container(kind: ItemKind, count: usize) -> (r: Container)
    requires
        kind == ItemKind::Library || kind == ItemKind::Playlist || kind == ItemKind::Collection,
    ensures
        r.id@ == kind.code_spec(),
        r.parent_id@ == "0"@,
        r.child_count == Some(count),
        r.title@ == (match kind {
            ItemKind::Library => "Libraries"@,
            ItemKind::Playlist => "Playlists"@,
            _ => "Collections"@,
        }),
{
    let (id, title) = match kind {
        ItemKind::Library => ("L", "Libraries"),
        ItemKind::Playlist => ("P", "Playlists"),
        _ => ("C", "Collections"),
    };
    Container {
        id: id.to_owned(),
        parent_id: "0".to_owned(),
        child_count: Some(count),
        title: title.to_owned(),
    }
}

// ---------------------------------------------------------------------------
// Streaming a part
// ---------------------------------------------------------------------------

/// The part of a file to stream: the range reported, where streaming starts and
/// how many bytes are sent.
pub struct StreamWindow {
    pub range: Option<Range>,
    pub position: u64,
    pub limit: u64,
}

pub open spec fn min_u64(a: u64, b: u64) -> u64 {
    if a <= b {
        a
    } else {
        b
    }
}

/// The window for a request to stream a file of `size` bytes from `seek`, at most
/// `length` bytes. `seeked` is where seeking the file to a non-zero `seek` ended,
/// `None` when it failed: the whole file is then streamed.
pub open spec fn stream_window_spec(
    size: u64,
    seek: Option<u64>,
    length: Option<u64>,
    seeked: Option<u64>,
) -> (Option<Range>, u64, u64) {
    match seek {
        Some(s) => {
            let wanted = match length {
                Some(l) => l,
                None => (size - s) as u64,
            };
            let len = min_u64(wanted, (size - s) as u64);
            if s > 0 {
                match seeked {
                    Some(start) => (Some(Range { start, length: len }), start, len),
                    None => (None, 0, size),
                }
            } else {
                (Some(Range { start: 0, length: len }), 0, len)
            }
        },
        None => match length {
            Some(l) => {
                let len = min_u64(l, size);
                (Some(Range { start: 0, length: len }), 0, len)
            },
            None => (None, 0, size),
        },
    }
}

pub fn stream_window(size: u64, seek: Option<u64>, length: Option<u64>, seeked: Option<u64>) -> (r:
    StreamWindow)
    requires
        seek matches Some(s) ==> s <= size,
    ensures
        (r.range, r.position, r.limit) == stream_window_spec(size, seek, length, seeked),
{
    match seek {
        Some(s) => {
            let rest = size - s;
            let wanted = match length {
                Some(l) => l,
                None => rest,
            };
            let len = if wanted <= rest {
                wanted
            } else {
                rest
            };
            if s > 0 {
                match seeked {
                    Some(start) => StreamWindow {
                        range: Some(Range { start, length: len }),
                        position: start,
                        limit: len,
                    },
                    None => StreamWindow { range: None, position: 0, limit: size },
                }
            } else {
                StreamWindow { range: Some(Range { start: 0, length: len }), position: 0, limit: len }
            }
        },
        None => match length {
            Some(l) => {
                let len = if l <= size {
                    l
                } else {
                    size
                };
                StreamWindow { range: Some(Range { start: 0, length: len }), position: 0, limit: len }
            },
            None => StreamWindow { range: None, position: 0, limit: size },
        },
    }
}

/// A window never reaches past the end of the file once the file is sought from
/// where it was asked to be.
pub proof fn lemma_window_within_file(size: u64, seek: Option<u64>, length: Option<u64>)
    requires
        seek matches Some(s) ==> s <= size,
    ensures
        ({
            let seeked = match seek {
                Some(s) => Some(s),
                None => None,
            };
            let (range, position, limit) = stream_window_spec(size, seek, length, seeked);
            &&& position + limit <= size
            &&& range matches Some(rg) ==> rg.start == position && rg.length == limit
        }),
{
}

/// The sum of the durations of the parts before `index`, in milliseconds.
pub open spec fn preceding_spec(durations: Seq<u64>, index: int) -> int
    decreases index,
{
    if index <= 0 {
        0
    } else {
        preceding_spec(durations, index - 1) + durations[index - 1]
    }
}

pub fn preceding_duration(durations: &Vec<u64>, index: usize) -> (r: u64)
    requires
        index <= durations.len(),
        preceding_spec(durations@, index as int) <= u64::MAX,
    ensures
        r == preceding_spec(durations@, index as int),
{
    let mut total: u64 = 0;
    let mut i: usize = 0;
    while i < index
        invariant
            i <= index <= durations.len(),
            total == preceding_spec(durations@, i as int),
            preceding_spec(durations@, index as int) <= u64::MAX,
        decreases index - i,
    {
        proof {
            lemma_preceding_monotone(durations@, i + 1, index as int);
        }
        total = total + durations[i];
        i = i + 1;
    }
    total
}

proof fn lemma_preceding_monotone(d: Seq<u64>, a: int, b: int)
    requires
        0 <= a <= b,
    ensures
        preceding_spec(d, a) <= preceding_spec(d, b),
    decreases b - a,
{
    if a < b {
        lemma_preceding_monotone(d, a, b - 1);
    }
}

/// The playback position reached after streaming `current` of `size` bytes of a
/// part of `duration` milliseconds that follows parts lasting `preceding`.
pub fn playback_position(preceding: u64, duration: u64, current: u64, size: u64) -> (r: u64)
    requires
        size > 0,
        duration * current <= u64::MAX,
        preceding + (duration * current) / (size as int) <= u64::MAX,
    ensures
        r == preceding + (duration * current) / (size as int),
{
    let scaled = duration * current;
    preceding + scaled / size
}

} // verus!
