//! The command line tool: its commands and their arguments, its errors, and the
//! decisions its commands make before they touch a server.
use vstd::prelude::*;

use crate::names::{pad_spec, push_padded};
use crate::state::OutputStyle;
use crate::text::{chars_eq, push_str, to_chars};

verus! {

// ---------------------------------------------------------------------------
// Errors
// ---------------------------------------------------------------------------

/// The errors of the command line tool that carry no error of another library.
#[derive(Debug, Clone, PartialEq, Eq)]
pub enum Error {
    UnsupportedType(String),
    UnknownServer(String),
    Generic(String),
    Unknown,
}

impl Error {
    pub open spec fn message_spec(&self) -> Seq<char> {
        match self {
            Error::UnsupportedType(t) => "Unable to sync '"@ + t@ + "'"@,
            Error::UnknownServer(s) => "Unknown server "@ + s@,
            Error::Generic(m) => m@,
            Error::Unknown => "Unknown error"@,
        }
    }

    /// The message shown for the error.
    pub fn message(&self) -> (r: String)
        ensures
            r@ == self.message_spec(),
    {
        let mut s = String::new();
        match self {
            Error::UnsupportedType(t) => {
                push_str(&mut s, "Unable to sync '");
                push_str(&mut s, t.as_str());
                push_str(&mut s, "'");
            },
            Error::UnknownServer(id) => {
                push_str(&mut s, "Unknown server ");
                push_str(&mut s, id.as_str());
            },
            Error::Generic(m) => {
                push_str(&mut s, m.as_str());
            },
            Error::Unknown => {
                push_str(&mut s, "Unknown error");
            },
        }
        proof {
            assert(s@ =~= self.message_spec());
        }
        s
    }
}

/// Fails with a message.
pub fn err<T>(s: &str) -> (r: Result<T, Error>)
    ensures
        r matches Err(Error::Generic(m)) && m@ == s@,
{
    Err(Error::Generic(s.to_owned()))
}

// ---------------------------------------------------------------------------
// Commands
// ---------------------------------------------------------------------------

/// Sets the output style.
pub struct SetOutputStyle {
    pub style: OutputStyle,
}

/// Logs in or re-logs in to a server.
pub struct Login {
    pub id: String,
    pub transcode_profile: Option<String>,
}

/// Adds an item to sync.
pub struct Add {
    pub url: String,
    pub profile: Option<String>,
    pub only_unplayed: bool,
}

/// Removes an item from the list to sync.
pub struct Remove {
    pub server: String,
    pub id: String,
}

/// Rebuilds the downloads of every server.
pub struct Rebuild {}

/// Updates the lists of items to sync and removes local content no longer
/// included, on the servers named or on all of them.
pub struct Prune {
    pub ids: Vec<String>,
}

/// Rebuilds metadata files.
pub struct BuildMetadata {
    pub ids: Vec<String>,
}

/// Performs a full sync.
pub struct Sync {
    pub ids: Vec<String>,
}

/// Lists download statistics.
pub struct Stats {}

/// Lists sync items.
pub struct List {}

/// Attempts to recover from a corrupt state file.
pub struct Recover {}

/// Serves downloaded media over DLNA and the web.
pub struct Serve {
    pub port: Option<u16>,
    pub certificate: Option<String>,
    pub private_key: Option<String>,
    pub disable_syncing: bool,
}

impl Serve {
    /// The web server's port: 80 unless one is given.
    pub fn port(&self) -> (r: u16)
        ensures
            r == match self.port {
                Some(p) => p,
                None => 80u16,
            },
    {
        match self.port {
            Some(p) => p,
            None => 80,
        }
    }

    /// The certificate and private key files, when both are given: HTTPS is served
    /// only then.
    pub fn tls_files(&self) -> (r: Option<(String, String)>)
        ensures
            match (self.certificate, self.private_key) {
                (Some(c), Some(k)) => r matches Some((rc, rk)) && rc@ == c@ && rk@ == k@,
                _ => r is None,
            },
    {
        match (&self.certificate, &self.private_key) {
            (Some(c), Some(k)) => Some((c.clone(), k.clone())),
            _ => None,
        }
    }
}

/// A command of the tool.
pub enum Command {
    Login(Login),
    Add(Add),
    Remove(Remove),
    Prune(Prune),
    Sync(Sync),
    Stats(Stats),
    List(List),
    Recover(Recover),
    BuildMetadata(BuildMetadata),
    Serve(Serve),
}

/// How a progress bar counts.
#[derive(Debug, Clone, Copy, PartialEq, Eq, Structural)]
pub enum ProgressType {
    Bytes,
    Percent,
}

// ---------------------------------------------------------------------------
// Choosing servers
// ---------------------------------------------------------------------------

pub open spec fn seq_view(v: Seq<String>) -> Seq<Seq<char>> {
    v.map_values(|s: String| s@)
}

/// The servers a command works on: all known servers when none is named,
/// otherwise the ones named, in order; the first name that is not a known server
/// is the error.
pub open spec fn select_servers_spec(known: Seq<Seq<char>>, ids: Seq<Seq<char>>) -> Result<
    Seq<Seq<char>>,
    Seq<char>,
> {
    if ids.len() == 0 {
        Ok(known)
    } else {
        match first_unknown(known, ids, 0) {
            Some(i) => Err(ids[i]),
            None => Ok(ids),
        }
    }
}

/// The index of the first name from `i` on that is not known.
pub open spec fn first_unknown(known: Seq<Seq<char>>, ids: Seq<Seq<char>>, i: int) -> Option<int>
    decreases ids.len() - i,
{
    if i >= ids.len() {
        None
    } else if !known.contains(ids[i]) {
        Some(i)
    } else {
        first_unknown(known, ids, i + 1)
    }
}

fn contains_name(known: &Vec<String>, id: &String) -> (r: bool)
    ensures
        r == seq_view(known@).contains(id@),
{
    let target = to_chars(id.as_str());
    let mut i: usize = 0;
    while i < known.len()
        invariant
            i <= known.len(),
            target@ == id@,
            forall|j: int| 0 <= j < i ==> known@[j]@ != id@,
        decreases known.len() - i,
    {
        let k = to_chars(known[i].as_str());
        if chars_eq(k.as_slice(), target.as_slice()) {
            proof {
                assert(seq_view(known@)[i as int] == id@);
            }
            return true;
        }
        i = i + 1;
    }
    proof {
        if seq_view(known@).contains(id@) {
            let j = choose|j: int| 0 <= j < seq_view(known@).len() && seq_view(known@)[j] == id@;
            assert(known@[j]@ == id@);
        }
    }
    false
}

pub fn select_servers(known: &Vec<String>, ids: &Vec<String>) -> (r: Result<Vec<String>, String>)
    ensures
        match select_servers_spec(seq_view(known@), seq_view(ids@)) {
            Ok(s) => r matches Ok(v) && seq_view(v@) == s,
            Err(e) => r matches Err(m) && m@ == e,
        },
{
    if ids.len() == 0 {
        return Ok(known.clone());
    }
    let mut i: usize = 0;
    while i < ids.len()
        invariant
            i <= ids.len(),
            ids.len() > 0,
            first_unknown(seq_view(known@), seq_view(ids@), 0) == first_unknown(
                seq_view(known@),
                seq_view(ids@),
                i as int,
            ),
        decreases ids.len() - i,
    {
        if !contains_name(known, &ids[i]) {
            return Err(ids[i].clone());
        }
        i = i + 1;
    }
    Ok(ids.clone())
}

/// What pruning covers: the servers, chosen as `select_servers` chooses them, and
/// whether the top level of the store is pruned too, which it is when no server
/// is named.
pub fn prune_plan(known: &Vec<String>, ids: &Vec<String>) -> (r: Result<(bool, Vec<String>), String>)
    ensures
        match select_servers_spec(seq_view(known@), seq_view(ids@)) {
            Ok(s) => r matches Ok((root, v)) && root == (ids@.len() == 0) && seq_view(v@) == s,
            Err(e) => r matches Err(m) && m@ == e,
        },
{
    match select_servers(known, ids) {
        Ok(v) => Ok((ids.len() == 0, v)),
        Err(e) => Err(e),
    }
}

// ---------------------------------------------------------------------------
// Server addresses
// ---------------------------------------------------------------------------

/// A server address as typed: a URL is kept, a host with a port gets `http://`,
/// a bare host also gets Plex's port 32400.
pub open spec fn server_url_spec(input: Seq<char>) -> Seq<char> {
    if contains_text(input, "://"@) {
        input
    } else if input.contains(':') {
        "http://"@ + input
    } else {
        "http://"@ + input + ":32400"@
    }
}

pub open spec fn contains_text(s: Seq<char>, t: Seq<char>) -> bool {
    exists|i: int| 0 <= i && i + t.len() <= s.len() && #[trigger] s.subrange(i, i + t.len()) == t
}

fn contains_scheme(v: &[char]) -> (r: bool)
    ensures
        r == contains_text(v@, "://"@),
{
    let mut i: usize = 0;
    while i < v.len() && v.len() - i >= 3
        invariant
            i <= v.len(),
            forall|j: int|
                0 <= j < i && j + 3 <= v@.len() ==> #[trigger] v@.subrange(j, j + 3) != "://"@,
        decreases v.len() - i,
    {
        proof {
            reveal_strlit("://");
        }
        if v[i] == ':' && v[i + 1] == '/' && v[i + 2] == '/' {
            proof {
                assert(v@.subrange(i as int, i + 3) =~= "://"@);
            }
            return true;
        }
        proof {
            let sub = v@.subrange(i as int, i + 3);
            assert(sub[0] == v@[i as int]);
            assert(sub[1] == v@[i + 1]);
            assert(sub[2] == v@[i + 2]);
            if sub == "://"@ {
                assert(sub[0] == ':' && sub[1] == '/' && sub[2] == '/');
            }
        }
        i = i + 1;
    }
    proof {
        reveal_strlit("://");
        if contains_text(v@, "://"@) {
            let j = choose|j: int|
                0 <= j && j + 3 <= v@.len() && #[trigger] v@.subrange(j, j + 3) == "://"@;
            assert(j < i);
        }
    }
    false
}

fn has_char(v: &[char], c: char) -> (r: bool)
    ensures
        r == v@.contains(c),
{
    let mut i: usize = 0;
    while i < v.len()
        invariant
            i <= v.len(),
            forall|k: int| 0 <= k < i ==> v@[k] != c,
        decreases v.len() - i,
    {
        if v[i] == c {
            return true;
        }
        i = i + 1;
    }
    false
}

pub fn server_url(input: &str) -> (r: String)
    ensures
        r@ == server_url_spec(input@),
{
    let chars = to_chars(input);
    if contains_scheme(chars.as_slice()) {
        return input.to_owned();
    }
    let mut s = String::new();
    push_str(&mut s, "http://");
    push_str(&mut s, input);
    if !has_char(chars.as_slice(), ':') {
        push_str(&mut s, ":32400");
    }
    proof {
        assert(s@ =~= server_url_spec(input@));
    }
    s
}

// ---------------------------------------------------------------------------
// Listing sync items
// ---------------------------------------------------------------------------

/// The kind of a synced item.
#[derive(Debug, Clone, Copy, PartialEq, Eq, Structural)]
pub enum ItemType {
    Playlist,
    MovieCollection,
    ShowCollection,
    Show,
    Season,
    Episode,
    Movie,
    Unknown,
}

impl ItemType {
    pub open spec fn name_spec(self) -> Seq<char> {
        match self {
            ItemType::Playlist => "Playlist"@,
            ItemType::MovieCollection => "Movie Collection"@,
            ItemType::ShowCollection => "Show Collection"@,
            ItemType::Show => "Show"@,
            ItemType::Season => "Season"@,
            ItemType::Episode => "Episode"@,
            ItemType::Movie => "Movie"@,
            ItemType::Unknown => "Unknown"@,
        }
    }

    /// The name shown in listings.
    pub fn name(&self) -> (r: &'static str)
        ensures
            r@ == self.name_spec(),
    {
        match self {
            ItemType::Playlist => "Playlist",
            ItemType::MovieCollection => "Movie Collection",
            ItemType::ShowCollection => "Show Collection",
            ItemType::Show => "Show",
            ItemType::Season => "Season",
            ItemType::Episode => "Episode",
            ItemType::Movie => "Movie",
            ItemType::Unknown => "Unknown",
        }
    }
}

/// An item in a server's sync list.
pub struct SyncItemInfo {
    pub id: String,
    pub item_type: ItemType,
    pub title: String,
    pub transcode_profile: Option<String>,
    pub only_unplayed: bool,
}

/// The line listing a sync item: server, id, type, title, which videos are synced
/// and the transcode profile, in columns of 10, 8, 16, 20, 3 and 10 characters.
pub open spec fn list_line_spec(server: Seq<char>, item: SyncItemInfo) -> Seq<char> {
    pad_spec(server, 10) + " "@ + pad_spec(item.id@, 8) + " "@ + pad_spec(
        item.item_type.name_spec(),
        16,
    ) + "  "@ + pad_spec(item.title@, 20) + " "@ + pad_spec(
        if item.only_unplayed {
            "unplayed"@
        } else {
            "all"@
        },
        3,
    ) + " "@ + pad_spec(
        match item.transcode_profile {
            Some(p) => p@,
            None => Seq::empty(),
        },
        10,
    )
}

pub fn list_line(server: &str, item: &SyncItemInfo) -> (r: String)
    ensures
        r@ == list_line_spec(server@, *item),
{
    let mut s = String::new();
    push_padded(&mut s, server, 10);
    push_str(&mut s, " ");
    push_padded(&mut s, item.id.as_str(), 8);
    push_str(&mut s, " ");
    push_padded(&mut s, item.item_type.name(), 16);
    push_str(&mut s, "  ");
    push_padded(&mut s, item.title.as_str(), 20);
    push_str(&mut s, " ");
    let selected = if item.only_unplayed {
        "unplayed"
    } else {
        "all"
    };
    push_padded(&mut s, selected, 3);
    push_str(&mut s, " ");
    match &item.transcode_profile {
        Some(p) => push_padded(&mut s, p.as_str(), 10),
        None => push_padded(&mut s, "", 10),
    }
    proof {
        reveal_strlit("");
        assert(""@ =~= Seq::<char>::empty());
        assert(s@ =~= list_line_spec(server@, *item));
    }
    s
}

// ---------------------------------------------------------------------------
// Choosing an account's user and server
// ---------------------------------------------------------------------------

/// How one of a list is chosen when logging in.
#[derive(Debug, Clone, Copy, PartialEq, Eq, Structural)]
pub enum Pick {
    /// The remembered one, at this index.
    Remembered(usize),
    /// The only one listed.
    Only,
    /// None is listed.
    NoneListed,
    /// The person at the console is asked to choose.
    Ask,
}

/// The user to log in as: the first listed with the remembered id, otherwise the
/// only one listed, otherwise the one the person chooses.
pub fn pick_user(user_ids: &Vec<String>, remembered: Option<&str>) -> (r: Pick)
    ensures
        match r {
            Pick::Remembered(i) => remembered matches Some(id) && i < user_ids.len()
                && user_ids@[i as int]@ == id@ && forall|j: int|
                0 <= j < i ==> #[trigger] user_ids@[j]@ != id@,
            _ => (remembered matches Some(id) ==> forall|j: int|
                0 <= j < user_ids.len() ==> #[trigger] user_ids@[j]@ != id@) && r == (if user_ids.len()
                == 1 {
                Pick::Only
            } else {
                Pick::Ask
            }),
        },
{
    if let Some(id) = remembered {
        let y = to_chars(id);
        let mut i: usize = 0;
        while i < user_ids.len()
            invariant
                i <= user_ids.len(),
                y@ == id@,
                remembered == Some(id),
                forall|j: int| 0 <= j < i ==> #[trigger] user_ids@[j]@ != id@,
            decreases user_ids.len() - i,
        {
            let x = to_chars(user_ids[i].as_str());
            if chars_eq(x.as_slice(), y.as_slice()) {
                proof {
                    assert(user_ids@[i as int]@ == x@);
                }
                return Pick::Remembered(i);
            }
            i = i + 1;
        }
    }
    if user_ids.len() == 1 {
        Pick::Only
    } else {
        Pick::Ask
    }
}

/// The server to add from an account's servers: there must be one; the only one
/// is taken; among several the person chooses.
pub fn pick_server(count: usize) -> (r: Pick)
    ensures
        r == (if count == 0 {
            Pick::NoneListed
        } else if count == 1 {
            Pick::Only
        } else {
            Pick::Ask
        }),
{
    if count == 0 {
        Pick::NoneListed
    } else if count == 1 {
        Pick::Only
    } else {
        Pick::Ask
    }
}

} // verus!
