//! Where the files of synced items are stored, relative to the store, in each
//! output style.
use vstd::prelude::*;

use crate::names::{safe, safe_spec};
use crate::state::OutputStyle;
use crate::text::{decimal, decimal2, push_decimal, push_decimal2, push_str};

verus! {

/// The kinds of file kept for an item.
#[derive(Debug, Clone, Copy, PartialEq, Eq, Structural)]
pub enum FileType {
    Video,
    Thumbnail,
    Metadata,
    Playlist,
}

impl FileType {
    /// Every file but the video itself is metadata.
    pub fn is_metadata(&self) -> (r: bool)
        ensures
            r == (*self != FileType::Video),
    {
        match self {
            FileType::Video => false,
            _ => true,
        }
    }
}

/// The directory, in each server's directory, that holds metadata in the minimal
/// style.
pub open spec fn metadata_dir() -> Seq<char> {
    ".metadata"@
}

/// `PathBuf::join` with a relative component on Unix: a separator is put between
/// the two unless the path is empty or already ends with one.
pub open spec fn join_spec(a: Seq<char>, b: Seq<char>) -> Seq<char> {
    if a.len() == 0 {
        b
    } else if a.last() == '/' {
        a + b
    } else {
        a + "/"@ + b
    }
}

/// Appends a component to a relative path.
pub fn join(a: &mut String, b: &str)
    ensures
        final(a)@ == join_spec(old(a)@, b@),
{
    proof {
        reveal_strlit("/");
    }
    let chars = crate::text::to_chars(a.as_str());
    let add = chars.len() > 0 && chars[chars.len() - 1] != '/';
    if add {
        a.push('/');
    }
    push_str(a, b);
    proof {
        if old(a)@.len() > 0 {
            assert(old(a)@.last() == chars@[chars.len() - 1]);
        }
        if add {
            assert(a@ =~= old(a)@ + "/"@ + b@);
        } else {
            assert(a@ =~= old(a)@ + b@);
        }
        assert(a@ =~= join_spec(old(a)@, b@));
    }
}

/// `<title> (<year>)`.
pub open spec fn titled(title: Seq<char>, year: u32) -> Seq<char> {
    title + " ("@ + decimal(year as nat) + ")"@
}

fn titled_exec(title: &str, year: u32) -> (r: String)
    ensures
        r@ == titled(title@, year),
{
    let mut s = String::new();
    push_str(&mut s, title);
    push_str(&mut s, " (");
    push_decimal(&mut s, year as u64);
    push_str(&mut s, ")");
    proof {
        assert(s@ =~= titled(title@, year));
    }
    s
}

/// `<name>.<extension>`.
pub open spec fn with_ext(name: Seq<char>, ext: Seq<char>) -> Seq<char> {
    name + "."@ + ext
}

fn with_ext_exec(name: &str, ext: &str) -> (r: String)
    ensures
        r@ == with_ext(name@, ext@),
{
    let mut s = String::new();
    push_str(&mut s, name);
    push_str(&mut s, ".");
    push_str(&mut s, ext);
    proof {
        assert(s@ =~= with_ext(name@, ext@));
    }
    s
}

/// `<server>/.metadata/<name>`, each part made safe.
pub open spec fn metadata_path(server: Seq<char>, name: Seq<char>) -> Seq<char> {
    join_spec(join_spec(safe_spec(server), metadata_dir()), safe_spec(name))
}

fn metadata_path_exec(server: &str, name: &str) -> (r: String)
    ensures
        r@ == metadata_path(server@, name@),
{
    let mut p = safe(server);
    join(&mut p, ".metadata");
    let n = safe(name);
    join(&mut p, n.as_str());
    p
}

/// `<server>/<first>/<second>/<name>`, each part made safe.
pub open spec fn library_path(
    server: Seq<char>,
    first: Seq<char>,
    second: Seq<char>,
    name: Seq<char>,
) -> Seq<char> {
    join_spec(
        join_spec(join_spec(safe_spec(server), safe_spec(first)), safe_spec(second)),
        safe_spec(name),
    )
}

fn library_path_exec(server: &str, first: &str, second: &str, name: &str) -> (r: String)
    ensures
        r@ == library_path(server@, first@, second@, name@),
{
    let mut p = safe(server);
    let f = safe(first);
    join(&mut p, f.as_str());
    let s = safe(second);
    join(&mut p, s.as_str());
    let n = safe(name);
    join(&mut p, n.as_str());
    p
}

// ---------------------------------------------------------------------------
// Shows
// ---------------------------------------------------------------------------

/// A show keeps a thumbnail (`dvdcover` in the standardized style) and, in the
/// standardized style, a `tvshow` metadata file, in its own directory of its
/// library; in the minimal style the thumbnail is named by the show's id and kept
/// in the metadata directory.
pub open spec fn show_path_spec(
    server: Seq<char>,
    id: Seq<char>,
    style: OutputStyle,
    file_type: FileType,
    ext: Seq<char>,
    library: Seq<char>,
    title: Seq<char>,
    year: u32,
) -> Option<Seq<char>> {
    let standard = style == OutputStyle::Standardized;
    let name = match file_type {
        FileType::Thumbnail => Some(
            if standard {
                with_ext("dvdcover"@, ext)
            } else {
                with_ext(id, ext)
            },
        ),
        FileType::Metadata => if standard {
            Some(with_ext("tvshow"@, ext))
        } else {
            None
        },
        _ => None,
    };
    match name {
        None => None,
        Some(n) => Some(
            if standard {
                library_path(server, library, titled(title, year), n)
            } else {
                metadata_path(server, n)
            },
        ),
    }
}

pub fn show_path(
    server: &str,
    id: &str,
    style: OutputStyle,
    file_type: FileType,
    ext: &str,
    library: &str,
    title: &str,
    year: u32,
) -> (r: Option<String>)
    ensures
        match show_path_spec(server@, id@, style, file_type, ext@, library@, title@, year) {
            Some(p) => r matches Some(s) && s@ == p,
            None => r is None,
        },
{
    let standard = style == OutputStyle::Standardized;
    let name = match file_type {
        FileType::Thumbnail => if standard {
            with_ext_exec("dvdcover", ext)
        } else {
            with_ext_exec(id, ext)
        },
        FileType::Metadata => {
            if !standard {
                return None;
            }
            with_ext_exec("tvshow", ext)
        },
        _ => {
            return None;
        },
    };
    if standard {
        let dir = titled_exec(title, year);
        Some(library_path_exec(server, library, dir.as_str(), name.as_str()))
    } else {
        Some(metadata_path_exec(server, name.as_str()))
    }
}

// ---------------------------------------------------------------------------
// Episodes
// ---------------------------------------------------------------------------

/// `S<season>E<episode> - <title>`, numbers with at least two digits.
pub open spec fn episode_name(season: u32, index: u32, title: Seq<char>) -> Seq<char> {
    "S"@ + decimal2(season as nat) + "E"@ + decimal2(index as nat) + " - "@ + title
}

fn episode_name_exec(season: u32, index: u32, title: &str) -> (r: String)
    ensures
        r@ == episode_name(season, index, title@),
{
    let mut s = String::new();
    push_str(&mut s, "S");
    push_decimal2(&mut s, season as u64);
    push_str(&mut s, "E");
    push_decimal2(&mut s, index as u64);
    push_str(&mut s, " - ");
    push_str(&mut s, title);
    proof {
        assert(s@ =~= episode_name(season, index, title@));
    }
    s
}

/// An episode's video, and in the standardized style its thumbnail and metadata,
/// are named `SxxEyy - <title>` in the show's directory of its library; in the
/// minimal style the thumbnail is named by the episode's id in the metadata
/// directory and there is no metadata file.
pub open spec fn episode_path_spec(
    server: Seq<char>,
    id: Seq<char>,
    style: OutputStyle,
    file_type: FileType,
    ext: Seq<char>,
    season: u32,
    index: u32,
    title: Seq<char>,
    library: Seq<char>,
    show_title: Seq<char>,
    show_year: u32,
) -> Option<Seq<char>> {
    let standard = style == OutputStyle::Standardized;
    let episode = with_ext(episode_name(season, index, title), ext);
    let name = match file_type {
        FileType::Playlist => None,
        FileType::Video => Some(episode),
        FileType::Thumbnail => Some(
            if standard {
                episode
            } else {
                with_ext(id, ext)
            },
        ),
        FileType::Metadata => if standard {
            Some(episode)
        } else {
            None
        },
    };
    match name {
        None => None,
        Some(n) => Some(
            if standard || file_type == FileType::Video {
                library_path(server, library, titled(show_title, show_year), n)
            } else {
                metadata_path(server, n)
            },
        ),
    }
}

/// In the standardized style an episode's thumbnail and metadata files sit beside
/// its video and are named as it is, but for their extension; its video always has
/// a path.
pub proof fn law_episode_files_beside_video(
    server: Seq<char>,
    id: Seq<char>,
    file_type: FileType,
    ext: Seq<char>,
    season: u32,
    index: u32,
    title: Seq<char>,
    library: Seq<char>,
    show_title: Seq<char>,
    show_year: u32,
)
    requires
        file_type == FileType::Thumbnail || file_type == FileType::Metadata,
    ensures
        episode_path_spec(server, id, OutputStyle::Standardized, file_type, ext, season, index, title, library, show_title, show_year)
            == episode_path_spec(server, id, OutputStyle::Standardized, FileType::Video, ext, season, index, title, library, show_title, show_year),
        forall|style: OutputStyle|
            #[trigger] episode_path_spec(server, id, style, FileType::Video, ext, season, index, title, library, show_title, show_year) is Some,
        episode_path_spec(server, id, OutputStyle::Minimal, FileType::Video, ext, season, index, title, library, show_title, show_year)
            == episode_path_spec(server, id, OutputStyle::Standardized, FileType::Video, ext, season, index, title, library, show_title, show_year),
{
}

/// In the minimal style an episode has no metadata file, and its thumbnail is
/// named by its id alone, whatever its season, number, title or show; no style
/// gives an episode a playlist file.
pub proof fn law_episode_minimal_files(
    server: Seq<char>,
    id: Seq<char>,
    ext: Seq<char>,
    a: (u32, u32, Seq<char>, Seq<char>, Seq<char>, u32),
    b: (u32, u32, Seq<char>, Seq<char>, Seq<char>, u32),
)
    ensures
        episode_path_spec(server, id, OutputStyle::Minimal, FileType::Metadata, ext, a.0, a.1, a.2, a.3, a.4, a.5) is None,
        episode_path_spec(server, id, OutputStyle::Minimal, FileType::Thumbnail, ext, a.0, a.1, a.2, a.3, a.4, a.5) is Some,
        episode_path_spec(server, id, OutputStyle::Minimal, FileType::Thumbnail, ext, a.0, a.1, a.2, a.3, a.4, a.5)
            == episode_path_spec(server, id, OutputStyle::Minimal, FileType::Thumbnail, ext, b.0, b.1, b.2, b.3, b.4, b.5),
        forall|style: OutputStyle|
            #[trigger] episode_path_spec(server, id, style, FileType::Playlist, ext, a.0, a.1, a.2, a.3, a.4, a.5) is None,
{
}

pub fn episode_path(
    server: &str,
    id: &str,
    style: OutputStyle,
    file_type: FileType,
    ext: &str,
    season: u32,
    index: u32,
    title: &str,
    library: &str,
    show_title: &str,
    show_year: u32,
) -> (r: Option<String>)
    ensures
        match episode_path_spec(
            server@,
            id@,
            style,
            file_type,
            ext@,
            season,
            index,
            title@,
            library@,
            show_title@,
            show_year,
        ) {
            Some(p) => r matches Some(s) && s@ == p,
            None => r is None,
        },
{
    let standard = style == OutputStyle::Standardized;
    let episode = episode_name_exec(season, index, title);
    let name = match file_type {
        FileType::Playlist => {
            return None;
        },
        FileType::Video => with_ext_exec(episode.as_str(), ext),
        FileType::Thumbnail => if standard {
            with_ext_exec(episode.as_str(), ext)
        } else {
            with_ext_exec(id, ext)
        },
        FileType::Metadata => {
            if !standard {
                return None;
            }
            with_ext_exec(episode.as_str(), ext)
        },
    };
    if standard || !file_type.is_metadata() {
        let dir = titled_exec(show_title, show_year);
        Some(library_path_exec(server, library, dir.as_str(), name.as_str()))
    } else {
        Some(metadata_path_exec(server, name.as_str()))
    }
}

// ---------------------------------------------------------------------------
// Movies
// ---------------------------------------------------------------------------

/// A movie's video is named `<title> (<year>)` in its library (in its own
/// directory there in the standardized style); in the standardized style its
/// thumbnail and metadata are named like the video, or `movie` when it has several
/// parts; in the minimal style its thumbnail is named by its id in the metadata
/// directory and there is no metadata file.
pub open spec fn movie_path_spec(
    server: Seq<char>,
    id: Seq<char>,
    style: OutputStyle,
    file_type: FileType,
    ext: Seq<char>,
    title: Seq<char>,
    year: u32,
    parts: nat,
    library: Seq<char>,
) -> Option<Seq<char>> {
    let standard = style == OutputStyle::Standardized;
    let own = with_ext(titled(title, year), ext);
    let shared = if parts == 1 {
        own
    } else {
        with_ext("movie"@, ext)
    };
    let name = match file_type {
        FileType::Playlist => None,
        FileType::Video => Some(own),
        FileType::Thumbnail => Some(
            if !standard {
                with_ext(id, ext)
            } else {
                shared
            },
        ),
        FileType::Metadata => if standard {
            Some(shared)
        } else {
            None
        },
    };
    match name {
        None => None,
        Some(n) => Some(
            if standard {
                library_path(server, library, titled(title, year), n)
            } else if file_type == FileType::Video {
                join_spec(join_spec(safe_spec(server), safe_spec(library)), safe_spec(n))
            } else {
                metadata_path(server, n)
            },
        ),
    }
}

pub fn movie_path(
    server: &str,
    id: &str,
    style: OutputStyle,
    file_type: FileType,
    ext: &str,
    title: &str,
    year: u32,
    parts: usize,
    library: &str,
) -> (r: Option<String>)
    ensures
        match movie_path_spec(
            server@,
            id@,
            style,
            file_type,
            ext@,
            title@,
            year,
            parts as nat,
            library@,
        ) {
            Some(p) => r matches Some(s) && s@ == p,
            None => r is None,
        },
{
    let standard = style == OutputStyle::Standardized;
    let dir = titled_exec(title, year);
    let name = match file_type {
        FileType::Playlist => {
            return None;
        },
        FileType::Video => with_ext_exec(dir.as_str(), ext),
        FileType::Thumbnail => {
            if !standard {
                with_ext_exec(id, ext)
            } else if parts == 1 {
                with_ext_exec(dir.as_str(), ext)
            } else {
                with_ext_exec("movie", ext)
            }
        },
        FileType::Metadata => {
            if !standard {
                return None;
            }
            if parts == 1 {
                with_ext_exec(dir.as_str(), ext)
            } else {
                with_ext_exec("movie", ext)
            }
        },
    };
    if standard || !file_type.is_metadata() {
        let mut base = safe(server);
        let lib = safe(library);
        join(&mut base, lib.as_str());
        if standard {
            let d = safe(dir.as_str());
            join(&mut base, d.as_str());
        }
        let n = safe(name.as_str());
        join(&mut base, n.as_str());
        Some(base)
    } else {
        Some(metadata_path_exec(server, name.as_str()))
    }
}

// ---------------------------------------------------------------------------
// Playlists and collections
// ---------------------------------------------------------------------------

/// A playlist's thumbnail is named by its title in the standardized style and by
/// its id otherwise; its playlist file exists only in the standardized style; both
/// are kept in `Playlists` (standardized) or the metadata directory.
pub open spec fn playlist_path_spec(
    server: Seq<char>,
    id: Seq<char>,
    style: OutputStyle,
    file_type: FileType,
    ext: Seq<char>,
    title: Seq<char>,
) -> Option<Seq<char>> {
    let standard = style == OutputStyle::Standardized;
    let name = match file_type {
        FileType::Thumbnail => Some(
            if standard {
                with_ext(title, ext)
            } else {
                with_ext(id, ext)
            },
        ),
        FileType::Playlist => if standard {
            Some(with_ext(title, ext))
        } else {
            None
        },
        _ => None,
    };
    match name {
        None => None,
        Some(n) => Some(
            join_spec(
                join_spec(
                    safe_spec(server),
                    if standard {
                        "Playlists"@
                    } else {
                        metadata_dir()
                    },
                ),
                safe_spec(n),
            ),
        ),
    }
}

pub fn playlist_path(
    server: &str,
    id: &str,
    style: OutputStyle,
    file_type: FileType,
    ext: &str,
    title: &str,
) -> (r: Option<String>)
    ensures
        match playlist_path_spec(server@, id@, style, file_type, ext@, title@) {
            Some(p) => r matches Some(s) && s@ == p,
            None => r is None,
        },
{
    let standard = style == OutputStyle::Standardized;
    let name = match file_type {
        FileType::Thumbnail => if standard {
            with_ext_exec(title, ext)
        } else {
            with_ext_exec(id, ext)
        },
        FileType::Playlist => {
            if !standard {
                return None;
            }
            with_ext_exec(title, ext)
        },
        _ => {
            return None;
        },
    };
    let mut root = safe(server);
    if standard {
        join(&mut root, "Playlists");
    } else {
        join(&mut root, ".metadata");
    }
    let n = safe(name.as_str());
    join(&mut root, n.as_str());
    Some(root)
}

/// A collection's files are named like a playlist's and kept in the
/// `Collections` directory of its library (standardized) or the metadata
/// directory.
pub open spec fn collection_path_spec(
    server: Seq<char>,
    id: Seq<char>,
    style: OutputStyle,
    file_type: FileType,
    ext: Seq<char>,
    title: Seq<char>,
    library: Seq<char>,
) -> Option<Seq<char>> {
    let standard = style == OutputStyle::Standardized;
    let name = match file_type {
        FileType::Thumbnail => Some(
            if standard {
                with_ext(title, ext)
            } else {
                with_ext(id, ext)
            },
        ),
        FileType::Playlist => if standard {
            Some(with_ext(title, ext))
        } else {
            None
        },
        _ => None,
    };
    match name {
        None => None,
        Some(n) => Some(
            if standard {
                library_path(server, library, "Collections"@, n)
            } else {
                metadata_path(server, n)
            },
        ),
    }
}

pub fn collection_path(
    server: &str,
    id: &str,
    style: OutputStyle,
    file_type: FileType,
    ext: &str,
    title: &str,
    library: &str,
) -> (r: Option<String>)
    ensures
        match collection_path_spec(server@, id@, style, file_type, ext@, title@, library@) {
            Some(p) => r matches Some(s) && s@ == p,
            None => r is None,
        },
{
    let standard = style == OutputStyle::Standardized;
    let name = match file_type {
        FileType::Thumbnail => if standard {
            with_ext_exec(title, ext)
        } else {
            with_ext_exec(id, ext)
        },
        FileType::Playlist => {
            if !standard {
                return None;
            }
            with_ext_exec(title, ext)
        },
        _ => {
            return None;
        },
    };
    if standard {
        Some(library_path_exec(server, library, "Collections", name.as_str()))
    } else {
        Some(metadata_path_exec(server, name.as_str()))
    }
}

} // verus!
