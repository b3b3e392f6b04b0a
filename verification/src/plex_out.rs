//! The state kept by the plain export tool: where its servers are and the file
//! names its movies and episodes are stored under.
use vstd::prelude::*;

use crate::names::{safe, safe_spec};
use crate::paths::{join, join_spec, titled};
use crate::text::{decimal, decimal2, push_decimal, push_decimal2, push_str};

verus! {

/// How to reach a Plex server.
pub enum ServerConnection {
    MyPlex { username: String, id: String },
    Direct { url: String },
}

/// A configured server.
pub struct ServerConfig {
    pub connection: ServerConnection,
}

/// A season of a show; `episodes` holds the ids of its episodes, each once.
pub struct SeasonState {
    pub index: u32,
    pub title: String,
    pub episodes: Vec<String>,
}

/// A synced movie and the prefix of its files.
pub struct MovieState {
    pub title: String,
    pub library: String,
    pub year: u32,
    pub file_prefix: String,
}

/// A synced episode and the prefix of its files.
pub struct EpisodeState {
    pub title: String,
    pub library: String,
    pub show: String,
    pub season: String,
    pub index: u32,
    pub file_prefix: String,
}

/// `<library>/<title> (<year>)/<title> (<year>)`.
pub open spec fn movie_prefix_spec(library: Seq<char>, title: Seq<char>, year: u32) -> Seq<char> {
    let named = title + " ("@ + decimal(year as nat) + ")"@;
    library + "/"@ + named + "/"@ + named
}

/// `<library>/<show> (<year>)/S<season>E<episode> - <title>`, season and episode
/// numbers with at least two digits.
pub open spec fn episode_prefix_spec(
    library: Seq<char>,
    show_title: Seq<char>,
    show_year: u32,
    season_index: u32,
    index: u32,
    title: Seq<char>,
) -> Seq<char> {
    library + "/"@ + show_title + " ("@ + decimal(show_year as nat) + ")/S"@ + decimal2(
        season_index as nat,
    ) + "E"@ + decimal2(index as nat) + " - "@ + title
}

fn push_named(s: &mut String, title: &str, year: u32)
    ensures
        final(s)@ == old(s)@ + title@ + " ("@ + decimal(year as nat) + ")"@,
{
    push_str(s, title);
    push_str(s, " (");
    push_decimal(s, year as u64);
    push_str(s, ")");
    proof {
        assert(s@ =~= old(s)@ + title@ + " ("@ + decimal(year as nat) + ")"@);
    }
}

impl MovieState {
    pub fn generate_prefix(library: &str, title: &str, year: u32) -> (r: String)
        ensures
            r@ == movie_prefix_spec(library@, title@, year),
    {
        let mut s = String::new();
        push_str(&mut s, library);
        push_str(&mut s, "/");
        push_named(&mut s, title, year);
        push_str(&mut s, "/");
        push_named(&mut s, title, year);
        proof {
            assert(s@ =~= movie_prefix_spec(library@, title@, year));
        }
        s
    }

    pub fn new(title: &str, library: &str, year: u32) -> (r: MovieState)
        ensures
            r.title@ == title@,
            r.library@ == library@,
            r.year == year,
            r.file_prefix@ == movie_prefix_spec(library@, title@, year),
    {
        MovieState {
            title: title.to_owned(),
            library: library.to_owned(),
            year,
            file_prefix: MovieState::generate_prefix(library, title, year),
        }
    }
}

impl EpisodeState {
    pub fn generate_prefix(
        library: &str,
        show_title: &str,
        show_year: u32,
        season_index: u32,
        index: u32,
        title: &str,
    ) -> (r: String)
        ensures
            r@ == episode_prefix_spec(library@, show_title@, show_year, season_index, index, title@),
    {
        let mut s = String::new();
        push_str(&mut s, library);
        push_str(&mut s, "/");
        push_str(&mut s, show_title);
        push_str(&mut s, " (");
        push_decimal(&mut s, show_year as u64);
        push_str(&mut s, ")/S");
        push_decimal2(&mut s, season_index as u64);
        push_str(&mut s, "E");
        push_decimal2(&mut s, index as u64);
        push_str(&mut s, " - ");
        push_str(&mut s, title);
        proof {
            assert(s@ =~= episode_prefix_spec(
                library@,
                show_title@,
                show_year,
                season_index,
                index,
                title@,
            ));
        }
        s
    }
}

// ---------------------------------------------------------------------------
// File paths of the exported items
// ---------------------------------------------------------------------------

/// `<library>/<title> (<year>)/<title> (<year>).<extension>`, each component made
/// safe: where a movie, and the thumbnail of a show, are stored.
pub open spec fn titled_file_spec(library: Seq<char>, title: Seq<char>, year: u32, extension: Seq<
    char,
>) -> Seq<char> {
    join_spec(
        join_spec(safe_spec(library), safe_spec(titled(title, year))),
        safe_spec(titled(title, year) + "."@ + extension),
    )
}

/// `<library>/<show> (<year>)/S<season>E<episode> <title>.<extension>`, numbers
/// with at least two digits, each component made safe: where an episode is stored.
pub open spec fn episode_file_spec(
    library: Seq<char>,
    show_title: Seq<char>,
    show_year: u32,
    season_index: u32,
    index: u32,
    title: Seq<char>,
    extension: Seq<char>,
) -> Seq<char> {
    join_spec(
        join_spec(safe_spec(library), safe_spec(titled(show_title, show_year))),
        safe_spec(
            "S"@ + decimal2(season_index as nat) + "E"@ + decimal2(index as nat) + " "@ + title + "."@
                + extension,
        ),
    )
}

fn titled_exec(title: &str, year: u32) -> (r: String)
    ensures
        r@ == titled(title@, year),
{
    let mut s = String::new();
    push_named(&mut s, title, year);
    proof {
        assert(s@ =~= titled(title@, year));
    }
    s
}

/// Where a movie, or the thumbnail of a show, is stored, as `titled_file_spec`
/// says.
pub fn titled_file(library: &str, title: &str, year: u32, extension: &str) -> (r: String)
    ensures
        r@ == titled_file_spec(library@, title@, year, extension@),
{
    let named = titled_exec(title, year);
    let mut file = named.clone();
    push_str(&mut file, ".");
    push_str(&mut file, extension);
    let mut path = safe(library);
    join(&mut path, safe(named.as_str()).as_str());
    join(&mut path, safe(file.as_str()).as_str());
    path
}

/// Where an episode is stored, as `episode_file_spec` says.
pub fn episode_file(
    library: &str,
    show_title: &str,
    show_year: u32,
    season_index: u32,
    index: u32,
    title: &str,
    extension: &str,
) -> (r: String)
    ensures
        r@ == episode_file_spec(
            library@,
            show_title@,
            show_year,
            season_index,
            index,
            title@,
            extension@,
        ),
{
    let show = titled_exec(show_title, show_year);
    let mut file = String::new();
    push_str(&mut file, "S");
    push_decimal2(&mut file, season_index as u64);
    push_str(&mut file, "E");
    push_decimal2(&mut file, index as u64);
    push_str(&mut file, " ");
    push_str(&mut file, title);
    push_str(&mut file, ".");
    push_str(&mut file, extension);
    proof {
        assert(file@ =~= "S"@ + decimal2(season_index as nat) + "E"@ + decimal2(index as nat) + " "@
            + title@ + "."@ + extension@);
    }
    let mut path = safe(library);
    join(&mut path, safe(show.as_str()).as_str());
    join(&mut path, safe(file.as_str()).as_str());
    path
}

} // verus!
