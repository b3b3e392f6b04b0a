//! Which video follows another: the next episode of a show, and the next movie of
//! a collection.
use vstd::prelude::*;

use crate::text::{chars_eq, to_chars};

verus! {

// ---------------------------------------------------------------------------
// Episodes
// ---------------------------------------------------------------------------

/// Where the episode after another is found.
#[derive(Debug, Clone, Copy, PartialEq, Eq, Structural)]
pub enum NextEpisode {
    /// At this position among its season's episodes, sorted by index.
    InSeason(usize),
    /// First among the episodes of the season at this position among the show's
    /// seasons, sorted by index; there is none when that season has no episodes.
    FirstOfSeason(usize),
    /// There is no next episode.
    Last,
}

/// The episode after the one with index `episode_index` is at position
/// `episode_index + 1` of its season's episodes; past the end, the first
/// episode of the season at position `season_index + 1` of the show's seasons.
pub fn next_episode(season_episodes: usize, episode_index: usize, show_seasons: usize, season_index: usize) -> (r:
    NextEpisode)
    ensures
        r == (if episode_index + 1 < season_episodes {
            NextEpisode::InSeason((episode_index + 1) as usize)
        } else if season_index + 1 < show_seasons {
            NextEpisode::FirstOfSeason((season_index + 1) as usize)
        } else {
            NextEpisode::Last
        }),
{
    if season_episodes > 0 && episode_index < season_episodes - 1 {
        NextEpisode::InSeason(episode_index + 1)
    } else if show_seasons > 0 && season_index < show_seasons - 1 {
        NextEpisode::FirstOfSeason(season_index + 1)
    } else {
        NextEpisode::Last
    }
}

// ---------------------------------------------------------------------------
// Movies
// ---------------------------------------------------------------------------

/// A movie of a collection: its id and the day it was first shown, counted in
/// days.
pub struct MovieEntry {
    pub id: String,
    pub air_date: i64,
}

/// A movie that may follow the one with id `id` shown on day `date`: another
/// movie, shown no earlier.
pub open spec fn follows(e: MovieEntry, id: Seq<char>, date: i64) -> bool {
    e.id@ != id && e.air_date >= date
}

/// Among the first `n` movies of a collection, the position of the earliest shown
/// that may follow; of those shown the same day, the last.
pub open spec fn earliest_following(col: Seq<MovieEntry>, id: Seq<char>, date: i64, n: int) -> Option<
    int,
>
    decreases n,
{
    if n <= 0 {
        None
    } else {
        let prev = earliest_following(col, id, date, n - 1);
        if !follows(col[n - 1], id, date) {
            prev
        } else {
            match prev {
                Some(k) => if col[k].air_date < col[n - 1].air_date {
                    Some(k)
                } else {
                    Some(n - 1)
                },
                None => Some(n - 1),
            }
        }
    }
}

/// The collection holds the movie with id `id`.
pub open spec fn holds(col: Seq<MovieEntry>, id: Seq<char>) -> bool {
    exists|i: int| 0 <= i < col.len() && #[trigger] col[i].id@ == id
}

/// The next movie after the one with id `id` shown on day `date`, looking at the
/// collections from position `c` on: in the first collection that holds it and
/// has a movie that may follow, the earliest shown such movie.
pub open spec fn next_movie_spec(
    cols: Seq<Seq<MovieEntry>>,
    id: Seq<char>,
    date: i64,
    c: int,
) -> Option<(int, int)>
    decreases cols.len() - c,
{
    if c < 0 || c >= cols.len() {
        None
    } else if holds(cols[c], id) && earliest_following(cols[c], id, date, cols[c].len() as int)
        is Some {
        Some((c, earliest_following(cols[c], id, date, cols[c].len() as int)->0))
    } else {
        next_movie_spec(cols, id, date, c + 1)
    }
}

/// The movies of each collection.
pub open spec fn collections_view(cols: Seq<Vec<MovieEntry>>) -> Seq<Seq<MovieEntry>> {
    cols.map_values(|c: Vec<MovieEntry>| c@)
}

fn same_id(a: &str, b: &str) -> (r: bool)
    ensures
        r == (a@ == b@),
{
    let x = to_chars(a);
    let y = to_chars(b);
    chars_eq(x.as_slice(), y.as_slice())
}

fn holds_exec(col: &Vec<MovieEntry>, id: &str) -> (r: bool)
    ensures
        r == holds(col@, id@),
{
    let mut i: usize = 0;
    while i < col.len()
        invariant
            i <= col.len(),
            forall|j: int| 0 <= j < i ==> #[trigger] col@[j].id@ != id@,
        decreases col.len() - i,
    {
        if same_id(col[i].id.as_str(), id) {
            proof {
                assert(col@[i as int].id@ == id@);
            }
            return true;
        }
        i = i + 1;
    }
    false
}

fn earliest_following_exec(col: &Vec<MovieEntry>, id: &str, date: i64) -> (r: Option<usize>)
    ensures
        match earliest_following(col@, id@, date, col.len() as int) {
            Some(k) => r == Some(k as usize),
            None => r is None,
        },
{
    let mut best: Option<usize> = None;
    let mut i: usize = 0;
    while i < col.len()
        invariant
            i <= col.len(),
            match earliest_following(col@, id@, date, i as int) {
                Some(k) => best == Some(k as usize),
                None => best is None,
            },
            best matches Some(k) ==> k < i,
        decreases col.len() - i,
    {
        let e = &col[i];
        proof {
            lemma_earliest_following(col@, id@, date, i as int);
            lemma_earliest_following(col@, id@, date, i + 1);
            assert(*e == col@[i as int]);
            assert(earliest_following(col@, id@, date, i + 1) == {
                let prev = earliest_following(col@, id@, date, i as int);
                if !follows(col@[i as int], id@, date) {
                    prev
                } else {
                    match prev {
                        Some(k) => if col@[k].air_date < col@[i as int].air_date {
                            Some(k)
                        } else {
                            Some(i as int)
                        },
                        None => Some(i as int),
                    }
                }
            });
        }
        if !same_id(e.id.as_str(), id) && e.air_date >= date {
            best = match best {
                Some(k) => if col[k].air_date < e.air_date {
                    Some(k)
                } else {
                    Some(i)
                },
                None => Some(i),
            };
        }
        i = i + 1;
    }
    best
}

/// The next movie after the one with id `id` shown on day `date`: its collection's
/// position and its position there, as `next_movie_spec` says.
pub fn next_movie(cols: &Vec<Vec<MovieEntry>>, id: &str, date: i64) -> (r: Option<(usize, usize)>)
    ensures
        match next_movie_spec(collections_view(cols@), id@, date, 0) {
            Some((c, k)) => r == Some((c as usize, k as usize)),
            None => r is None,
        },
{
    let mut c: usize = 0;
    while c < cols.len()
        invariant
            c <= cols.len(),
            next_movie_spec(collections_view(cols@), id@, date, 0) == next_movie_spec(
                collections_view(cols@),
                id@,
                date,
                c as int,
            ),
        decreases cols.len() - c,
    {
        proof {
            assert(collections_view(cols@)[c as int] == cols@[c as int]@);
        }
        if holds_exec(&cols[c], id) {
            match earliest_following_exec(&cols[c], id, date) {
                Some(k) => {
                    return Some((c, k));
                },
                None => {},
            }
        }
        c = c + 1;
    }
    None
}

/// The movie chosen in a collection may follow, and none that may follow was
/// shown earlier.
pub proof fn lemma_earliest_following(col: Seq<MovieEntry>, id: Seq<char>, date: i64, n: int)
    requires
        0 <= n <= col.len(),
    ensures
        match earliest_following(col, id, date, n) {
            Some(k) => 0 <= k < n && follows(col[k], id, date) && forall|j: int|
                0 <= j < n && follows(#[trigger] col[j], id, date) ==> col[k].air_date
                    <= col[j].air_date,
            None => forall|j: int| 0 <= j < n ==> !follows(#[trigger] col[j], id, date),
        },
    decreases n,
{
    if n > 0 {
        lemma_earliest_following(col, id, date, n - 1);
    }
}

/// The next movie is in the first collection, from `c0` on, that holds the movie
/// and has one that may follow it; it may follow it, and no movie there that may
/// follow it was shown earlier.
pub proof fn lemma_next_movie(cols: Seq<Seq<MovieEntry>>, id: Seq<char>, date: i64, c0: int)
    requires
        0 <= c0 <= cols.len(),
    ensures
        match next_movie_spec(cols, id, date, c0) {
            Some((c, k)) => c0 <= c < cols.len() && 0 <= k < cols[c].len() && holds(cols[c], id)
                && follows(cols[c][k], id, date) && (forall|j: int|
                0 <= j < cols[c].len() && follows(#[trigger] cols[c][j], id, date)
                    ==> cols[c][k].air_date <= cols[c][j].air_date) && forall|d: int, j: int|
                c0 <= d < c && holds(cols[d], id) && 0 <= j < cols[d].len() ==> !follows(
                    #[trigger] cols[d][j],
                    id,
                    date,
                ),
            None => forall|d: int, j: int|
                c0 <= d < cols.len() && holds(cols[d], id) && 0 <= j < cols[d].len() ==> !follows(
                    #[trigger] cols[d][j],
                    id,
                    date,
                ),
        },
    decreases cols.len() - c0,
{
    if c0 < cols.len() {
        lemma_earliest_following(cols[c0], id, date, cols[c0].len() as int);
        lemma_next_movie(cols, id, date, c0 + 1);
    }
}

} // verus!
