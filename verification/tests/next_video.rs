use flick_sync::next_video::{next_episode, next_movie, MovieEntry, NextEpisode};

fn movie(id: &str, air_date: i64) -> MovieEntry {
    MovieEntry { id: id.to_string(), air_date }
}

#[test]
fn next_episodes() {
    assert_eq!(next_episode(10, 3, 2, 1), NextEpisode::InSeason(4));
    assert_eq!(next_episode(10, 9, 3, 1), NextEpisode::FirstOfSeason(2));
    assert_eq!(next_episode(10, 9, 2, 1), NextEpisode::Last);
    assert_eq!(next_episode(0, 0, 0, 0), NextEpisode::Last);
}

#[test]
fn next_movies() {
    let cols = vec![
        vec![movie("a", 1), movie("b", 5)],
        vec![movie("x", 10), movie("m", 20), movie("y", 40), movie("z", 30), movie("w", 30)],
        vec![movie("m", 20), movie("q", 25)],
    ];
    // The first collection does not hold the movie; in the second the earliest
    // shown after it is on day 30, and of the two the later listed wins.
    assert_eq!(next_movie(&cols, "m", 20), Some((1, 4)));
    // Nothing follows the last movie of the only collection holding it.
    assert_eq!(next_movie(&cols, "b", 5), None);
    // A collection with nothing to follow is passed over.
    let cols = vec![vec![movie("m", 20), movie("old", 1)], vec![movie("m", 20), movie("n", 20)]];
    assert_eq!(next_movie(&cols, "m", 20), Some((1, 1)));
}
