use flick_sync::plex_out::{episode_file, titled_file, EpisodeState, MovieState};

#[test]
fn movie_prefixes() {
    let movie = MovieState::new("Up", "1", 2009);
    assert_eq!(movie.file_prefix, "1/Up (2009)/Up (2009)");
}

#[test]
fn episode_prefixes() {
    assert_eq!(
        EpisodeState::generate_prefix("2", "Show", 2001, 1, 9, "Pilot"),
        "2/Show (2001)/S01E09 - Pilot"
    );
    assert_eq!(
        EpisodeState::generate_prefix("2", "Show", 2001, 12, 100, "X"),
        "2/Show (2001)/S12E100 - X"
    );
}

#[test]
fn exported_file_paths() {
    assert_eq!(
        titled_file("Movies", "Alien: Resurrection", 1997, "mkv"),
        "Movies/Alien_ Resurrection (1997)/Alien_ Resurrection (1997).mkv"
    );
    assert_eq!(
        titled_file("TV", "Show", 2001, "jpg"),
        "TV/Show (2001)/Show (2001).jpg"
    );
    assert_eq!(
        episode_file("TV/Shows", "Show", 2001, 1, 12, "Pilot?", "mp4"),
        "TV_Shows/Show (2001)/S01E12 Pilot_.mp4"
    );
    assert_eq!(titled_file("", "X", 1, "a"), "X (1)/X (1).a");
}
