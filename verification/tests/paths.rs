use flick_sync::paths::{
    collection_path, episode_path, join, movie_path, playlist_path, show_path, FileType,
};
use flick_sync::state::OutputStyle;

#[test]
fn file_types_that_are_metadata() {
    assert!(!FileType::Video.is_metadata());
    assert!(FileType::Thumbnail.is_metadata());
    assert!(FileType::Metadata.is_metadata());
    assert!(FileType::Playlist.is_metadata());
}

#[test]
fn joins_path_components() {
    let mut p = String::new();
    join(&mut p, "a");
    assert_eq!(p, "a");
    join(&mut p, "b");
    assert_eq!(p, "a/b");
    let mut q = "dir/".to_string();
    join(&mut q, "file");
    assert_eq!(q, "dir/file");
}

#[test]
fn show_paths() {
    let s = OutputStyle::Standardized;
    let m = OutputStyle::Minimal;
    assert_eq!(
        show_path("srv", "12", s, FileType::Thumbnail, "jpg", "TV Shows", "Show: One", 2001).as_deref(),
        Some("srv/TV Shows/Show_ One (2001)/dvdcover.jpg")
    );
    assert_eq!(
        show_path("srv", "12", s, FileType::Metadata, "nfo", "TV", "Show", 2001).as_deref(),
        Some("srv/TV/Show (2001)/tvshow.nfo")
    );
    assert_eq!(
        show_path("srv", "12", m, FileType::Thumbnail, "jpg", "TV", "Show", 2001).as_deref(),
        Some("srv/.metadata/12.jpg")
    );
    assert_eq!(show_path("srv", "12", m, FileType::Metadata, "nfo", "TV", "Show", 2001), None);
    assert_eq!(show_path("srv", "12", s, FileType::Video, "mkv", "TV", "Show", 2001), None);
    assert_eq!(show_path("srv", "12", s, FileType::Playlist, "m3u", "TV", "Show", 2001), None);
}

#[test]
fn episode_paths() {
    let s = OutputStyle::Standardized;
    let m = OutputStyle::Minimal;
    assert_eq!(
        episode_path("srv", "7", s, FileType::Video, "mkv", 1, 2, "Pilot", "TV", "Show", 2001).as_deref(),
        Some("srv/TV/Show (2001)/S01E02 - Pilot.mkv")
    );
    assert_eq!(
        episode_path("srv", "7", m, FileType::Video, "mkv", 10, 12, "Pilot", "TV", "Show", 2001).as_deref(),
        Some("srv/TV/Show (2001)/S10E12 - Pilot.mkv")
    );
    assert_eq!(
        episode_path("srv", "7", m, FileType::Thumbnail, "jpg", 1, 2, "Pilot", "TV", "Show", 2001).as_deref(),
        Some("srv/.metadata/7.jpg")
    );
    assert_eq!(
        episode_path("srv", "7", s, FileType::Thumbnail, "jpg", 1, 2, "Pilot", "TV", "Show", 2001).as_deref(),
        Some("srv/TV/Show (2001)/S01E02 - Pilot.jpg")
    );
    assert_eq!(episode_path("srv", "7", m, FileType::Metadata, "nfo", 1, 2, "P", "TV", "S", 2001), None);
    assert_eq!(episode_path("srv", "7", s, FileType::Playlist, "m3u", 1, 2, "P", "TV", "S", 2001), None);
}

#[test]
fn movie_paths() {
    let s = OutputStyle::Standardized;
    let m = OutputStyle::Minimal;
    assert_eq!(
        movie_path("srv", "9", s, FileType::Video, "mp4", "Film", 1999, 1, "Movies").as_deref(),
        Some("srv/Movies/Film (1999)/Film (1999).mp4")
    );
    assert_eq!(
        movie_path("srv", "9", m, FileType::Video, "mp4", "Film", 1999, 1, "Movies").as_deref(),
        Some("srv/Movies/Film (1999).mp4")
    );
    assert_eq!(
        movie_path("srv", "9", s, FileType::Thumbnail, "jpg", "Film", 1999, 2, "Movies").as_deref(),
        Some("srv/Movies/Film (1999)/movie.jpg")
    );
    assert_eq!(
        movie_path("srv", "9", s, FileType::Metadata, "nfo", "Film", 1999, 1, "Movies").as_deref(),
        Some("srv/Movies/Film (1999)/Film (1999).nfo")
    );
    assert_eq!(
        movie_path("srv", "9", m, FileType::Thumbnail, "jpg", "Film", 1999, 1, "Movies").as_deref(),
        Some("srv/.metadata/9.jpg")
    );
    assert_eq!(movie_path("srv", "9", m, FileType::Metadata, "nfo", "Film", 1999, 1, "Movies"), None);
    assert_eq!(movie_path("srv", "9", s, FileType::Playlist, "m3u", "Film", 1999, 1, "Movies"), None);
}

#[test]
fn playlist_and_collection_paths() {
    let s = OutputStyle::Standardized;
    let m = OutputStyle::Minimal;
    assert_eq!(
        collection_path("srv", "3", s, FileType::Playlist, "m3u", "Best/Of", "Movies").as_deref(),
        Some("srv/Movies/Collections/Best_Of.m3u")
    );
    assert_eq!(
        collection_path("srv", "3", m, FileType::Thumbnail, "jpg", "Best", "Movies").as_deref(),
        Some("srv/.metadata/3.jpg")
    );
    assert_eq!(collection_path("srv", "3", m, FileType::Playlist, "m3u", "Best", "Movies"), None);
    assert_eq!(collection_path("srv", "3", s, FileType::Video, "mkv", "Best", "Movies"), None);
    assert!(playlist_path("srv", "4", s, FileType::Video, "mkv", "Mix").is_none());
    assert_eq!(
        playlist_path("srv", "4", s, FileType::Playlist, "m3u", "Mix").as_deref(),
        Some("srv/Playlists/Mix.m3u")
    );
    assert_eq!(
        playlist_path("srv", "4", m, FileType::Thumbnail, "jpg", "Mix").as_deref(),
        Some("srv/.metadata/4.jpg")
    );
}
