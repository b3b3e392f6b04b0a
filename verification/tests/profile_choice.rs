use flick_sync::profile::TranscodeProfile;
use flick_sync::profile_choice::{select_profile, NamedProfile};

fn named(name: &str, bitrate: Option<u32>, dimensions: Option<(u32, u32)>) -> NamedProfile {
    NamedProfile {
        name: name.to_string(),
        profile: TranscodeProfile {
            bitrate,
            dimensions,
            containers: None,
            video_codecs: None,
            audio_codecs: None,
            audio_channels: None,
            h264_profiles: None,
            h264_level: None,
        },
    }
}

fn names(list: &[&str]) -> Vec<String> {
    list.iter().map(|s| s.to_string()).collect()
}

#[test]
fn original_wins_over_transcodes() {
    let configured = Vec::new();
    assert_eq!(
        select_profile(&configured, &names(&["720p", "original", "1080p"])),
        Some("original".to_string())
    );
}

#[test]
fn better_profiles_win() {
    let configured = vec![named("small", Some(1000), Some((640, 360)))];
    assert_eq!(
        select_profile(&configured, &names(&["small", "720p", "1080p"])),
        Some("1080p".to_string())
    );
    assert_eq!(
        select_profile(&configured, &names(&["small", "720p"])),
        Some("720p".to_string())
    );
}

#[test]
fn configured_profiles_shadow_built_in_ones() {
    let configured = vec![named("1080p", Some(500), None)];
    assert_eq!(
        select_profile(&configured, &names(&["1080p", "720p"])),
        Some("720p".to_string())
    );
}

#[test]
fn unknown_names_are_skipped() {
    let configured = Vec::new();
    assert_eq!(select_profile(&configured, &names(&["nope"])), None);
    assert_eq!(select_profile(&configured, &names(&[])), None);
    assert_eq!(
        select_profile(&configured, &names(&["nope", "720p"])),
        Some("720p".to_string())
    );
}

#[test]
fn equal_profiles_go_by_name() {
    let configured = vec![named("b", Some(1000), None), named("a", Some(1000), None)];
    assert_eq!(select_profile(&configured, &names(&["b", "a"])), Some("a".to_string()));
}
