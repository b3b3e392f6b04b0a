use std::cmp::Ordering;

use flick_sync::profile::{
    builtin_profile_named, selection_order, transcode_choice, Constraint, H264Profile, Setting,
    TranscodeChoice, TranscodeProfile,
};

fn profile(bitrate: Option<u32>, dimensions: Option<(u32, u32)>) -> TranscodeProfile {
    TranscodeProfile {
        bitrate,
        dimensions,
        containers: None,
        video_codecs: None,
        audio_codecs: None,
        audio_channels: None,
        h264_profiles: None,
        h264_level: None,
    }
}

#[test]
fn default_options() {
    let options = profile(None, None).options();
    assert_eq!(options.bitrate, 2000);
    assert_eq!((options.width, options.height), (1280, 720));
    assert!(options.burn_subtitles);
    assert_eq!(options.containers, vec!["mp4".to_string()]);
    assert_eq!(options.video_codecs, vec!["h264".to_string()]);
    assert_eq!(options.audio_codecs, vec!["aac".to_string(), "mp3".to_string()]);
    assert!(options.audio_limitations.is_empty());
    assert!(options.video_limitations.is_empty());
    assert_eq!(options.container_limitations.len(), 1);
    let limit = &options.container_limitations[0];
    assert_eq!(limit.target.as_deref(), Some("mp4"));
    assert_eq!(limit.setting, Setting::OptimizedForStreaming);
    assert!(matches!(&limit.constraint, Constraint::Match(m) if m == "1"));
    assert!(limit.is_required);
}

#[test]
fn profile_limits() {
    let mut p = profile(Some(4000), Some((1280, 720)));
    p.audio_channels = Some(2);
    p.h264_profiles = Some(vec![H264Profile::Main, H264Profile::High]);
    p.h264_level = Some("51".to_string());
    let options = p.options();
    assert_eq!(options.bitrate, 4000);
    assert!(matches!(&options.audio_limitations[0].constraint, Constraint::Max(m) if m == "2"));
    assert_eq!(options.video_limitations.len(), 2);
    assert!(matches!(&options.video_limitations[0].constraint,
        Constraint::MatchList(names) if names == &vec!["main".to_string(), "high".to_string()]));
    assert_eq!(options.video_limitations[1].setting, Setting::VideoLevel);
}

#[test]
fn built_in_profiles() {
    assert!(matches!(builtin_profile_named("original"), Some(None)));
    match builtin_profile_named("1080p") {
        Some(Some(p)) => {
            assert_eq!(p.bitrate, Some(10000));
            assert_eq!(p.dimensions, Some((1920, 1080)));
            assert_eq!(p.h264_level.as_deref(), Some("51"));
        }
        _ => panic!("expected a profile"),
    }
    assert!(builtin_profile_named("4k").is_none());
    assert!(matches!(transcode_choice(None, "original"), TranscodeChoice::Original));
    assert!(matches!(transcode_choice(None, "unknown"), TranscodeChoice::LibraryDefaults));
    assert!(matches!(transcode_choice(None, "720p"), TranscodeChoice::Options(ref o) if o.bitrate == 4000));
    let custom = profile(Some(500), None);
    assert!(matches!(transcode_choice(Some(&custom), "original"), TranscodeChoice::Options(ref o) if o.bitrate == 500));
}

#[test]
fn profiles_compare_by_bitrate_then_area() {
    let low = profile(Some(1000), Some((1920, 1080)));
    let high = profile(Some(2000), Some((640, 480)));
    assert_eq!(low.partial_cmp(&high), Some(Ordering::Less));
    let small = profile(Some(1000), Some((640, 480)));
    assert_eq!(low.partial_cmp(&small), Some(Ordering::Greater));
    assert_eq!(profile(Some(1000), None).partial_cmp(&profile(Some(1000), None)), Some(Ordering::Equal));
    assert_eq!(profile(None, None).partial_cmp(&profile(Some(1000), None)), None);
}

#[test]
fn original_is_selected_first_then_better_profiles() {
    let p720 = profile(Some(4000), Some((1280, 720)));
    let p1080 = profile(Some(10000), Some((1920, 1080)));
    assert_eq!(selection_order("original", None, "720p", Some(&p720)), Ordering::Less);
    assert_eq!(selection_order("720p", Some(&p720), "original", None), Ordering::Greater);
    assert_eq!(selection_order("1080p", Some(&p1080), "720p", Some(&p720)), Ordering::Less);
    let same = profile(Some(4000), Some((1280, 720)));
    assert_eq!(selection_order("a", Some(&p720), "b", Some(&same)), Ordering::Less);
    let mut names = vec![("720p", Some(&p720)), ("original", None), ("1080p", Some(&p1080))];
    names.sort_unstable_by(|a, b| selection_order(a.0, a.1, b.0, b.1));
    assert_eq!(names[0].0, "original");
    assert_eq!(names[1].0, "1080p");
}
