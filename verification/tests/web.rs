use flick_sync::state::PlaybackState;
use flick_sync::web::{
    event_text, idle_markup, is_logged, progress_key, resource_type, response_log,
    should_report, stream_url, syncing_markup, thumbnail_kind, title_order, url_base, Event,
    LogLevel, ProgressBar, ResourceType, ResponseLog, SyncLogItem, SyncLogMessage, SyncStatus,
    Thumbnail, ThumbnailKind, LOG_LIMIT,
};
use std::cmp::Ordering;

#[test]
fn log_messages() {
    let m = SyncLogMessage::SyncStarted("Home".to_string());
    assert_eq!(m.entry(), (LogLevel::Info, "Syncing started for Home.".to_string()));
    let m = SyncLogMessage::SyncFailed("Home".to_string(), "timed out".to_string());
    assert_eq!(m.entry(), (LogLevel::Error, "Syncing failed for Home: timed out".to_string()));
    let m = SyncLogMessage::SyncFinished("Home".to_string(), true);
    assert_eq!(m.entry(), (LogLevel::Success, "Syncing finished for Home.".to_string()));
    let m = SyncLogMessage::SyncFinished("Home".to_string(), false);
    assert_eq!(
        m.entry(),
        (LogLevel::Success, "Syncing finished for Home, some items were not fully synced.".to_string())
    );
    let m = SyncLogMessage::DownloadStarted("Film".to_string());
    assert_eq!(m.entry(), (LogLevel::Info, "Download started for Film.".to_string()));
    let m = SyncLogMessage::DownloadComplete("Film".to_string());
    assert_eq!(m.entry(), (LogLevel::Success, "Download complete for Film.".to_string()));
    let m = SyncLogMessage::DownloadFailed("Film".to_string(), "gone".to_string());
    assert_eq!(m.entry(), (LogLevel::Error, "Download failed for Film: gone".to_string()));
    let m = SyncLogMessage::TranscodeStarted("Film".to_string());
    assert_eq!(m.entry(), (LogLevel::Info, "Transcode started for Film.".to_string()));
    let m = SyncLogMessage::TranscodeComplete("Film".to_string());
    assert_eq!(m.entry(), (LogLevel::Success, "Transcode complete for Film.".to_string()));
    let m = SyncLogMessage::TranscodeFailed("Film".to_string(), "bad".to_string());
    assert_eq!(m.entry(), (LogLevel::Error, "Transcode failed for Film: bad".to_string()));
    assert_eq!(LogLevel::Info.as_str(), "info");
    assert_eq!(LogLevel::Error.as_str(), "error");
    assert_eq!(LogLevel::Success.as_str(), "success");
}

fn item(n: u32) -> SyncLogItem {
    SyncLogItem {
        timestamp: format!("2024-01-01T00:00:{:02}Z", n % 60),
        message: SyncLogMessage::SyncStarted(format!("server {n}")),
    }
}

#[test]
fn log_keeps_newest_entries() {
    let mut status = SyncStatus::new();
    for n in 0..25 {
        status.push_log(item(n));
    }
    assert_eq!(status.log.len(), LOG_LIMIT);
    assert_eq!(status.log[0], item(5));
    assert_eq!(status.log[LOG_LIMIT - 1], item(24));
}

#[test]
fn progress_bars_read_back() {
    let mut status = SyncStatus::new();
    status.add_progress(ProgressBar::started("1".to_string(), true, "One".to_string()));
    status.add_progress(ProgressBar::started("1".to_string(), false, "One".to_string()));
    status.add_progress(ProgressBar::started("2".to_string(), true, "Two".to_string()));
    assert_eq!(status.bars.len(), 3);
    assert_eq!(status.bars[1].length, Some(100));
    assert_eq!(status.bars[0].length, None);
    let shown = status.visible_bars();
    assert_eq!(shown.len(), 1);
    assert_eq!(shown[0].video_id, "1");
    assert!(!shown[0].is_download);

    assert!(status.update_length("1", true, 5000));
    assert!(status.update_progress("1", true, 2500));
    assert_eq!(status.bars[0].length, Some(5000));
    assert_eq!(status.bars[0].position, 2500);
    assert_eq!(status.visible_bars().len(), 2);
    assert!(!status.update_progress("3", true, 1));

    let mut again = ProgressBar::started("2".to_string(), true, "Two again".to_string());
    again.position = 7;
    status.add_progress(again);
    assert_eq!(status.bars.len(), 3);
    assert_eq!(status.bars[2].title, "Two again");

    assert!(status.remove_progress("1", false));
    assert!(!status.remove_progress("1", false));
    assert_eq!(status.bars.len(), 2);
    assert_eq!(status.bars[1].video_id, "2");
}

#[test]
fn progress_reporting() {
    assert!(!should_report(Some(100), 3, 3));
    assert!(should_report(Some(100), 3, 4));
    assert!(!should_report(Some(1000), 10, 19));
    assert!(should_report(Some(1000), 10, 20));
    assert!(!should_report(None, 0, 1024 * 1024));
    assert!(should_report(None, 0, 1024 * 1024 + 1));
    assert!(should_report(None, 3 * 1024 * 1024, 1024 * 1024 - 1));
    assert_eq!(progress_key("55", true), "55:D");
    assert_eq!(progress_key("55", false), "55:T");
}

#[test]
fn thumbnails() {
    let t = Thumbnail::season("srv", "lib", "s1", "sh", "Season 1".to_string());
    assert_eq!(t.url, "/library/srv/lib/season/s1");
    assert_eq!(t.image, "/thumbnail/srv/show/sh");
    assert_eq!(t.id, "s1");
    let t = Thumbnail::show("srv", "lib", "sh", "Show".to_string());
    assert_eq!(t.url, "/library/srv/lib/show/sh");
    assert_eq!(t.image, "/thumbnail/srv/show/sh");
    let t = Thumbnail::collection("srv", "lib", "c", "Coll".to_string());
    assert_eq!(t.url, "/library/srv/lib/collection/c");
    assert_eq!(t.image, "/thumbnail/srv/collection/c");
    let t = Thumbnail::video("srv", "lib", "v", "Film".to_string(), PlaybackState::Played, 9000);
    assert_eq!(t.url, "/library/srv/lib/video/v");
    assert_eq!(t.image, "/thumbnail/srv/video/v");
    assert_eq!(t.position, Some(9000));
    assert_eq!(t.duration, Some(9000));
    let t = Thumbnail::video("srv", "lib", "v", "Film".to_string(), PlaybackState::InProgress { position: 40 }, 9000);
    assert_eq!(t.position, Some(40));
    let t = Thumbnail::video("srv", "lib", "v", "Film".to_string(), PlaybackState::Unplayed, 9000);
    assert_eq!(t.position, Some(0));
    assert_eq!(title_order("The Zoo", "a bird"), Ordering::Greater);
    assert_eq!(title_order("The Bird", "bird"), Ordering::Equal);
    assert_eq!(title_order("Apple", "banana"), Ordering::Less);
}

#[test]
fn events() {
    assert_eq!(Event::SyncStart.event_name(), "sync-status");
    assert_eq!(Event::SyncEnd.event_name(), "sync-status");
    assert_eq!(Event::SyncChange.event_name(), "sync-change");
    assert_eq!(Event::Progress(Vec::new()).event_name(), "sync-progress");
    assert_eq!(Event::Log(item(1)).event_name(), "sync-log");
    let t = Thumbnail::show("srv", "lib", "sh", "Show".to_string());
    assert_eq!(Event::ThumbnailUpdate(t).event_name(), "thumbnail-sh");
    assert_eq!(Event::SyncStart.status_markup(), Some(syncing_markup()));
    assert_eq!(Event::SyncEnd.status_markup(), Some(idle_markup()));
    assert_eq!(Event::SyncChange.status_markup(), None);
    assert!(syncing_markup().ends_with("Syncing"));
    assert!(idle_markup().ends_with("Status"));
    assert_eq!(event_text("sync-log", "  <p>a</p>\n<p>b</p>\n "), "event: sync-log\ndata: <p>a</p>\ndata: <p>b</p>\n\n");
    assert_eq!(event_text("x", ""), "event: x\ndata: \n\n");
}

#[test]
fn requests_and_pages() {
    assert!(!is_logged("/upnp/device.xml"));
    assert!(is_logged("/sync"));
    assert_eq!(response_log(503), ResponseLog::ServerFailure);
    assert_eq!(response_log(404), ResponseLog::BadRequest);
    assert_eq!(response_log(200), ResponseLog::Trace);
    assert_eq!(url_base(Some(("10.0.0.2", "10.0.0.2:443", 443))), "http://10.0.0.2/");
    assert_eq!(url_base(Some(("10.0.0.2", "10.0.0.2:8080", 8080))), "http://10.0.0.2:8080/");
    assert_eq!(url_base(None), "");
    assert_eq!(stream_url("http://h/", "srv", "v", 2), "http://h/stream/srv/v/2");
    assert_eq!(resource_type("js/app.min.js"), ResourceType::JavaScript);
    assert_eq!(resource_type("style.css"), ResourceType::Css);
    assert_eq!(resource_type("icons/a.svg"), ResourceType::Svg);
    assert_eq!(resource_type("font.woff2"), ResourceType::Binary);
    assert_eq!(resource_type("README"), ResourceType::Binary);
    assert_eq!(thumbnail_kind("video"), Some(ThumbnailKind::Video));
    assert_eq!(thumbnail_kind("show"), Some(ThumbnailKind::Show));
    assert_eq!(thumbnail_kind("playlist"), Some(ThumbnailKind::Playlist));
    assert_eq!(thumbnail_kind("collection"), Some(ThumbnailKind::Collection));
    assert_eq!(thumbnail_kind("season"), None);
}

#[test]
fn thumbnails_sorted_by_name() {
    let sorted = flick_sync::title_sort::sort_by_title(vec![
        Thumbnail::show("srv", "lib", "z", "The Zoo".to_string()),
        Thumbnail::show("srv", "lib", "b1", "Bird".to_string()),
        Thumbnail::show("srv", "lib", "a", "an Apple".to_string()),
        Thumbnail::show("srv", "lib", "b2", "a bird".to_string()),
    ]);
    let ids: Vec<&str> = sorted.iter().map(|t| t.id.as_str()).collect();
    assert_eq!(ids, vec!["a", "b1", "b2", "z"]);
}
