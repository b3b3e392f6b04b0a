use flick_sync::state::{
    parts_plan, playback_sync, video_stats, DownloadJob, DownloadState, DownloadStep, FileCheck, FileVerdict, OutputStyle,
    PartFacts, PartIdentity, PartsPlan, PlaybackState, PlaybackSync, RelatedFileState, ServerPart,
    TranscodeCheck, TransferState, VerifyStart, VideoStats,
};

#[test]
fn output_styles() {
    assert!(OutputStyle::Minimal.is_default());
    assert!(!OutputStyle::Standardized.is_default());
    assert_eq!(OutputStyle::from_name("standardized"), Some(OutputStyle::Standardized));
    assert_eq!(OutputStyle::from_name("minimal"), Some(OutputStyle::Minimal));
    assert_eq!(OutputStyle::from_name("other"), None);
}

#[test]
fn playback_state_from_server_metadata() {
    assert_eq!(PlaybackState::from_metadata(Some(5), Some(1)), PlaybackState::InProgress { position: 5 });
    assert_eq!(PlaybackState::from_metadata(None, Some(1)), PlaybackState::Played);
    assert_eq!(PlaybackState::from_metadata(None, None), PlaybackState::Unplayed);
}

#[test]
fn playback_reconciliation() {
    let t = Some(1_000i128);
    assert_eq!(
        playback_sync(PlaybackState::InProgress { position: 7 }, t, PlaybackState::Unplayed, t),
        PlaybackSync::PushPosition { position: 7 }
    );
    assert_eq!(
        playback_sync(PlaybackState::Played, t, PlaybackState::Unplayed, t),
        PlaybackSync::MarkWatched
    );
    assert_eq!(
        playback_sync(PlaybackState::Unplayed, t, PlaybackState::Played, t),
        PlaybackSync::Keep
    );
    assert_eq!(
        playback_sync(PlaybackState::Played, t, PlaybackState::Played, t),
        PlaybackSync::Keep
    );
    assert_eq!(
        playback_sync(PlaybackState::Played, t, PlaybackState::Unplayed, Some(2_000)),
        PlaybackSync::TakeServer
    );
    assert_eq!(
        playback_sync(PlaybackState::Unplayed, Some(2_000), PlaybackState::Unplayed, Some(2_000)),
        PlaybackSync::Keep
    );
}

#[test]
fn related_files() {
    let stored = RelatedFileState::Stored { updated: 10, path: "a/thumb.jpg".to_string() };
    assert_eq!(stored.path().as_deref(), Some("a/thumb.jpg"));
    assert!(stored.needs_update(11));
    assert!(!stored.needs_update(10));
    assert!(RelatedFileState::Empty.needs_update(0));
    assert!(RelatedFileState::Empty.is_none());
    assert!(RelatedFileState::Empty.path().is_none());
}

#[test]
fn download_states() {
    let downloaded = DownloadState::Downloaded { path: "v.mkv".to_string() };
    assert!(!downloaded.needs_download());
    assert_eq!(downloaded.transfer_state(), TransferState::Downloaded);
    let transcoding = DownloadState::Transcoding { session_id: "s".to_string() };
    assert!(transcoding.needs_download());
    assert!(transcoding.path().is_none());
    assert_eq!(transcoding.transfer_state(), TransferState::Transcoding);
    assert_eq!(DownloadState::Empty.transfer_state(), TransferState::Waiting);
    let both = DownloadState::TranscodeDownloading { session_id: "s".to_string(), path: "p".to_string() };
    assert_eq!(both.transfer_state(), TransferState::Downloaded);
    assert_eq!(both.path().as_deref(), Some("p"));
}

#[test]
fn transcode_checks() {
    let state = DownloadState::Transcoding { session_id: "s".to_string() };
    match state.after_transcode_check("s", TranscodeCheck::Complete { path: "out.mp4".to_string() }) {
        DownloadState::TranscodeDownloading { session_id, path } => {
            assert_eq!(session_id, "s");
            assert_eq!(path, "out.mp4");
        }
        _ => panic!("expected a download"),
    }
    let state = DownloadState::Transcoding { session_id: "s".to_string() };
    assert!(matches!(state.after_transcode_check("s", TranscodeCheck::Failed), DownloadState::Empty));
    let state = DownloadState::TranscodeDownloading { session_id: "s".to_string(), path: "p".to_string() };
    assert!(matches!(
        state.after_transcode_check("s", TranscodeCheck::Running),
        DownloadState::Transcoding { .. }
    ));
    let state = DownloadState::Transcoding { session_id: "s".to_string() };
    assert!(matches!(state.after_transcode_check("s", TranscodeCheck::Missing), DownloadState::Empty));
}

#[test]
fn delete_plans() {
    let plan = DownloadState::Transcoding { session_id: "s".to_string() }.delete_plan();
    assert_eq!(plan.cancel_session.as_deref(), Some("s"));
    assert!(plan.remove_path.is_none());
    assert!(!plan.forget);
    let plan = DownloadState::Downloaded { path: "p".to_string() }.delete_plan();
    assert!(plan.cancel_session.is_none());
    assert_eq!(plan.remove_path.as_deref(), Some("p"));
    assert!(plan.forget);
    let moved = DownloadState::Transcoded { path: "old".to_string() }.relocated("new".to_string());
    assert!(matches!(moved, DownloadState::Transcoded { ref path } if path == "new"));
}

#[test]
fn statistics() {
    let parts = vec![
        PartFacts { duration: 1000, remote_size: 50, local_size: Some(40) },
        PartFacts { duration: 2000, remote_size: 70, local_size: None },
    ];
    let stats = video_stats(false, &parts);
    assert_eq!(stats.local_videos, 1);
    assert_eq!(stats.remote_videos, 2);
    assert_eq!(stats.local_bytes, 40);
    assert_eq!(stats.remote_bytes, 110);
    assert_eq!(stats.local_duration, 3000);
    assert_eq!(stats.remote_duration, 3000);
    let pending = video_stats(true, &parts);
    assert_eq!(pending.local_videos, 0);
    assert_eq!(pending.local_duration, 0);
    let sum = stats.add(pending);
    assert_eq!(sum.remote_videos, 4);
    assert_eq!(sum, pending.add(stats));
    let mut total = VideoStats::new();
    total.add_assign(stats);
    assert_eq!(total, stats);
}

fn stored(id: &str, size: u64) -> PartIdentity {
    PartIdentity { id: id.to_string(), key: format!("/parts/{id}"), size, duration: 1000 }
}

fn described(id: &str, size: u64) -> ServerPart {
    ServerPart {
        id: Some(id.to_string()),
        key: Some(format!("/parts/{id}")),
        size: Some(size),
        duration: Some(1000),
    }
}

#[test]
fn changed_parts_lose_their_downloads() {
    let parts = vec![stored("1", 10), stored("2", 20), stored("3", 30)];
    match parts_plan(&parts, &vec![described("1", 10), described("2", 25), described("3", 30)]) {
        PartsPlan::Replace(v) => assert_eq!(v, vec![1]),
        PartsPlan::ReplaceAll => panic!("expected some parts replaced"),
    }
    let mut missing = described("3", 30);
    missing.duration = None;
    match parts_plan(&parts, &vec![described("9", 10), described("2", 20), missing]) {
        PartsPlan::Replace(v) => assert_eq!(v, vec![0, 2]),
        PartsPlan::ReplaceAll => panic!("expected some parts replaced"),
    }
    match parts_plan(&parts, &vec![described("1", 10), described("2", 20), described("3", 30)]) {
        PartsPlan::Replace(v) => assert!(v.is_empty()),
        PartsPlan::ReplaceAll => panic!("expected nothing replaced"),
    }
    assert!(matches!(parts_plan(&parts, &vec![described("1", 10)]), PartsPlan::ReplaceAll));
}

#[test]
fn checking_downloads() {
    let done = DownloadState::Downloaded { path: "srv/a.mkv".to_string() };
    assert!(matches!(done.verify_start(), VerifyStart::CheckFile));
    assert!(matches!(DownloadState::Empty.verify_start(), VerifyStart::Nothing));
    let busy = DownloadState::Downloading { path: "srv/a.mkv".to_string() };
    assert!(matches!(busy.verify_start(), VerifyStart::Nothing));
    match (DownloadState::Transcoding { session_id: "s1".to_string() }).verify_start() {
        VerifyStart::CheckTranscode { session_id } => assert_eq!(session_id, "s1"),
        _ => panic!("expected a transcode check"),
    }

    assert!(matches!(done.file_verdict(FileCheck::Present, "srv/a.mkv"), FileVerdict::Keep));
    assert!(matches!(done.file_verdict(FileCheck::Missing, "srv/a.mkv"), FileVerdict::Forget));
    assert!(matches!(
        done.file_verdict(FileCheck::NotAFile, "srv/a.mkv"),
        FileVerdict::RemoveAndForget
    ));
    assert!(matches!(done.file_verdict(FileCheck::Unreadable, "srv/b.mkv"), FileVerdict::Keep));
    match done.file_verdict(FileCheck::Present, "srv/b.mkv") {
        FileVerdict::Move { to } => assert_eq!(to, "srv/b.mkv"),
        _ => panic!("expected a move"),
    }
    let waiting = DownloadState::Transcoding { session_id: "s1".to_string() };
    assert!(matches!(waiting.file_verdict(FileCheck::Missing, "x"), FileVerdict::Keep));
}

#[test]
fn checking_related_files() {
    let thumb = RelatedFileState::Stored { updated: 5, path: "srv/t.jpg".to_string() };
    assert!(matches!(thumb.file_verdict(FileCheck::Present, "srv/t.jpg"), FileVerdict::Keep));
    assert!(matches!(thumb.file_verdict(FileCheck::Missing, "srv/t.jpg"), FileVerdict::Forget));
    match thumb.file_verdict(FileCheck::Present, "srv/new/t.jpg") {
        FileVerdict::Move { to } => assert_eq!(to, "srv/new/t.jpg"),
        _ => panic!("expected a move"),
    }
    assert!(matches!(
        RelatedFileState::Empty.file_verdict(FileCheck::NotAFile, "x"),
        FileVerdict::Keep
    ));
    match thumb.moved_to("srv/new/t.jpg".to_string()) {
        RelatedFileState::Stored { updated, path } => {
            assert_eq!(updated, 5);
            assert_eq!(path, "srv/new/t.jpg");
        }
        RelatedFileState::Empty => panic!("expected a stored file"),
    }
}

#[test]
fn download_jobs_by_state() {
    assert_eq!(TransferState::Transcoding.download_job(), DownloadJob::WithTranscodePermit);
    assert_eq!(TransferState::Downloading.download_job(), DownloadJob::WithDownloadPermit);
    assert_eq!(TransferState::Waiting.download_job(), DownloadJob::WithoutPermit);
    assert_eq!(TransferState::Downloaded.download_job(), DownloadJob::NoJob);
    let done = DownloadState::Transcoded { path: "a".to_string() };
    assert_eq!(done.transfer_state().download_job(), DownloadJob::NoJob);
}

#[test]
fn download_steps_by_state() {
    assert_eq!(DownloadState::Empty.download_step(), DownloadStep::GiveUp);
    let t = DownloadState::Transcoding { session_id: "s".to_string() };
    assert_eq!(t.download_step(), DownloadStep::WaitForTranscode);
    let d = DownloadState::TranscodeDownloading { session_id: "s".to_string(), path: "p".to_string() };
    assert_eq!(d.download_step(), DownloadStep::FetchFile);
    let f = DownloadState::Downloaded { path: "p".to_string() };
    assert_eq!(f.download_step(), DownloadStep::Finished);
}
