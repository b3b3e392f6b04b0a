use flick_sync::sync_cycle::{SyncAction, SyncCycle, SyncEvent, SyncPhase};

#[test]
fn full_sync_of_two_servers() {
    let mut c = SyncCycle::new(2, true);
    assert_eq!(c.step(SyncEvent::RootPruned), Vec::new());
    assert_eq!(c.phase, SyncPhase::Waiting);
    assert_eq!(c.step(SyncEvent::Woken), vec![SyncAction::StartCycle]);
    assert_eq!(c.step(SyncEvent::RootPruned), vec![SyncAction::UpdateServer(0)]);
    assert_eq!(c.step(SyncEvent::Updated(true)), vec![SyncAction::PruneServer(0)]);
    assert_eq!(c.step(SyncEvent::ServerPruned), vec![SyncAction::DownloadServer(0)]);
    assert_eq!(c.step(SyncEvent::Downloaded(Some(true))), vec![SyncAction::WritePlaylists(0)]);
    assert_eq!(
        c.step(SyncEvent::PlaylistsWritten),
        vec![SyncAction::ReportFinished(0, true), SyncAction::UpdateServer(1)]
    );
    assert_eq!(
        c.step(SyncEvent::Updated(false)),
        vec![SyncAction::ReportFailed(1), SyncAction::EndCycle]
    );
    assert_eq!(c.phase, SyncPhase::Waiting);
}

#[test]
fn quick_sync_and_failed_download() {
    let mut c = SyncCycle::new(1, false);
    c.step(SyncEvent::Woken);
    c.step(SyncEvent::RootPruned);
    c.step(SyncEvent::Updated(true));
    assert_eq!(
        c.step(SyncEvent::ServerPruned),
        vec![SyncAction::ReportFinished(0, false), SyncAction::EndCycle]
    );

    let mut c = SyncCycle::new(1, true);
    c.step(SyncEvent::Woken);
    c.step(SyncEvent::RootPruned);
    c.step(SyncEvent::Updated(true));
    c.step(SyncEvent::ServerPruned);
    assert_eq!(
        c.step(SyncEvent::Downloaded(None)),
        vec![SyncAction::ReportFailed(0), SyncAction::EndCycle]
    );

    let mut c = SyncCycle::new(0, true);
    c.step(SyncEvent::Woken);
    assert_eq!(c.step(SyncEvent::RootPruned), vec![SyncAction::EndCycle]);
}
