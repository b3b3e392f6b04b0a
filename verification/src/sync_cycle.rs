//! The background sync of the web server, as decisions: after each piece of work
//! it says what to do next. Every cycle prunes the store, then for each server in
//! turn updates its state, prunes its directory and, in a full sync, downloads its
//! items and writes its playlists, reporting each server's outcome, and ends.
use vstd::prelude::*;

verus! {

/// Where a sync cycle is.
#[derive(Debug, Clone, Copy, PartialEq, Eq, Structural)]
pub enum SyncPhase {
    /// Between cycles.
    Waiting,
    /// The store's root is being pruned.
    PruningRoot,
    /// The state of the server at this index is being updated.
    Updating(usize),
    /// The directory of the server at this index is being pruned.
    PruningServer(usize),
    /// The items of the server at this index are being downloaded.
    Downloading(usize),
    /// The playlists of the server at this index are being written; whether its
    /// download completed.
    WritingPlaylists(usize, bool),
}

/// What to do next.
#[derive(Debug, Clone, Copy, PartialEq, Eq, Structural)]
pub enum SyncAction {
    /// Mark the status as syncing, announce the start of a sync and prune the
    /// store's root.
    StartCycle,
    /// Report that the sync of the server at this index started and update its
    /// state.
    UpdateServer(usize),
    /// Report that the sync of the server at this index failed.
    ReportFailed(usize),
    /// Announce a change and prune the directory of the server at this index.
    PruneServer(usize),
    /// Download the items of the server at this index.
    DownloadServer(usize),
    /// Write the playlists of the server at this index.
    WritePlaylists(usize),
    /// Report that the sync of the server at this index finished, and whether
    /// everything was downloaded.
    ReportFinished(usize, bool),
    /// Mark the status as idle, announce a change and the end of the sync, and
    /// wait for the next one.
    EndCycle,
}

/// What the work asked for came to.
#[derive(Debug, Clone, Copy, PartialEq, Eq, Structural)]
pub enum SyncEvent {
    /// The wait between cycles is over.
    Woken,
    /// The store's root was pruned.
    RootPruned,
    /// The server's state was updated, or failed to be.
    Updated(bool),
    /// The server's directory was pruned, whether or not that succeeded.
    ServerPruned,
    /// The download ended: whether everything was downloaded, or `None` when it
    /// failed.
    Downloaded(Option<bool>),
    /// The playlists were written.
    PlaylistsWritten,
}

/// A sync cycle over a number of servers, full or not.
pub struct SyncCycle {
    pub servers: usize,
    pub full: bool,
    pub phase: SyncPhase,
}

/// The server index a phase is at, if any.
pub open spec fn phase_server(p: SyncPhase) -> Option<usize> {
    match p {
        SyncPhase::Updating(i) => Some(i),
        SyncPhase::PruningServer(i) => Some(i),
        SyncPhase::Downloading(i) => Some(i),
        SyncPhase::WritingPlaylists(i, _) => Some(i),
        _ => None,
    }
}

impl SyncCycle {
    /// The phase names an existing server, and downloads only in a full sync.
    pub open spec fn wf(&self) -> bool {
        &&& (phase_server(self.phase) matches Some(i) ==> i < self.servers)
        &&& (!self.full ==> !(self.phase is Downloading) && !(self.phase is WritingPlaylists))
    }
}

/// Moving on to the server at `i`, or ending the cycle after the last one.
pub open spec fn begin_server(servers: usize, i: int) -> (SyncPhase, Seq<SyncAction>) {
    if i < servers {
        (SyncPhase::Updating(i as usize), seq![SyncAction::UpdateServer(i as usize)])
    } else {
        (SyncPhase::Waiting, seq![SyncAction::EndCycle])
    }
}

/// Reporting an outcome for the server at `i` and moving on.
pub open spec fn report_and_next(servers: usize, report: SyncAction, i: int) -> (
    SyncPhase,
    Seq<SyncAction>,
) {
    (begin_server(servers, i + 1).0, seq![report] + begin_server(servers, i + 1).1)
}

/// The next phase and the actions to take, after an event. An event that does not
/// belong to the phase changes nothing.
pub open spec fn sync_step_spec(c: SyncCycle, e: SyncEvent) -> (SyncPhase, Seq<SyncAction>) {
    match (c.phase, e) {
        (SyncPhase::Waiting, SyncEvent::Woken) => (
            SyncPhase::PruningRoot,
            seq![SyncAction::StartCycle],
        ),
        (SyncPhase::PruningRoot, SyncEvent::RootPruned) => begin_server(c.servers, 0),
        (SyncPhase::Updating(i), SyncEvent::Updated(ok)) => if ok {
            (SyncPhase::PruningServer(i), seq![SyncAction::PruneServer(i)])
        } else {
            report_and_next(c.servers, SyncAction::ReportFailed(i), i as int)
        },
        (SyncPhase::PruningServer(i), SyncEvent::ServerPruned) => if c.full {
            (SyncPhase::Downloading(i), seq![SyncAction::DownloadServer(i)])
        } else {
            report_and_next(c.servers, SyncAction::ReportFinished(i, false), i as int)
        },
        (SyncPhase::Downloading(i), SyncEvent::Downloaded(outcome)) => match outcome {
            Some(complete) => (
                SyncPhase::WritingPlaylists(i, complete),
                seq![SyncAction::WritePlaylists(i)],
            ),
            None => report_and_next(c.servers, SyncAction::ReportFailed(i), i as int),
        },
        (SyncPhase::WritingPlaylists(i, complete), SyncEvent::PlaylistsWritten) => report_and_next(
            c.servers,
            SyncAction::ReportFinished(i, complete),
            i as int,
        ),
        _ => (c.phase, Seq::empty()),
    }
}

fn begin_server_exec(servers: usize, i: usize) -> (r: (SyncPhase, Vec<SyncAction>))
    requires
        i <= servers,
    ensures
        r.0 == begin_server(servers, i as int).0,
        r.1@ == begin_server(servers, i as int).1,
{
    if i < servers {
        (SyncPhase::Updating(i), vec![SyncAction::UpdateServer(i)])
    } else {
        (SyncPhase::Waiting, vec![SyncAction::EndCycle])
    }
}

fn report_and_next_exec(servers: usize, report: SyncAction, i: usize) -> (r: (
    SyncPhase,
    Vec<SyncAction>,
))
    requires
        i < servers,
    ensures
        r.0 == report_and_next(servers, report, i as int).0,
        r.1@ == report_and_next(servers, report, i as int).1,
{
    let (phase, rest) = begin_server_exec(servers, i + 1);
    let mut actions = vec![report];
    let mut k: usize = 0;
    while k < rest.len()
        invariant
            k <= rest.len(),
            actions@ == seq![report] + rest@.take(k as int),
        decreases rest.len() - k,
    {
        actions.push(rest[k]);
        k = k + 1;
        proof {
            assert(rest@.take(k as int) =~= rest@.take(k - 1).push(rest@[k - 1]));
        }
    }
    proof {
        assert(rest@.take(rest.len() as int) =~= rest@);
    }
    (phase, actions)
}

impl SyncCycle {
    /// A cycle over `servers` servers, waiting for its first run.
    pub fn new(servers: usize, full: bool) -> (r: SyncCycle)
        ensures
            r.wf(),
            r.servers == servers,
            r.full == full,
            r.phase == SyncPhase::Waiting,
    {
        SyncCycle { servers, full, phase: SyncPhase::Waiting }
    }

    /// Takes in what the last piece of work came to and says what to do next.
    pub fn step(&mut self, e: SyncEvent) -> (r: Vec<SyncAction>)
        requires
            old(self).wf(),
        ensures
            final(self).wf(),
            final(self).servers == old(self).servers,
            final(self).full == old(self).full,
            final(self).phase == sync_step_spec(*old(self), e).0,
            r@ == sync_step_spec(*old(self), e).1,
    {
        let (phase, actions) = match (self.phase, e) {
            (SyncPhase::Waiting, SyncEvent::Woken) => (
                SyncPhase::PruningRoot,
                vec![SyncAction::StartCycle],
            ),
            (SyncPhase::PruningRoot, SyncEvent::RootPruned) => begin_server_exec(self.servers, 0),
            (SyncPhase::Updating(i), SyncEvent::Updated(ok)) => if ok {
                (SyncPhase::PruningServer(i), vec![SyncAction::PruneServer(i)])
            } else {
                report_and_next_exec(self.servers, SyncAction::ReportFailed(i), i)
            },
            (SyncPhase::PruningServer(i), SyncEvent::ServerPruned) => if self.full {
                (SyncPhase::Downloading(i), vec![SyncAction::DownloadServer(i)])
            } else {
                report_and_next_exec(self.servers, SyncAction::ReportFinished(i, false), i)
            },
            (SyncPhase::Downloading(i), SyncEvent::Downloaded(outcome)) => match outcome {
                Some(complete) => (
                    SyncPhase::WritingPlaylists(i, complete),
                    vec![SyncAction::WritePlaylists(i)],
                ),
                None => report_and_next_exec(self.servers, SyncAction::ReportFailed(i), i),
            },
            (SyncPhase::WritingPlaylists(i, complete), SyncEvent::PlaylistsWritten) => {
                report_and_next_exec(self.servers, SyncAction::ReportFinished(i, complete), i)
            },
            _ => (self.phase, Vec::new()),
        };
        self.phase = phase;
        actions
    }
}

// ---------------------------------------------------------------------------
// Laws
// ---------------------------------------------------------------------------

/// How much of a cycle is left: none when waiting, and less after every step that
/// moves the cycle on.
pub open spec fn remaining_work(c: SyncCycle) -> int {
    let n = c.servers as int;
    match c.phase {
        SyncPhase::Waiting => 0,
        SyncPhase::PruningRoot => 4 * n + 5,
        SyncPhase::Updating(i) => 4 * (n - i) + 4,
        SyncPhase::PruningServer(i) => 4 * (n - i) + 3,
        SyncPhase::Downloading(i) => 4 * (n - i) + 2,
        SyncPhase::WritingPlaylists(i, _) => 4 * (n - i) + 1,
    }
}

/// Every cycle ends: each step that moves a running cycle on leaves less of it to
/// do, and nothing is left only when it waits for the next one.
pub proof fn lemma_cycle_ends(c: SyncCycle, e: SyncEvent)
    requires
        c.wf(),
        !(c.phase is Waiting),
        sync_step_spec(c, e).0 != c.phase,
    ensures
        0 <= remaining_work(SyncCycle { phase: sync_step_spec(c, e).0, ..c }) < remaining_work(c),
{
}

/// A server whose state could not be updated is reported as failed and neither
/// pruned nor downloaded: the cycle moves on to the next server.
pub proof fn lemma_failed_update_skips_server(c: SyncCycle, i: usize)
    requires
        c.wf(),
        c.phase == SyncPhase::Updating(i),
    ensures
        sync_step_spec(c, SyncEvent::Updated(false)).1[0] == SyncAction::ReportFailed(i),
        !sync_step_spec(c, SyncEvent::Updated(false)).1.contains(SyncAction::PruneServer(i)),
        !sync_step_spec(c, SyncEvent::Updated(false)).1.contains(SyncAction::DownloadServer(i)),
        phase_server(sync_step_spec(c, SyncEvent::Updated(false)).0) != Some(i),
{
}

/// A sync that is not full never downloads.
pub proof fn lemma_quick_sync_never_downloads(c: SyncCycle, e: SyncEvent, j: usize)
    requires
        c.wf(),
        !c.full,
    ensures
        !sync_step_spec(c, e).1.contains(SyncAction::DownloadServer(j)),
        !sync_step_spec(c, e).1.contains(SyncAction::WritePlaylists(j)),
{
}

} // verus!
