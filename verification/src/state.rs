//! The synchronisation state of videos: where their downloads stand, how their
//! playback state is reconciled with the server, what files they keep, and the
//! statistics reported about them.
use vstd::prelude::*;

verus! {

// ---------------------------------------------------------------------------
// Plain configuration values
// ---------------------------------------------------------------------------

/// How files are laid out on disk.
#[derive(Debug, Clone, Copy, PartialEq, Eq, Structural)]
pub enum OutputStyle {
    Minimal,
    Standardized,
}

impl OutputStyle {
    /// The minimal style is the default and is not written to the configuration.
    pub fn is_default(&self) -> (r: bool)
        ensures
            r == (*self == OutputStyle::Minimal),
    {
        match self {
            OutputStyle::Minimal => true,
            OutputStyle::Standardized => false,
        }
    }

    /// The style named `minimal` or `standardized`.
    pub fn from_name(name: &str) -> (r: Option<OutputStyle>)
        ensures
            name@ == "minimal"@ ==> r == Some(OutputStyle::Minimal),
            name@ == "standardized"@ ==> r == Some(OutputStyle::Standardized),
            name@ != "minimal"@ && name@ != "standardized"@ ==> r is None,
    {
        proof {
            reveal_strlit("minimal");
            reveal_strlit("standardized");
            assert("minimal"@[0] != "standardized"@[0]);
            assert("minimal"@ != "standardized"@);
        }
        let chars = crate::text::to_chars(name);
        let minimal = crate::text::to_chars("minimal");
        let standardized = crate::text::to_chars("standardized");
        if crate::text::chars_eq(chars.as_slice(), minimal.as_slice()) {
            Some(OutputStyle::Minimal)
        } else if crate::text::chars_eq(chars.as_slice(), standardized.as_slice()) {
            Some(OutputStyle::Standardized)
        } else {
            None
        }
    }
}

/// How to reach a Plex server.
pub enum ServerConnection {
    MyPlex { username: String, user_id: String, device_id: String },
    Direct { url: String },
}

/// The kind of a library.
#[derive(Debug, Clone, Copy, PartialEq, Eq, Structural)]
pub enum LibraryType {
    Movie,
    Show,
}

// ---------------------------------------------------------------------------
// Playback state
// ---------------------------------------------------------------------------

/// How far a video has been watched.
#[derive(Debug, Clone, Copy, PartialEq, Eq, Structural)]
pub enum PlaybackState {
    Unplayed,
    InProgress { position: u64 },
    Played,
}

impl PlaybackState {
    pub open spec fn from_metadata_spec(view_offset: Option<u64>, view_count: Option<u64>) -> PlaybackState {
        match view_offset {
            Some(position) => PlaybackState::InProgress { position },
            None => if view_count is Some {
                PlaybackState::Played
            } else {
                PlaybackState::Unplayed
            },
        }
    }

    /// The state the server reports: a view offset means in progress, a view count
    /// means played.
    pub fn from_metadata(view_offset: Option<u64>, view_count: Option<u64>) -> (r: PlaybackState)
        ensures
            r == PlaybackState::from_metadata_spec(view_offset, view_count),
    {
        match view_offset {
            Some(position) => PlaybackState::InProgress { position },
            None => if view_count.is_some() {
                PlaybackState::Played
            } else {
                PlaybackState::Unplayed
            },
        }
    }
}

/// What reconciling a video's playback state with the server does.
#[derive(Debug, Clone, Copy, PartialEq, Eq, Structural)]
pub enum PlaybackSync {
    /// Nothing to do.
    Keep,
    /// Tell the server the local playback position.
    PushPosition { position: u64 },
    /// Mark the video watched on the server.
    MarkWatched,
    /// The video was viewed on the server: take the server's state and its time of
    /// last view.
    TakeServer,
}

pub open spec fn playback_sync_spec(
    local: PlaybackState,
    local_last_viewed: Option<i128>,
    server: PlaybackState,
    server_last_viewed: Option<i128>,
) -> PlaybackSync {
    if local_last_viewed == server_last_viewed {
        if server == local {
            PlaybackSync::Keep
        } else {
            match local {
                PlaybackState::Unplayed => PlaybackSync::Keep,
                PlaybackState::InProgress { position } => PlaybackSync::PushPosition { position },
                PlaybackState::Played => PlaybackSync::MarkWatched,
            }
        }
    } else {
        PlaybackSync::TakeServer
    }
}

/// Reconciles the local playback state with the server's. When nobody viewed the
/// video on the server since the last sync, local progress is sent to the server
/// (a local unplayed state is not); otherwise the server's state wins. Times are
/// instants in nanoseconds since the Unix epoch.
pub fn playback_sync(
    local: PlaybackState,
    local_last_viewed: Option<i128>,
    server: PlaybackState,
    server_last_viewed: Option<i128>,
) -> (r: PlaybackSync)
    ensures
        r == playback_sync_spec(local, local_last_viewed, server, server_last_viewed),
{
    if local_last_viewed == server_last_viewed {
        if server == local {
            PlaybackSync::Keep
        } else {
            match local {
                PlaybackState::Unplayed => PlaybackSync::Keep,
                PlaybackState::InProgress { position } => PlaybackSync::PushPosition { position },
                PlaybackState::Played => PlaybackSync::MarkWatched,
            }
        }
    } else {
        PlaybackSync::TakeServer
    }
}

/// Once the server's state has been taken, reconciling again changes nothing until
/// either side changes.
pub proof fn lemma_take_server_settles(
    local: PlaybackState,
    local_last_viewed: Option<i128>,
    server: PlaybackState,
    server_last_viewed: Option<i128>,
)
    requires
        playback_sync_spec(local, local_last_viewed, server, server_last_viewed)
            == PlaybackSync::TakeServer,
    ensures
        playback_sync_spec(server, server_last_viewed, server, server_last_viewed)
            == PlaybackSync::Keep,
{
}

/// A video that was never started locally never changes the server's state: it is
/// neither marked watched nor given a position.
pub proof fn lemma_unplayed_never_pushed(
    local_last_viewed: Option<i128>,
    server: PlaybackState,
    server_last_viewed: Option<i128>,
)
    ensures
        playback_sync_spec(PlaybackState::Unplayed, local_last_viewed, server, server_last_viewed)
            == PlaybackSync::Keep || playback_sync_spec(
            PlaybackState::Unplayed,
            local_last_viewed,
            server,
            server_last_viewed,
        ) == PlaybackSync::TakeServer,
{
}

// ---------------------------------------------------------------------------
// Files kept beside a video
// ---------------------------------------------------------------------------

/// A thumbnail or metadata file: absent (`Empty`), or stored at a path with the time it was
/// made (nanoseconds since the Unix epoch).
pub enum RelatedFileState {
    Empty,
    Stored { updated: i128, path: String },
}

impl RelatedFileState {
    pub fn path(&self) -> (r: Option<String>)
        ensures
            match self {
                RelatedFileState::Empty => r is None,
                RelatedFileState::Stored { path, .. } => r matches Some(p) && p@ == path@,
            },
    {
        match self {
            RelatedFileState::Empty => None,
            RelatedFileState::Stored { path, .. } => Some(path.clone()),
        }
    }

    pub fn is_none(&self) -> (r: bool)
        ensures
            r == (self is Empty),
    {
        match self {
            RelatedFileState::Empty => true,
            RelatedFileState::Stored { .. } => false,
        }
    }

    /// A stored file needs remaking when the item changed after it was made; an
    /// absent one always does.
    pub fn needs_update(&self, since: i128) -> (r: bool)
        ensures
            match self {
                RelatedFileState::Empty => r,
                RelatedFileState::Stored { updated, .. } => r == (since > *updated),
            },
    {
        match self {
            RelatedFileState::Empty => true,
            RelatedFileState::Stored { updated, .. } => since > *updated,
        }
    }

    /// What to do after checking the stored file: nothing when none is stored; a
    /// non-file is removed and a missing file forgotten; a file that cannot be read
    /// is left alone; a file away from `expected` is moved there.
    pub fn file_verdict(&self, check: FileCheck, expected: &str) -> (r: FileVerdict)
        ensures
            match self {
                RelatedFileState::Empty => r is Keep,
                RelatedFileState::Stored { path, .. } => match check {
                    FileCheck::NotAFile => r is RemoveAndForget,
                    FileCheck::Missing => r is Forget,
                    FileCheck::Unreadable => r is Keep,
                    FileCheck::Present => if path@ == expected@ {
                        r is Keep
                    } else {
                        r matches FileVerdict::Move { to } && to@ == expected@
                    },
                },
            },
    {
        match self {
            RelatedFileState::Empty => FileVerdict::Keep,
            RelatedFileState::Stored { path, .. } => match check {
                FileCheck::NotAFile => FileVerdict::RemoveAndForget,
                FileCheck::Missing => FileVerdict::Forget,
                FileCheck::Unreadable => FileVerdict::Keep,
                FileCheck::Present => {
                    let a = crate::text::to_chars(path.as_str());
                    let b = crate::text::to_chars(expected);
                    if crate::text::chars_eq(a.as_slice(), b.as_slice()) {
                        FileVerdict::Keep
                    } else {
                        FileVerdict::Move { to: expected.to_owned() }
                    }
                },
            },
        }
    }

    /// The stored file after it was moved to `expected`; when it was made stays.
    pub fn moved_to(self, expected: String) -> (r: RelatedFileState)
        ensures
            match self {
                RelatedFileState::Empty => r is Empty,
                RelatedFileState::Stored { updated, .. } => r matches RelatedFileState::Stored {
                    updated: u,
                    path,
                } && u == updated && path == expected,
            },
    {
        match self {
            RelatedFileState::Empty => RelatedFileState::Empty,
            RelatedFileState::Stored { updated, .. } => RelatedFileState::Stored {
                updated,
                path: expected,
            },
        }
    }
}

// ---------------------------------------------------------------------------
// Downloads
// ---------------------------------------------------------------------------

/// Where the transfer of a video part stands.
#[derive(Debug, Clone, Copy, PartialEq, Eq, Structural)]
pub enum TransferState {
    Waiting,
    Transcoding,
    Downloading,
    Downloaded,
}

/// The job a server's download run starts for a part, and the permit it is given
/// when one is free.
#[derive(Debug, Clone, Copy, PartialEq, Eq, Structural)]
pub enum DownloadJob {
    /// A part being transcoded gets a transcode permit.
    WithTranscodePermit,
    /// A part being downloaded gets a download permit.
    WithDownloadPermit,
    /// A part not started yet gets no permit; it waits for one.
    WithoutPermit,
    /// A downloaded part needs no job.
    NoJob,
}

impl TransferState {
    /// The job a download run starts for a part in this state.
    pub fn download_job(&self) -> (r: DownloadJob)
        ensures
            r == match *self {
                TransferState::Transcoding => DownloadJob::WithTranscodePermit,
                TransferState::Downloading => DownloadJob::WithDownloadPermit,
                TransferState::Waiting => DownloadJob::WithoutPermit,
                TransferState::Downloaded => DownloadJob::NoJob,
            },
    {
        match self {
            TransferState::Transcoding => DownloadJob::WithTranscodePermit,
            TransferState::Downloading => DownloadJob::WithDownloadPermit,
            TransferState::Waiting => DownloadJob::WithoutPermit,
            TransferState::Downloaded => DownloadJob::NoJob,
        }
    }
}

/// The download of a video part; `Empty` when none has started.
pub enum DownloadState {
    Empty,
    Downloading { path: String },
    Transcoding { session_id: String },
    TranscodeDownloading { session_id: String, path: String },
    Downloaded { path: String },
    Transcoded { path: String },
}

/// What the server says of a transcode session.
pub enum TranscodeCheck {
    /// The transcode is done; its output belongs at `path`.
    Complete { path: String },
    /// The transcode failed (the session is then cancelled).
    Failed,
    /// The transcode is still running.
    Running,
    /// The server no longer knows the session.
    Missing,
    /// The server could not be asked.
    Unknown,
}

/// What deleting a download does.
pub struct DeletePlan {
    /// The transcode session to cancel.
    pub cancel_session: Option<String>,
    /// The file to remove, relative to the store.
    pub remove_path: Option<String>,
    /// Whether the download is then forgotten.
    pub forget: bool,
}

impl DownloadState {
    pub open spec fn path_spec(&self) -> Option<Seq<char>> {
        match self {
            DownloadState::Empty => None,
            DownloadState::Transcoding { .. } => None,
            DownloadState::Downloading { path } => Some(path@),
            DownloadState::TranscodeDownloading { path, .. } => Some(path@),
            DownloadState::Downloaded { path } => Some(path@),
            DownloadState::Transcoded { path } => Some(path@),
        }
    }

    pub open spec fn is_local(&self) -> bool {
        self is Downloaded || self is Transcoded
    }

    /// The file of the download, once one is being written.
    pub fn path(&self) -> (r: Option<String>)
        ensures
            match r {
                Some(p) => self.path_spec() == Some(p@),
                None => self.path_spec() is None,
            },
    {
        match self {
            DownloadState::Empty => None,
            DownloadState::Transcoding { .. } => None,
            DownloadState::Downloading { path } => Some(path.clone()),
            DownloadState::TranscodeDownloading { path, .. } => Some(path.clone()),
            DownloadState::Downloaded { path } => Some(path.clone()),
            DownloadState::Transcoded { path } => Some(path.clone()),
        }
    }

    /// Everything but a finished download still needs downloading.
    pub fn needs_download(&self) -> (r: bool)
        ensures
            r == !self.is_local(),
    {
        match self {
            DownloadState::Downloaded { .. } => false,
            DownloadState::Transcoded { .. } => false,
            _ => true,
        }
    }

    pub open spec fn transfer_state_spec(&self) -> TransferState {
        match self {
            DownloadState::Empty => TransferState::Waiting,
            DownloadState::Downloading { .. } => TransferState::Downloading,
            DownloadState::Transcoding { .. } => TransferState::Transcoding,
            _ => TransferState::Downloaded,
        }
    }

    pub fn transfer_state(&self) -> (r: TransferState)
        ensures
            r == self.transfer_state_spec(),
    {
        match self {
            DownloadState::Empty => TransferState::Waiting,
            DownloadState::Downloading { .. } => TransferState::Downloading,
            DownloadState::Transcoding { .. } => TransferState::Transcoding,
            _ => TransferState::Downloaded,
        }
    }

    /// The state after asking the server about the transcode session `session_id`
    /// of a transcoding download: a finished transcode starts downloading, a failed
    /// or forgotten one starts over, a running one stays transcoding.
    pub fn after_transcode_check(self, session_id: &str, check: TranscodeCheck) -> (r:
        DownloadState)
        ensures
            match check {
                TranscodeCheck::Complete { path } => match self {
                    DownloadState::Transcoding { .. } => r matches DownloadState::TranscodeDownloading {
                        session_id: s,
                        path: p,
                    } && s@ == session_id@ && p@ == path@,
                    _ => r == self,
                },
                TranscodeCheck::Failed => r is Empty,
                TranscodeCheck::Running => r matches DownloadState::Transcoding { session_id: s }
                    && s@ == session_id@,
                TranscodeCheck::Missing => r is Empty,
                TranscodeCheck::Unknown => r == self,
            },
    {
        match check {
            TranscodeCheck::Complete { path } => match self {
                DownloadState::Transcoding { .. } => DownloadState::TranscodeDownloading {
                    session_id: session_id.to_owned(),
                    path,
                },
                other => other,
            },
            TranscodeCheck::Failed => DownloadState::Empty,
            TranscodeCheck::Running => DownloadState::Transcoding {
                session_id: session_id.to_owned(),
            },
            TranscodeCheck::Missing => DownloadState::Empty,
            TranscodeCheck::Unknown => self,
        }
    }

    /// A finished download moved to `expected`, keeping how it was made.
    pub fn relocated(self, expected: String) -> (r: DownloadState)
        requires
            self.is_local(),
        ensures
            self is Downloaded ==> (r matches DownloadState::Downloaded { path } && path@
                == expected@),
            self is Transcoded ==> (r matches DownloadState::Transcoded { path } && path@
                == expected@),
    {
        match self {
            DownloadState::Transcoded { .. } => DownloadState::Transcoded { path: expected },
            _ => DownloadState::Downloaded { path: expected },
        }
    }

    /// What deleting the download does: running transcode sessions are cancelled
    /// and written files removed. A download that is still transcoding is kept.
    pub fn delete_plan(&self) -> (r: DeletePlan)
        ensures
            match self {
                DownloadState::Empty => r.cancel_session is None && r.remove_path is None
                    && !r.forget,
                DownloadState::Transcoding { session_id } => r.cancel_session matches Some(s)
                    && s@ == session_id@ && r.remove_path is None && !r.forget,
                DownloadState::TranscodeDownloading { session_id, path } => (r.cancel_session matches Some(
                    s,
                ) && s@ == session_id@) && (r.remove_path matches Some(p) && p@ == path@) && r.forget,
                _ => r.cancel_session is None && (r.remove_path matches Some(p) && Some(p@)
                    == self.path_spec()) && r.forget,
            },
    {
        match self {
            DownloadState::Empty => DeletePlan { cancel_session: None, remove_path: None, forget: false },
            DownloadState::Transcoding { session_id } => DeletePlan {
                cancel_session: Some(session_id.clone()),
                remove_path: None,
                forget: false,
            },
            DownloadState::TranscodeDownloading { session_id, path } => DeletePlan {
                cancel_session: Some(session_id.clone()),
                remove_path: Some(path.clone()),
                forget: true,
            },
            DownloadState::Downloading { path } => DeletePlan {
                cancel_session: None,
                remove_path: Some(path.clone()),
                forget: true,
            },
            DownloadState::Downloaded { path } => DeletePlan {
                cancel_session: None,
                remove_path: Some(path.clone()),
                forget: true,
            },
            DownloadState::Transcoded { path } => DeletePlan {
                cancel_session: None,
                remove_path: Some(path.clone()),
                forget: true,
            },
        }
    }
}

/// What a part's download does next.
#[derive(Debug, Clone, Copy, PartialEq, Eq, Structural)]
pub enum DownloadStep {
    /// Stop and report the part not downloaded.
    GiveUp,
    /// Wait for the transcode to finish.
    WaitForTranscode,
    /// Fetch the file, under a download permit.
    FetchFile,
    /// Stop and report the part downloaded.
    Finished,
}

/// What checking a download starts with.
pub enum VerifyStart {
    /// Nothing to check: no download, or one still being written.
    Nothing,
    /// Ask the server about this transcode session first.
    CheckTranscode { session_id: String },
    /// Check the downloaded file.
    CheckFile,
}

/// What is found where a download's file should be.
#[derive(Debug, Clone, Copy, PartialEq, Eq, Structural)]
pub enum FileCheck {
    /// Something that is not a file, such as a directory.
    NotAFile,
    /// Nothing.
    Missing,
    /// It could not be read for another reason.
    Unreadable,
    /// A file.
    Present,
}

/// What to do once a download's file was checked.
pub enum FileVerdict {
    /// Leave the download as it is.
    Keep,
    /// Remove what is there and forget the download.
    RemoveAndForget,
    /// Forget the download.
    Forget,
    /// Move the file to where it belongs now; a finished download is then
    /// `relocated` there.
    Move { to: String },
}

impl DownloadState {
    /// How checking the download starts: a transcode is asked about first, a
    /// finished download has its file checked, and nothing is checked otherwise.
    pub fn verify_start(&self) -> (r: VerifyStart)
        ensures
            match self {
                DownloadState::Transcoding { session_id } => r matches VerifyStart::CheckTranscode {
                    session_id: s,
                } && s@ == session_id@,
                DownloadState::TranscodeDownloading { session_id, .. } => r matches VerifyStart::CheckTranscode {
                    session_id: s,
                } && s@ == session_id@,
                DownloadState::Downloaded { .. } => r is CheckFile,
                DownloadState::Transcoded { .. } => r is CheckFile,
                _ => r is Nothing,
            },
    {
        match self {
            DownloadState::Transcoding { session_id } => VerifyStart::CheckTranscode {
                session_id: session_id.clone(),
            },
            DownloadState::TranscodeDownloading { session_id, .. } => VerifyStart::CheckTranscode {
                session_id: session_id.clone(),
            },
            DownloadState::Downloaded { .. } => VerifyStart::CheckFile,
            DownloadState::Transcoded { .. } => VerifyStart::CheckFile,
            _ => VerifyStart::Nothing,
        }
    }

    pub open spec fn download_step_spec(&self) -> DownloadStep {
        match *self {
            DownloadState::Empty => DownloadStep::GiveUp,
            DownloadState::Transcoding { .. } => DownloadStep::WaitForTranscode,
            DownloadState::Downloading { .. } => DownloadStep::FetchFile,
            DownloadState::TranscodeDownloading { .. } => DownloadStep::FetchFile,
            DownloadState::Downloaded { .. } => DownloadStep::Finished,
            DownloadState::Transcoded { .. } => DownloadStep::Finished,
        }
    }

    /// What a part's download does next in this state: nothing more when there is
    /// no download (it failed), wait for a transcode to finish, fetch the file, or
    /// report the part downloaded.
    pub fn download_step(&self) -> (r: DownloadStep)
        ensures
            r == self.download_step_spec(),
    {
        match self {
            DownloadState::Empty => DownloadStep::GiveUp,
            DownloadState::Transcoding { .. } => DownloadStep::WaitForTranscode,
            DownloadState::Downloading { .. } => DownloadStep::FetchFile,
            DownloadState::TranscodeDownloading { .. } => DownloadStep::FetchFile,
            DownloadState::Downloaded { .. } => DownloadStep::Finished,
            DownloadState::Transcoded { .. } => DownloadStep::Finished,
        }
    }

    /// What to do after checking the download's file: nothing without a file; a
    /// non-file is removed and a missing file forgotten; a file that cannot be read
    /// is left alone; a file away from `expected` is moved there.
    pub fn file_verdict(&self, check: FileCheck, expected: &str) -> (r: FileVerdict)
        ensures
            match self.path_spec() {
                None => r is Keep,
                Some(p) => match check {
                    FileCheck::NotAFile => r is RemoveAndForget,
                    FileCheck::Missing => r is Forget,
                    FileCheck::Unreadable => r is Keep,
                    FileCheck::Present => if p == expected@ {
                        r is Keep
                    } else {
                        r matches FileVerdict::Move { to } && to@ == expected@
                    },
                },
            },
    {
        match self.path() {
            None => FileVerdict::Keep,
            Some(p) => match check {
                FileCheck::NotAFile => FileVerdict::RemoveAndForget,
                FileCheck::Missing => FileVerdict::Forget,
                FileCheck::Unreadable => FileVerdict::Keep,
                FileCheck::Present => {
                    let a = crate::text::to_chars(p.as_str());
                    let b = crate::text::to_chars(expected);
                    if crate::text::chars_eq(a.as_slice(), b.as_slice()) {
                        FileVerdict::Keep
                    } else {
                        FileVerdict::Move { to: expected.to_owned() }
                    }
                },
            },
        }
    }
}

/// A download that needs no download is one that is finished: it has a file and
/// counts as downloaded.
pub proof fn lemma_local_download(d: DownloadState)
    requires
        d.is_local(),
    ensures
        d.path_spec() is Some,
        d.transfer_state_spec() == TransferState::Downloaded,
{
}

// ---------------------------------------------------------------------------
// Statistics
// ---------------------------------------------------------------------------

/// Counts over videos; durations in milliseconds.
#[derive(Debug, Clone, Copy, PartialEq, Eq, Structural)]
pub struct VideoStats {
    pub local_videos: u32,
    pub remote_videos: u32,
    pub local_bytes: u64,
    pub remote_bytes: u64,
    pub local_duration: u64,
    pub remote_duration: u64,
}

impl VideoStats {
    pub fn new() -> (r: VideoStats)
        ensures
            r == (VideoStats {
                local_videos: 0,
                remote_videos: 0,
                local_bytes: 0,
                remote_bytes: 0,
                local_duration: 0,
                remote_duration: 0,
            }),
    {
        VideoStats {
            local_videos: 0,
            remote_videos: 0,
            local_bytes: 0,
            remote_bytes: 0,
            local_duration: 0,
            remote_duration: 0,
        }
    }

    pub open spec fn can_add(self, rhs: VideoStats) -> bool {
        &&& self.local_videos + rhs.local_videos <= u32::MAX
        &&& self.remote_videos + rhs.remote_videos <= u32::MAX
        &&& self.local_bytes + rhs.local_bytes <= u64::MAX
        &&& self.remote_bytes + rhs.remote_bytes <= u64::MAX
        &&& self.local_duration + rhs.local_duration <= u64::MAX
        &&& self.remote_duration + rhs.remote_duration <= u64::MAX
    }

    /// The field by field sum.
    pub fn add(self, rhs: VideoStats) -> (r: VideoStats)
        requires
            self.can_add(rhs),
        ensures
            r.local_videos == self.local_videos + rhs.local_videos,
            r.remote_videos == self.remote_videos + rhs.remote_videos,
            r.local_bytes == self.local_bytes + rhs.local_bytes,
            r.remote_bytes == self.remote_bytes + rhs.remote_bytes,
            r.local_duration == self.local_duration + rhs.local_duration,
            r.remote_duration == self.remote_duration + rhs.remote_duration,
    {
        VideoStats {
            local_videos: self.local_videos + rhs.local_videos,
            remote_videos: self.remote_videos + rhs.remote_videos,
            local_bytes: self.local_bytes + rhs.local_bytes,
            remote_bytes: self.remote_bytes + rhs.remote_bytes,
            local_duration: self.local_duration + rhs.local_duration,
            remote_duration: self.remote_duration + rhs.remote_duration,
        }
    }

    pub fn add_assign(&mut self, rhs: VideoStats)
        requires
            old(self).can_add(rhs),
        ensures
            *final(self) == old(self).add_spec(rhs),
    {
        *self = self.add(rhs);
    }

    pub open spec fn add_spec(self, rhs: VideoStats) -> VideoStats {
        VideoStats {
            local_videos: (self.local_videos + rhs.local_videos) as u32,
            remote_videos: (self.remote_videos + rhs.remote_videos) as u32,
            local_bytes: (self.local_bytes + rhs.local_bytes) as u64,
            remote_bytes: (self.remote_bytes + rhs.remote_bytes) as u64,
            local_duration: (self.local_duration + rhs.local_duration) as u64,
            remote_duration: (self.remote_duration + rhs.remote_duration) as u64,
        }
    }
}

/// Adding statistics does not depend on the order.
pub proof fn lemma_stats_add_commutes(a: VideoStats, b: VideoStats)
    requires
        a.can_add(b),
    ensures
        b.can_add(a),
        a.add_spec(b) == b.add_spec(a),
{
}

/// What is known of one part of a video: its duration, its size on the server and
/// the size of its file on disk when it has one that can be read.
pub struct PartFacts {
    pub duration: u64,
    pub remote_size: u64,
    pub local_size: Option<u64>,
}

pub open spec fn part_stats(local: bool, p: PartFacts) -> VideoStats {
    VideoStats {
        local_videos: 0,
        remote_videos: 1,
        local_bytes: match p.local_size {
            Some(n) => n,
            None => 0,
        },
        remote_bytes: match p.local_size {
            Some(n) => n,
            None => p.remote_size,
        },
        local_duration: if local {
            p.duration
        } else {
            0
        },
        remote_duration: p.duration,
    }
}

/// The statistics of a video from its parts: the video counts as local when its
/// download is finished; every part counts as remote; a part's bytes are those of
/// its file when there is one.
pub open spec fn video_stats_spec(local: bool, parts: Seq<PartFacts>) -> VideoStats
    decreases parts.len(),
{
    if parts.len() == 0 {
        VideoStats {
            local_videos: if local {
                1
            } else {
                0
            },
            remote_videos: 0,
            local_bytes: 0,
            remote_bytes: 0,
            local_duration: 0,
            remote_duration: 0,
        }
    } else {
        video_stats_spec(local, parts.drop_last()).add_spec(part_stats(local, parts.last()))
    }
}

/// No sum overflows while the parts of a video are added up.
pub open spec fn stats_addable(local: bool, parts: Seq<PartFacts>) -> bool {
    forall|k: int|
        0 <= k < parts.len() ==> video_stats_spec(local, parts.take(k)).can_add(
            #[trigger] part_stats(local, parts[k]),
        )
}

/// The statistics of one video; `needs_download` is whether its download is
/// unfinished.
pub fn video_stats(needs_download: bool, parts: &Vec<PartFacts>) -> (r: VideoStats)
    requires
        stats_addable(!needs_download, parts@),
    ensures
        r == video_stats_spec(!needs_download, parts@),
{
    let local = !needs_download;
    let mut stats = VideoStats::new();
    if local {
        stats.local_videos = 1;
    }
    let mut i: usize = 0;
    proof {
        assert(parts@.take(0) =~= Seq::<PartFacts>::empty());
    }
    while i < parts.len()
        invariant
            i <= parts.len(),
            local == !needs_download,
            stats == video_stats_spec(local, parts@.take(i as int)),
            stats_addable(local, parts@),
        decreases parts.len() - i,
    {
        let p = &parts[i];
        let mut part = VideoStats::new();
        part.remote_videos = 1;
        part.remote_duration = p.duration;
        if local {
            part.local_duration = p.duration;
        }
        match p.local_size {
            Some(n) => {
                part.local_bytes = n;
                part.remote_bytes = n;
            },
            None => {
                part.remote_bytes = p.remote_size;
            },
        }
        proof {
            assert(part == part_stats(local, parts@[i as int]));
            assert(parts@.take(i + 1).drop_last() =~= parts@.take(i as int));
            assert(parts@.take(i + 1).last() == parts@[i as int]);
        }
        stats.add_assign(part);
        i = i + 1;
    }
    proof {
        assert(parts@.take(parts.len() as int) =~= parts@);
    }
    stats
}

// ---------------------------------------------------------------------------
// Parts that changed on the server
// ---------------------------------------------------------------------------

/// What identifies a stored part of a video: its id and key on the server, its
/// size and its duration.
pub struct PartIdentity {
    pub id: String,
    pub key: String,
    pub size: u64,
    pub duration: u64,
}

/// What the server now says of a part; each field only when the server gave it.
pub struct ServerPart {
    pub id: Option<String>,
    pub key: Option<String>,
    pub size: Option<u64>,
    pub duration: Option<u64>,
}

/// The server still describes the stored part: every field is given and the same.
pub open spec fn same_part(p: PartIdentity, s: ServerPart) -> bool {
    &&& s.id matches Some(i) && i@ == p.id@
    &&& s.key matches Some(k) && k@ == p.key@
    &&& s.size == Some(p.size)
    &&& s.duration == Some(p.duration)
}

/// What to do with a video's stored parts after the server has described them.
pub enum PartsPlan {
    /// The number of parts changed: delete every download and take the server's
    /// parts.
    ReplaceAll,
    /// Delete the downloads of the parts at these indices, in order, and take the
    /// server's description of them; keep the others.
    Replace(Vec<usize>),
}

/// The indices below `n` of the parts the server no longer describes, in order.
pub open spec fn changed_parts(stored: Seq<PartIdentity>, current: Seq<ServerPart>, n: int) -> Seq<
    usize,
>
    decreases n,
{
    if n <= 0 {
        Seq::empty()
    } else if same_part(stored[n - 1], current[n - 1]) {
        changed_parts(stored, current, n - 1)
    } else {
        changed_parts(stored, current, n - 1).push((n - 1) as usize)
    }
}

fn same_text(a: &str, b: &str) -> (r: bool)
    ensures
        r == (a@ == b@),
{
    let x = crate::text::to_chars(a);
    let y = crate::text::to_chars(b);
    crate::text::chars_eq(x.as_slice(), y.as_slice())
}

fn is_same_part(p: &PartIdentity, s: &ServerPart) -> (r: bool)
    ensures
        r == same_part(*p, *s),
{
    let id_same = match &s.id {
        Some(i) => same_text(i.as_str(), p.id.as_str()),
        None => false,
    };
    let key_same = match &s.key {
        Some(k) => same_text(k.as_str(), p.key.as_str()),
        None => false,
    };
    id_same && key_same && s.size == Some(p.size) && s.duration == Some(p.duration)
}

/// Which stored parts keep their downloads when a video is updated: all are
/// replaced when the number of parts changed, otherwise those the server no
/// longer describes.
pub fn parts_plan(stored: &Vec<PartIdentity>, current: &Vec<ServerPart>) -> (r: PartsPlan)
    ensures
        stored.len() != current.len() ==> r is ReplaceAll,
        stored.len() == current.len() ==> (r matches PartsPlan::Replace(v) && v@ == changed_parts(
            stored@,
            current@,
            stored.len() as int,
        )),
{
    if stored.len() != current.len() {
        return PartsPlan::ReplaceAll;
    }
    let mut changed: Vec<usize> = Vec::new();
    let mut i: usize = 0;
    while i < stored.len()
        invariant
            i <= stored.len(),
            stored.len() == current.len(),
            changed@ == changed_parts(stored@, current@, i as int),
        decreases stored.len() - i,
    {
        if !is_same_part(&stored[i], &current[i]) {
            changed.push(i);
        }
        i = i + 1;
    }
    PartsPlan::Replace(changed)
}

/// A stored part loses its download on an update exactly when the server no longer
/// describes it, and the parts are named in order, each once.
pub proof fn lemma_changed_parts(stored: Seq<PartIdentity>, current: Seq<ServerPart>, n: int)
    requires
        0 <= n <= stored.len(),
        stored.len() == current.len(),
        n <= usize::MAX,
    ensures
        forall|i: int|
            0 <= i < n ==> (changed_parts(stored, current, n).contains(i as usize) <==> !same_part(
                #[trigger] stored[i],
                current[i],
            )),
        forall|a: int, b: int|
            0 <= a < b < changed_parts(stored, current, n).len() ==> changed_parts(
                stored,
                current,
                n,
            )[a] < changed_parts(stored, current, n)[b],
        forall|a: int|
            0 <= a < changed_parts(stored, current, n).len() ==> changed_parts(stored, current, n)[a]
                < n,
    decreases n,
{
    if n > 0 {
        lemma_changed_parts(stored, current, n - 1);
        let prev = changed_parts(stored, current, n - 1);
        let now = changed_parts(stored, current, n);
        assert forall|i: int| 0 <= i < n implies (now.contains(i as usize) <==> !same_part(
            #[trigger] stored[i],
            current[i],
        )) by {
            if i < n - 1 {
                if !same_part(stored[n - 1], current[n - 1]) {
                    assert(now == prev.push((n - 1) as usize));
                    if now.contains(i as usize) {
                        let k = choose|k: int| 0 <= k < now.len() && now[k] == i as usize;
                        if k < prev.len() {
                            assert(prev[k] == i as usize);
                        }
                    }
                    if prev.contains(i as usize) {
                        let k = choose|k: int| 0 <= k < prev.len() && prev[k] == i as usize;
                        assert(now[k] == i as usize);
                    }
                }
            } else {
                if !same_part(stored[n - 1], current[n - 1]) {
                    assert(now[now.len() - 1] == (n - 1) as usize);
                } else {
                    if now.contains(i as usize) {
                        let k = choose|k: int| 0 <= k < now.len() && now[k] == i as usize;
                        assert(prev[k] < n - 1);
                    }
                }
            }
        }
    }
}

/// A part's download stops as downloaded exactly when it needs no download, and a
/// part that needs none gets no download job.
pub proof fn lemma_finished_downloads(d: DownloadState)
    ensures
        (d.download_step_spec() == DownloadStep::Finished) <==> d.is_local(),
        d.is_local() ==> d.transfer_state_spec() == TransferState::Downloaded,
{
}

} // verus!
