//! The web interface's live state: the log of recent sync events, the progress
//! bars of running downloads and transcodes, and the text of the events pushed
//! to browsers.
use vstd::prelude::*;

use std::cmp::Ordering;

use crate::names::{uniform_title, uniform_title_spec};
use crate::profile::{ordering_of, text_order, text_rank, to_ordering};
use crate::state::PlaybackState;
use crate::title_sort::Titled;
use crate::text::{
    chars_eq, decimal, push_decimal, push_str, slice_chars, starts_with, starts_with_chars, to_chars,
    trim, trim_spec,
};

verus! {

// ---------------------------------------------------------------------------
// Sync log messages
// ---------------------------------------------------------------------------

/// How many log entries the interface keeps.
pub const LOG_LIMIT: usize = 20;

/// How a log entry is shown.
#[derive(Debug, Clone, Copy, PartialEq, Eq, Structural)]
pub enum LogLevel {
    Info,
    Error,
    Success,
}

impl LogLevel {
    /// The name the page's styles use.
    pub fn as_str(&self) -> (r: &'static str)
        ensures
            r@ == match self {
                LogLevel::Info => "info"@,
                LogLevel::Error => "error"@,
                LogLevel::Success => "success"@,
            },
    {
        proof {
            reveal_strlit("info");
            reveal_strlit("error");
            reveal_strlit("success");
        }
        match self {
            LogLevel::Info => "info",
            LogLevel::Error => "error",
            LogLevel::Success => "success",
        }
    }
}

/// What happened during a sync. Servers are given by name, videos by title.
#[derive(Debug, Clone, PartialEq, Eq)]
pub enum SyncLogMessage {
    SyncStarted(String),
    SyncFailed(String, String),
    SyncFinished(String, bool),
    DownloadStarted(String),
    DownloadComplete(String),
    DownloadFailed(String, String),
    TranscodeStarted(String),
    TranscodeComplete(String),
    TranscodeFailed(String, String),
}

pub open spec fn log_level_spec(m: SyncLogMessage) -> LogLevel {
    match m {
        SyncLogMessage::SyncStarted(_) => LogLevel::Info,
        SyncLogMessage::SyncFailed(_, _) => LogLevel::Error,
        SyncLogMessage::SyncFinished(_, _) => LogLevel::Success,
        SyncLogMessage::DownloadStarted(_) => LogLevel::Info,
        SyncLogMessage::DownloadComplete(_) => LogLevel::Success,
        SyncLogMessage::DownloadFailed(_, _) => LogLevel::Error,
        SyncLogMessage::TranscodeStarted(_) => LogLevel::Info,
        SyncLogMessage::TranscodeComplete(_) => LogLevel::Success,
        SyncLogMessage::TranscodeFailed(_, _) => LogLevel::Error,
    }
}

pub open spec fn log_text_spec(m: SyncLogMessage) -> Seq<char> {
    match m {
        SyncLogMessage::SyncStarted(s) => "Syncing started for "@ + s@ + "."@,
        SyncLogMessage::SyncFailed(s, e) => "Syncing failed for "@ + s@ + ": "@ + e@,
        SyncLogMessage::SyncFinished(s, complete) => if complete {
            "Syncing finished for "@ + s@ + "."@
        } else {
            "Syncing finished for "@ + s@ + ", some items were not fully synced."@
        },
        SyncLogMessage::DownloadStarted(t) => "Download started for "@ + t@ + "."@,
        SyncLogMessage::DownloadComplete(t) => "Download complete for "@ + t@ + "."@,
        SyncLogMessage::DownloadFailed(t, e) => "Download failed for "@ + t@ + ": "@ + e@,
        SyncLogMessage::TranscodeStarted(t) => "Transcode started for "@ + t@ + "."@,
        SyncLogMessage::TranscodeComplete(t) => "Transcode complete for "@ + t@ + "."@,
        SyncLogMessage::TranscodeFailed(t, e) => "Transcode failed for "@ + t@ + ": "@ + e@,
    }
}

/// `lead`, then `name`, then `tail`.
fn sentence(lead: &str, name: &str, tail: &str) -> (r: String)
    ensures
        r@ == lead@ + name@ + tail@,
{
    let mut s = String::new();
    push_str(&mut s, lead);
    push_str(&mut s, name);
    push_str(&mut s, tail);
    proof {
        assert(s@ =~= lead@ + name@ + tail@);
    }
    s
}

/// `lead`, then `name`, then `: ` and the error.
fn failure(lead: &str, name: &str, error: &str) -> (r: String)
    ensures
        r@ == lead@ + name@ + ": "@ + error@,
{
    proof {
        reveal_strlit(": ");
    }
    let mut s = sentence(lead, name, ": ");
    push_str(&mut s, error);
    s
}

impl SyncLogMessage {
    /// How the message is shown, and its text.
    pub fn entry(&self) -> (r: (LogLevel, String))
        ensures
            r.0 == log_level_spec(*self),
            r.1@ == log_text_spec(*self),
    {
        proof {
            reveal_strlit("Syncing started for ");
            reveal_strlit("Syncing failed for ");
            reveal_strlit("Syncing finished for ");
            reveal_strlit(", some items were not fully synced.");
            reveal_strlit("Download started for ");
            reveal_strlit("Download complete for ");
            reveal_strlit("Download failed for ");
            reveal_strlit("Transcode started for ");
            reveal_strlit("Transcode complete for ");
            reveal_strlit("Transcode failed for ");
            reveal_strlit(".");
            reveal_strlit(": ");
        }
        match self {
            SyncLogMessage::SyncStarted(s) => (
                LogLevel::Info,
                sentence("Syncing started for ", s.as_str(), "."),
            ),
            SyncLogMessage::SyncFailed(s, e) => (
                LogLevel::Error,
                failure("Syncing failed for ", s.as_str(), e.as_str()),
            ),
            SyncLogMessage::SyncFinished(s, complete) => if *complete {
                (LogLevel::Success, sentence("Syncing finished for ", s.as_str(), "."))
            } else {
                (
                    LogLevel::Success,
                    sentence(
                        "Syncing finished for ",
                        s.as_str(),
                        ", some items were not fully synced.",
                    ),
                )
            },
            SyncLogMessage::DownloadStarted(t) => (
                LogLevel::Info,
                sentence("Download started for ", t.as_str(), "."),
            ),
            SyncLogMessage::DownloadComplete(t) => (
                LogLevel::Success,
                sentence("Download complete for ", t.as_str(), "."),
            ),
            SyncLogMessage::DownloadFailed(t, e) => (
                LogLevel::Error,
                failure("Download failed for ", t.as_str(), e.as_str()),
            ),
            SyncLogMessage::TranscodeStarted(t) => (
                LogLevel::Info,
                sentence("Transcode started for ", t.as_str(), "."),
            ),
            SyncLogMessage::TranscodeComplete(t) => (
                LogLevel::Success,
                sentence("Transcode complete for ", t.as_str(), "."),
            ),
            SyncLogMessage::TranscodeFailed(t, e) => (
                LogLevel::Error,
                failure("Transcode failed for ", t.as_str(), e.as_str()),
            ),
        }
    }
}

// ---------------------------------------------------------------------------
// Sync status: the log and the progress bars
// ---------------------------------------------------------------------------

/// A log entry: when it happened (RFC 3339) and what.
#[derive(Debug, Clone, PartialEq, Eq)]
pub struct SyncLogItem {
    pub timestamp: String,
    pub message: SyncLogMessage,
}

/// The progress of a download or a transcode of a video. A download's length is
/// not known until the server says; a transcode counts in percent.
#[derive(Debug, Clone, PartialEq, Eq)]
pub struct ProgressBar {
    pub video_id: String,
    pub is_download: bool,
    pub title: String,
    pub position: u64,
    pub length: Option<u64>,
}

impl ProgressBar {
    /// The bar of a download or transcode that has just started.
    pub fn started(video_id: String, is_download: bool, title: String) -> (r: ProgressBar)
        ensures
            r.video_id == video_id,
            r.is_download == is_download,
            r.title == title,
            r.position == 0,
            r.length == if is_download {
                None
            } else {
                Some(100u64)
            },
    {
        ProgressBar {
            video_id,
            is_download,
            title,
            position: 0,
            length: if is_download {
                None
            } else {
                Some(100)
            },
        }
    }

    /// What tells two bars apart: the video and whether it is a download.
    pub open spec fn key(&self) -> (Seq<char>, bool) {
        (self.video_id@, self.is_download)
    }

    /// The same bar.
    pub fn copied(&self) -> (r: ProgressBar)
        ensures
            r == *self,
    {
        ProgressBar {
            video_id: self.video_id.clone(),
            is_download: self.is_download,
            title: self.title.clone(),
            position: self.position,
            length: self.length,
        }
    }
}

/// The key under which a bar is kept: `<video id>:D` for a download, `:T` for a
/// transcode.
pub fn progress_key(video_id: &str, is_download: bool) -> (r: String)
    ensures
        r@ == video_id@ + if is_download {
            ":D"@
        } else {
            ":T"@
        },
{
    proof {
        reveal_strlit(":D");
        reveal_strlit(":T");
    }
    let mut s = String::new();
    push_str(&mut s, video_id);
    if is_download {
        push_str(&mut s, ":D");
    } else {
        push_str(&mut s, ":T");
    }
    proof {
        assert(s@ =~= video_id@ + if is_download {
            ":D"@
        } else {
            ":T"@
        });
    }
    s
}

/// Whether a moved position is worth showing: a bar of known length moves when
/// its whole percentage grows; one of unknown length when it moved more than a
/// MiB either way.
pub open spec fn should_report_spec(length: Option<u64>, current: u64, position: u64) -> bool {
    match length {
        Some(l) => (100 * position) / (l as int) > (100 * current) / (l as int),
        None => if position >= current {
            position - current > 1024 * 1024
        } else {
            current - position > 1024 * 1024
        },
    }
}

pub fn should_report(length: Option<u64>, current: u64, position: u64) -> (r: bool)
    requires
        length != Some(0u64),
        length is Some ==> 100 * current <= u64::MAX && 100 * position <= u64::MAX,
    ensures
        r == should_report_spec(length, current, position),
{
    match length {
        Some(l) => (100 * position) / l > (100 * current) / l,
        None => {
            let diff = if position >= current {
                position - current
            } else {
                current - position
            };
            diff > 1024 * 1024
        },
    }
}

/// The log with `item` added last, keeping the newest `LOG_LIMIT` entries.
pub open spec fn bounded_log(log: Seq<SyncLogItem>) -> Seq<SyncLogItem> {
    if log.len() > LOG_LIMIT {
        log.skip(log.len() - LOG_LIMIT)
    } else {
        log
    }
}

/// No two bars share a key.
pub open spec fn keys_unique(bars: Seq<ProgressBar>) -> bool {
    forall|i: int, j: int| 0 <= i < j < bars.len() ==> bars[i].key() != bars[j].key()
}

/// Whether some bar has a key.
pub open spec fn has_key(bars: Seq<ProgressBar>, key: (Seq<char>, bool)) -> bool {
    exists|i: int| 0 <= i < bars.len() && #[trigger] bars[i].key() == key
}

/// Where the bar with a key is.
pub open spec fn key_index(bars: Seq<ProgressBar>, key: (Seq<char>, bool)) -> int {
    choose|i: int| 0 <= i < bars.len() && #[trigger] bars[i].key() == key
}

/// The bar with a key, if there is one.
pub open spec fn bar_of(bars: Seq<ProgressBar>, key: (Seq<char>, bool)) -> Option<ProgressBar> {
    if has_key(bars, key) {
        Some(bars[key_index(bars, key)])
    } else {
        None
    }
}

/// The bars after `bar` is shown: it takes the place of the bar with its key, or
/// comes last.
pub open spec fn with_bar(bars: Seq<ProgressBar>, bar: ProgressBar) -> Seq<ProgressBar> {
    if has_key(bars, bar.key()) {
        bars.update(key_index(bars, bar.key()), bar)
    } else {
        bars.push(bar)
    }
}

/// The bars after the one with a key is changed by `f`, if there is one.
pub open spec fn changed_bar(
    bars: Seq<ProgressBar>,
    key: (Seq<char>, bool),
    f: spec_fn(ProgressBar) -> ProgressBar,
) -> Seq<ProgressBar> {
    if has_key(bars, key) {
        let i = key_index(bars, key);
        bars.update(i, f(bars[i]))
    } else {
        bars
    }
}

/// The bars after the one with a key is removed, if there is one.
pub open spec fn without_bar(bars: Seq<ProgressBar>, key: (Seq<char>, bool)) -> Seq<ProgressBar> {
    if has_key(bars, key) {
        bars.remove(key_index(bars, key))
    } else {
        bars
    }
}

/// The bars of known length, in order.
pub open spec fn shown_bars(bars: Seq<ProgressBar>) -> Seq<ProgressBar>
    decreases bars.len(),
{
    if bars.len() == 0 {
        bars
    } else {
        let rest = shown_bars(bars.drop_last());
        if bars.last().length is Some {
            rest.push(bars.last())
        } else {
            rest
        }
    }
}

/// Whether the interface is syncing, the recent log and the running bars.
pub struct SyncStatus {
    pub is_syncing: bool,
    pub log: std::collections::VecDeque<SyncLogItem>,
    pub bars: Vec<ProgressBar>,
}

impl SyncStatus {
    pub open spec fn wf(&self) -> bool {
        &&& self.log@.len() <= LOG_LIMIT
        &&& keys_unique(self.bars@)
    }

    pub fn new() -> (r: SyncStatus)
        ensures
            r.wf(),
            !r.is_syncing,
            r.log@.len() == 0,
            r.bars@.len() == 0,
    {
        SyncStatus { is_syncing: false, log: std::collections::VecDeque::new(), bars: Vec::new() }
    }

    /// Adds a log entry, dropping the oldest beyond `LOG_LIMIT`.
    pub fn push_log(&mut self, item: SyncLogItem)
        requires
            old(self).wf(),
        ensures
            final(self).wf(),
            final(self).log@ == bounded_log(old(self).log@.push(item)),
            final(self).bars == old(self).bars,
            final(self).is_syncing == old(self).is_syncing,
    {
        let ghost full = self.log@.push(item);
        self.log.push_back(item);
        if self.log.len() > LOG_LIMIT {
            self.log.pop_front();
            proof {
                assert(self.log@ =~= full.skip(full.len() - LOG_LIMIT));
            }
        }
    }

    /// Where the bar with a key is.
    fn position_of(&self, video_id: &str, is_download: bool) -> (r: Option<usize>)
        requires
            keys_unique(self.bars@),
        ensures
            match r {
                Some(i) => has_key(self.bars@, (video_id@, is_download)) && i == key_index(
                    self.bars@,
                    (video_id@, is_download),
                ),
                None => !has_key(self.bars@, (video_id@, is_download)),
            },
    {
        let target = to_chars(video_id);
        let mut i: usize = 0;
        while i < self.bars.len()
            invariant
                i <= self.bars.len(),
                target@ == video_id@,
                keys_unique(self.bars@),
                forall|j: int|
                    0 <= j < i ==> #[trigger] self.bars@[j].key() != (video_id@, is_download),
            decreases self.bars.len() - i,
        {
            let id = to_chars(self.bars[i].video_id.as_str());
            if self.bars[i].is_download == is_download && chars_eq(id.as_slice(), target.as_slice()) {
                proof {
                    let key = (video_id@, is_download);
                    assert(self.bars@[i as int].key() == key);
                    let c = choose|k: int| 0 <= k < self.bars.len() && #[trigger] self.bars@[k].key() == key;
                    if c < i {
                        assert(self.bars@[c].key() != self.bars@[i as int].key());
                    }
                    if c > i {
                        assert(self.bars@[i as int].key() != self.bars@[c].key());
                    }
                }
                return Some(i);
            }
            i = i + 1;
        }
        None
    }

    /// Starts showing a bar, replacing one with the same key.
    pub fn add_progress(&mut self, bar: ProgressBar)
        requires
            old(self).wf(),
        ensures
            final(self).wf(),
            final(self).log == old(self).log,
            final(self).is_syncing == old(self).is_syncing,
            final(self).bars@ == with_bar(old(self).bars@, bar),
    {
        proof {
            lemma_with_bar_unique(self.bars@, bar);
        }
        match self.position_of(bar.video_id.as_str(), bar.is_download) {
            Some(i) => {
                self.bars.set(i, bar);
            },
            None => {
                self.bars.push(bar);
            },
        }
    }

    /// Sets the length of the bar with a key; whether there was one.
    pub fn update_length(&mut self, video_id: &str, is_download: bool, length: u64) -> (r: bool)
        requires
            old(self).wf(),
        ensures
            final(self).wf(),
            final(self).log == old(self).log,
            final(self).is_syncing == old(self).is_syncing,
            r == has_key(old(self).bars@, (video_id@, is_download)),
            final(self).bars@ == changed_bar(
                old(self).bars@,
                (video_id@, is_download),
                |b: ProgressBar| ProgressBar { length: Some(length), ..b },
            ),
    {
        match self.position_of(video_id, is_download) {
            Some(i) => {
                let mut b = self.bars[i].copied();
                b.length = Some(length);
                proof {
                    lemma_changed_unique(self.bars@, i as int, b);
                }
                self.bars.set(i, b);
                true
            },
            None => false,
        }
    }

    /// Moves the bar with a key; whether there was one.
    pub fn update_progress(&mut self, video_id: &str, is_download: bool, position: u64) -> (r: bool)
        requires
            old(self).wf(),
        ensures
            final(self).wf(),
            final(self).log == old(self).log,
            final(self).is_syncing == old(self).is_syncing,
            r == has_key(old(self).bars@, (video_id@, is_download)),
            final(self).bars@ == changed_bar(
                old(self).bars@,
                (video_id@, is_download),
                |b: ProgressBar| ProgressBar { position, ..b },
            ),
    {
        match self.position_of(video_id, is_download) {
            Some(i) => {
                let mut b = self.bars[i].copied();
                b.position = position;
                proof {
                    lemma_changed_unique(self.bars@, i as int, b);
                }
                self.bars.set(i, b);
                true
            },
            None => false,
        }
    }

    /// Stops showing the bar with a key; whether there was one.
    pub fn remove_progress(&mut self, video_id: &str, is_download: bool) -> (r: bool)
        requires
            old(self).wf(),
        ensures
            final(self).wf(),
            final(self).log == old(self).log,
            final(self).is_syncing == old(self).is_syncing,
            r == has_key(old(self).bars@, (video_id@, is_download)),
            final(self).bars@ == without_bar(old(self).bars@, (video_id@, is_download)),
    {
        match self.position_of(video_id, is_download) {
            Some(i) => {
                let ghost before = self.bars@;
                self.bars.remove(i);
                proof {
                    assert forall|a: int, b: int| 0 <= a < b < self.bars.len() implies self.bars@[a].key()
                        != self.bars@[b].key() by {
                        let a0 = if a < i { a } else { a + 1 };
                        let b0 = if b < i { b } else { b + 1 };
                        assert(self.bars@[a] == before[a0]);
                        assert(self.bars@[b] == before[b0]);
                        assert(before[a0].key() != before[b0].key());
                    }
                }
                true
            },
            None => false,
        }
    }

    /// The bars of known length, in order: those the page shows.
    pub fn visible_bars(&self) -> (r: Vec<ProgressBar>)
        ensures
            r@ == shown_bars(self.bars@),
    {
        let mut out: Vec<ProgressBar> = Vec::new();
        let mut i: usize = 0;
        while i < self.bars.len()
            invariant
                i <= self.bars.len(),
                out@ == shown_bars(self.bars@.take(i as int)),
            decreases self.bars.len() - i,
        {
            let ghost t = self.bars@.take(i + 1);
            proof {
                assert(t.drop_last() =~= self.bars@.take(i as int));
                assert(t.last() == self.bars@[i as int]);
            }
            if self.bars[i].length.is_some() {
                out.push(self.bars[i].copied());
            }
            proof {
                assert(out@ =~= shown_bars(t));
            }
            i = i + 1;
        }
        proof {
            assert(self.bars@.take(i as int) =~= self.bars@);
        }
        out
    }
}

/// Showing a bar keeps keys apart.
proof fn lemma_with_bar_unique(bars: Seq<ProgressBar>, bar: ProgressBar)
    requires
        keys_unique(bars),
    ensures
        keys_unique(with_bar(bars, bar)),
{
    let r = with_bar(bars, bar);
    if has_key(bars, bar.key()) {
        let k = key_index(bars, bar.key());
        assert forall|a: int, b: int| 0 <= a < b < r.len() implies r[a].key() != r[b].key() by {
            if a == k {
                assert(bars[b].key() != bars[k].key());
            } else if b == k {
                assert(bars[a].key() != bars[k].key());
            } else {
                assert(bars[a].key() != bars[b].key());
            }
        }
    } else {
        assert forall|a: int, b: int| 0 <= a < b < r.len() implies r[a].key() != r[b].key() by {
            if b == bars.len() {
                assert(r[a] == bars[a]);
                if bars[a].key() == bar.key() {
                    assert(has_key(bars, bar.key()));
                }
            } else {
                assert(bars[a].key() != bars[b].key());
            }
        }
    }
}

/// Changing a bar but not its key keeps keys apart.
proof fn lemma_changed_unique(bars: Seq<ProgressBar>, i: int, bar: ProgressBar)
    requires
        keys_unique(bars),
        0 <= i < bars.len(),
        bar.key() == bars[i].key(),
    ensures
        keys_unique(bars.update(i, bar)),
{
    let r = bars.update(i, bar);
    assert forall|a: int, b: int| 0 <= a < b < r.len() implies r[a].key() != r[b].key() by {
        assert(bars[a].key() != bars[b].key());
    }
}


/// Reading a bar back after showing it gives that bar; bars of other keys are
/// as they were.
pub proof fn lemma_read_shown_bar(bars: Seq<ProgressBar>, bar: ProgressBar, other: (Seq<char>, bool))
    requires
        keys_unique(bars),
    ensures
        bar_of(with_bar(bars, bar), bar.key()) == Some(bar),
        other != bar.key() ==> bar_of(with_bar(bars, bar), other) == bar_of(bars, other),
{
    let r = with_bar(bars, bar);
    lemma_with_bar_unique(bars, bar);
    let w = if has_key(bars, bar.key()) {
        key_index(bars, bar.key())
    } else {
        bars.len() as int
    };
    assert(r[w] == bar);
    lemma_key_index_unique(r, bar.key(), w);
    if other != bar.key() {
        if has_key(bars, other) {
            let k = key_index(bars, other);
            assert(r[k] == bars[k]);
            lemma_key_index_unique(r, other, k);
        } else {
            assert forall|i: int| 0 <= i < r.len() implies r[i].key() != other by {
                if i != w {
                    assert(r[i] == bars[i]);
                }
            }
        }
    }
}

/// A removed bar reads back as none; bars of other keys are as they were.
pub proof fn lemma_read_removed_bar(bars: Seq<ProgressBar>, key: (Seq<char>, bool), other: (Seq<char>, bool))
    requires
        keys_unique(bars),
    ensures
        bar_of(without_bar(bars, key), key) is None,
        other != key ==> bar_of(without_bar(bars, key), other) == bar_of(bars, other),
{
    let r = without_bar(bars, key);
    if has_key(bars, key) {
        let w = key_index(bars, key);
        assert forall|i: int| 0 <= i < r.len() implies r[i].key() != key by {
            let i0 = if i < w { i } else { i + 1 };
            assert(r[i] == bars[i0]);
            if i0 < w {
                assert(bars[i0].key() != bars[w].key());
            } else {
                assert(bars[w].key() != bars[i0].key());
            }
        }
        if other != key {
            if has_key(bars, other) {
                let k = key_index(bars, other);
                let k1 = if k < w { k } else { k - 1 };
                assert(k != w);
                assert(r[k1] == bars[k]);
                assert forall|a: int, b: int| 0 <= a < b < r.len() implies r[a].key() != r[b].key() by {
                    let a0 = if a < w { a } else { a + 1 };
                    let b0 = if b < w { b } else { b + 1 };
                    assert(r[a] == bars[a0]);
                    assert(r[b] == bars[b0]);
                    assert(bars[a0].key() != bars[b0].key());
                }
                lemma_key_index_unique(r, other, k1);
            } else {
                assert forall|i: int| 0 <= i < r.len() implies r[i].key() != other by {
                    let i0 = if i < w { i } else { i + 1 };
                    assert(r[i] == bars[i0]);
                }
            }
        }
    }
}

/// With keys apart, the bar found for a key is the one at any place holding it.
proof fn lemma_key_index_unique(bars: Seq<ProgressBar>, key: (Seq<char>, bool), i: int)
    requires
        keys_unique(bars),
        0 <= i < bars.len(),
        bars[i].key() == key,
    ensures
        has_key(bars, key),
        key_index(bars, key) == i,
        bar_of(bars, key) == Some(bars[i]),
{
    let k = key_index(bars, key);
    if k < i {
        assert(bars[k].key() != bars[i].key());
    } else if k > i {
        assert(bars[i].key() != bars[k].key());
    }
}

/// The log keeps the newest entries, the one just added last, and no more than
/// `LOG_LIMIT`.
pub proof fn lemma_log_keeps_newest(log: Seq<SyncLogItem>, item: SyncLogItem)
    requires
        log.len() <= LOG_LIMIT,
    ensures
        bounded_log(log.push(item)).len() == if log.len() < LOG_LIMIT {
            log.len() + 1
        } else {
            LOG_LIMIT as nat
        },
        bounded_log(log.push(item)).last() == item,
        bounded_log(log.push(item)) =~= log.push(item).skip(
            log.push(item).len() - bounded_log(log.push(item)).len(),
        ),
{
}


// ---------------------------------------------------------------------------
// Thumbnails
// ---------------------------------------------------------------------------

/// An item shown as a thumbnail: its page, its image and its name; a video also
/// shows how far it has been watched, in milliseconds.
#[derive(Debug, Clone, PartialEq, Eq)]
pub struct Thumbnail {
    pub id: String,
    pub url: String,
    pub image: String,
    pub name: String,
    pub position: Option<u128>,
    pub duration: Option<u128>,
}

/// `/library/<server>/<library>/<kind>/<id>`.
pub open spec fn library_link(server: Seq<char>, library: Seq<char>, kind: Seq<char>, id: Seq<char>) -> Seq<char> {
    "/library/"@ + server + "/"@ + library + "/"@ + kind + "/"@ + id
}

/// `/thumbnail/<server>/<kind>/<id>`.
pub open spec fn thumbnail_link(server: Seq<char>, kind: Seq<char>, id: Seq<char>) -> Seq<char> {
    "/thumbnail/"@ + server + "/"@ + kind + "/"@ + id
}

fn library_link_exec(server: &str, library: &str, kind: &str, id: &str) -> (r: String)
    ensures
        r@ == library_link(server@, library@, kind@, id@),
{
    proof {
        reveal_strlit("/library/");
        reveal_strlit("/");
    }
    let mut s = String::new();
    push_str(&mut s, "/library/");
    push_str(&mut s, server);
    push_str(&mut s, "/");
    push_str(&mut s, library);
    push_str(&mut s, "/");
    push_str(&mut s, kind);
    push_str(&mut s, "/");
    push_str(&mut s, id);
    proof {
        assert(s@ =~= library_link(server@, library@, kind@, id@));
    }
    s
}

fn thumbnail_link_exec(server: &str, kind: &str, id: &str) -> (r: String)
    ensures
        r@ == thumbnail_link(server@, kind@, id@),
{
    proof {
        reveal_strlit("/thumbnail/");
        reveal_strlit("/");
    }
    let mut s = String::new();
    push_str(&mut s, "/thumbnail/");
    push_str(&mut s, server);
    push_str(&mut s, "/");
    push_str(&mut s, kind);
    push_str(&mut s, "/");
    push_str(&mut s, id);
    proof {
        assert(s@ =~= thumbnail_link(server@, kind@, id@));
    }
    s
}

/// How far a video has been watched: nothing when unplayed, all of it when
/// played.
pub open spec fn watched_spec(state: PlaybackState, duration: u128) -> u128 {
    match state {
        PlaybackState::Unplayed => 0,
        PlaybackState::InProgress { position } => position as u128,
        PlaybackState::Played => duration,
    }
}

impl Thumbnail {
    /// A season, shown with its show's image.
    pub fn season(server: &str, library: &str, season: &str, show: &str, title: String) -> (r: Thumbnail)
        ensures
            r.id@ == season@,
            r.url@ == library_link(server@, library@, "season"@, season@),
            r.image@ == thumbnail_link(server@, "show"@, show@),
            r.name == title,
            r.position is None,
            r.duration is None,
    {
        proof {
            reveal_strlit("season");
            reveal_strlit("show");
        }
        Thumbnail {
            id: season.to_owned(),
            url: library_link_exec(server, library, "season", season),
            image: thumbnail_link_exec(server, "show", show),
            name: title,
            position: None,
            duration: None,
        }
    }

    /// A show.
    pub fn show(server: &str, library: &str, show: &str, title: String) -> (r: Thumbnail)
        ensures
            r.id@ == show@,
            r.url@ == library_link(server@, library@, "show"@, show@),
            r.image@ == thumbnail_link(server@, "show"@, show@),
            r.name == title,
            r.position is None,
            r.duration is None,
    {
        proof {
            reveal_strlit("show");
        }
        Thumbnail {
            id: show.to_owned(),
            url: library_link_exec(server, library, "show", show),
            image: thumbnail_link_exec(server, "show", show),
            name: title,
            position: None,
            duration: None,
        }
    }

    /// A video, with how far it has been watched of its duration.
    pub fn video(
        server: &str,
        library: &str,
        video: &str,
        title: String,
        state: PlaybackState,
        duration: u128,
    ) -> (r: Thumbnail)
        ensures
            r.id@ == video@,
            r.url@ == library_link(server@, library@, "video"@, video@),
            r.image@ == thumbnail_link(server@, "video"@, video@),
            r.name == title,
            r.position == Some(watched_spec(state, duration)),
            r.duration == Some(duration),
    {
        proof {
            reveal_strlit("video");
        }
        let position: u128 = match state {
            PlaybackState::Unplayed => 0,
            PlaybackState::InProgress { position } => position as u128,
            PlaybackState::Played => duration,
        };
        Thumbnail {
            id: video.to_owned(),
            url: library_link_exec(server, library, "video", video),
            image: thumbnail_link_exec(server, "video", video),
            name: title,
            position: Some(position),
            duration: Some(duration),
        }
    }

    /// A collection.
    pub fn collection(server: &str, library: &str, collection: &str, title: String) -> (r: Thumbnail)
        ensures
            r.id@ == collection@,
            r.url@ == library_link(server@, library@, "collection"@, collection@),
            r.image@ == thumbnail_link(server@, "collection"@, collection@),
            r.name == title,
            r.position is None,
            r.duration is None,
    {
        proof {
            reveal_strlit("collection");
        }
        Thumbnail {
            id: collection.to_owned(),
            url: library_link_exec(server, library, "collection", collection),
            image: thumbnail_link_exec(server, "collection", collection),
            name: title,
            position: None,
            duration: None,
        }
    }
}

/// Thumbnails are listed by their names, lower cased, trimmed and without a
/// leading "a " or "the ".
impl Titled for Thumbnail {
    open spec fn title_key(&self) -> Seq<char> {
        uniform_title_spec(self.name@)
    }

    fn title_key_exec(&self) -> (r: Vec<char>) {
        let t = uniform_title(self.name.as_str());
        to_chars(t.as_str())
    }
}

/// The order thumbnails are listed in: by their names, lower cased and without a
/// leading article.
pub fn title_order(a: &str, b: &str) -> (r: Ordering)
    ensures
        r == ordering_of(text_order(uniform_title_spec(a@), uniform_title_spec(b@))),
{
    let x = uniform_title(a);
    let y = uniform_title(b);
    let xs = to_chars(x.as_str());
    let ys = to_chars(y.as_str());
    to_ordering(text_rank(xs.as_slice(), ys.as_slice()))
}

// ---------------------------------------------------------------------------
// Events pushed to the browser
// ---------------------------------------------------------------------------

/// What the page is told of.
pub enum Event {
    SyncStart,
    SyncChange,
    SyncEnd,
    Log(SyncLogItem),
    Progress(Vec<ProgressBar>),
    ThumbnailUpdate(Thumbnail),
}

impl Event {
    /// The name the page listens for.
    pub fn event_name(&self) -> (r: String)
        ensures
            r@ == match self {
                Event::SyncStart | Event::SyncEnd => "sync-status"@,
                Event::Log(_) => "sync-log"@,
                Event::SyncChange => "sync-change"@,
                Event::Progress(_) => "sync-progress"@,
                Event::ThumbnailUpdate(t) => "thumbnail-"@ + t.id@,
            },
    {
        proof {
            reveal_strlit("sync-status");
            reveal_strlit("sync-log");
            reveal_strlit("sync-change");
            reveal_strlit("sync-progress");
            reveal_strlit("thumbnail-");
        }
        match self {
            Event::SyncStart | Event::SyncEnd => "sync-status".to_owned(),
            Event::Log(_) => "sync-log".to_owned(),
            Event::SyncChange => "sync-change".to_owned(),
            Event::Progress(_) => "sync-progress".to_owned(),
            Event::ThumbnailUpdate(t) => {
                let mut s = "thumbnail-".to_owned();
                push_str(&mut s, t.id.as_str());
                s
            },
        }
    }

    /// The markup of the status events, which need no template.
    pub fn status_markup(&self) -> (r: Option<&'static str>)
        ensures
            match self {
                Event::SyncStart => r matches Some(m) && m == syncing_markup_spec(),
                Event::SyncEnd => r matches Some(m) && m == idle_markup_spec(),
                _ => r is None,
            },
    {
        match self {
            Event::SyncStart => Some(syncing_markup()),
            Event::SyncEnd => Some(idle_markup()),
            _ => None,
        }
    }
}

/// The status shown while syncing.
pub open spec fn syncing_markup_spec() -> &'static str {
    "<sl-icon id=\"spinner\" class=\"spinning\" name=\"arrow-repeat\"></sl-icon> Syncing"
}

pub fn syncing_markup() -> (r: &'static str)
    ensures
        r == syncing_markup_spec(),
{
    "<sl-icon id=\"spinner\" class=\"spinning\" name=\"arrow-repeat\"></sl-icon> Syncing"
}

/// The status shown between syncs.
pub open spec fn idle_markup_spec() -> &'static str {
    "<sl-icon id=\"spinner\" class=\"paused\" name=\"arrow-repeat\"></sl-icon> Status"
}

pub fn idle_markup() -> (r: &'static str)
    ensures
        r == idle_markup_spec(),
{
    "<sl-icon id=\"spinner\" class=\"paused\" name=\"arrow-repeat\"></sl-icon> Status"
}

/// The lines of an event's data, each after `data: `: every line break starts
/// a new `data: ` line.
pub open spec fn data_lines(t: Seq<char>) -> Seq<char>
    decreases t.len(),
{
    if t.len() == 0 {
        Seq::empty()
    } else {
        data_lines(t.drop_last()) + if t.last() == '\n' {
            "\ndata: "@
        } else {
            seq![t.last()]
        }
    }
}

/// A server sent event: its name, then its data, trimmed, as `data:` lines.
pub open spec fn event_text_spec(name: Seq<char>, data: Seq<char>) -> Seq<char> {
    "event: "@ + name + "\n"@ + "data: "@ + data_lines(trim_spec(data)) + "\n\n"@
}

pub fn event_text(name: &str, data: &str) -> (r: String)
    ensures
        r@ == event_text_spec(name@, data@),
{
    proof {
        reveal_strlit("event: ");
        reveal_strlit("\n");
        reveal_strlit("data: ");
        reveal_strlit("\ndata: ");
        reveal_strlit("\n\n");
    }
    let chars = to_chars(data);
    let t = trim(chars.as_slice());
    let mut s = String::new();
    push_str(&mut s, "event: ");
    push_str(&mut s, name);
    push_str(&mut s, "\n");
    push_str(&mut s, "data: ");
    let ghost lead = s@;
    let mut i: usize = 0;
    while i < t.len()
        invariant
            i <= t.len(),
            s@ == lead + data_lines(t@.take(i as int)),
        decreases t.len() - i,
    {
        proof {
            assert(t@.take(i + 1).drop_last() =~= t@.take(i as int));
            assert(t@.take(i + 1).last() == t@[i as int]);
        }
        if t[i] == '\n' {
            push_str(&mut s, "\ndata: ");
        } else {
            s.push(t[i]);
        }
        proof {
            assert(s@ =~= lead + data_lines(t@.take(i + 1)));
        }
        i = i + 1;
    }
    proof {
        assert(t@.take(i as int) =~= t@);
    }
    push_str(&mut s, "\n\n");
    proof {
        assert(s@ =~= event_text_spec(name@, data@));
    }
    s
}


// ---------------------------------------------------------------------------
// Requests and pages
// ---------------------------------------------------------------------------

/// Requests are logged by the interface unless they are the media server's,
/// under `/upnp/`.
pub fn is_logged(path: &str) -> (r: bool)
    ensures
        r == !starts_with(path@, "/upnp/"@),
{
    proof {
        reveal_strlit("/upnp/");
    }
    let p = to_chars(path);
    let u = to_chars("/upnp/");
    !starts_with_chars(p.as_slice(), u.as_slice())
}

/// How a response is logged.
#[derive(Debug, Clone, Copy, PartialEq, Eq, Structural)]
pub enum ResponseLog {
    /// A warning that the server failed (`5xx`).
    ServerFailure,
    /// A warning of a bad request (`4xx`).
    BadRequest,
    /// A trace of anything else.
    Trace,
}

pub fn response_log(status: u16) -> (r: ResponseLog)
    ensures
        r == if 500 <= status < 600 {
            ResponseLog::ServerFailure
        } else if 400 <= status < 500 {
            ResponseLog::BadRequest
        } else {
            ResponseLog::Trace
        },
{
    if 500 <= status && status < 600 {
        ResponseLog::ServerFailure
    } else if 400 <= status && status < 500 {
        ResponseLog::BadRequest
    } else {
        ResponseLog::Trace
    }
}

/// Where a page's links to streams start: the address the connection came in on,
/// without the port when it is 443, or nothing when that is not known.
pub open spec fn url_base_spec(local: Option<(Seq<char>, Seq<char>, u16)>) -> Seq<char> {
    match local {
        Some((ip, addr, port)) => if port == 443 {
            "http://"@ + ip + "/"@
        } else {
            "http://"@ + addr + "/"@
        },
        None => Seq::empty(),
    }
}

/// `local` holds the local address's IP, the address with its port, and the port.
pub fn url_base(local: Option<(&str, &str, u16)>) -> (r: String)
    ensures
        r@ == url_base_spec(
            match local {
                Some((ip, addr, port)) => Some((ip@, addr@, port)),
                None => None,
            },
        ),
{
    proof {
        reveal_strlit("http://");
        reveal_strlit("/");
    }
    let mut s = String::new();
    match local {
        Some((ip, addr, port)) => {
            push_str(&mut s, "http://");
            if port == 443 {
                push_str(&mut s, ip);
            } else {
                push_str(&mut s, addr);
            }
            push_str(&mut s, "/");
        },
        None => {},
    }
    proof {
        assert(s@ =~= url_base_spec(
            match local {
                Some((ip, addr, port)) => Some((ip@, addr@, port)),
                None => None,
            },
        ));
    }
    s
}

/// `<base>stream/<server>/<video>/<part>`: where a part of a video is streamed.
pub open spec fn stream_url_spec(base: Seq<char>, server: Seq<char>, video: Seq<char>, part: nat) -> Seq<char> {
    base + "stream/"@ + server + "/"@ + video + "/"@ + decimal(part)
}

pub fn stream_url(base: &str, server: &str, video: &str, part: u64) -> (r: String)
    ensures
        r@ == stream_url_spec(base@, server@, video@, part as nat),
{
    proof {
        reveal_strlit("stream/");
        reveal_strlit("/");
    }
    let mut s = String::new();
    push_str(&mut s, base);
    push_str(&mut s, "stream/");
    push_str(&mut s, server);
    push_str(&mut s, "/");
    push_str(&mut s, video);
    push_str(&mut s, "/");
    push_decimal(&mut s, part);
    proof {
        assert(s@ =~= stream_url_spec(base@, server@, video@, part as nat));
    }
    s
}

/// The type a bundled resource is served as.
#[derive(Debug, Clone, Copy, PartialEq, Eq, Structural)]
pub enum ResourceType {
    JavaScript,
    Css,
    Svg,
    Binary,
}

/// The text after the last `.`, if there is one.
pub open spec fn extension(s: Seq<char>) -> Option<Seq<char>> {
    if exists|i: int| 0 <= i < s.len() && s[i] == '.' {
        let i = choose|i: int|
            0 <= i < s.len() && s[i] == '.' && forall|j: int| i < j < s.len() ==> s[j] != '.';
        Some(s.skip(i + 1))
    } else {
        None
    }
}

pub open spec fn resource_type_spec(path: Seq<char>) -> ResourceType {
    match extension(path) {
        Some(e) => if e == "js"@ {
            ResourceType::JavaScript
        } else if e == "css"@ {
            ResourceType::Css
        } else if e == "svg"@ {
            ResourceType::Svg
        } else {
            ResourceType::Binary
        },
        None => ResourceType::Binary,
    }
}

fn extension_exec(path: &[char]) -> (r: Option<Vec<char>>)
    ensures
        match extension(path@) {
            Some(e) => r matches Some(v) && v@ == e,
            None => r is None,
        },
{
    let mut i = path.len();
    while i > 0
        invariant
            i <= path.len(),
            forall|j: int| i <= j < path.len() ==> path@[j] != '.',
        decreases i,
    {
        if path[i - 1] == '.' {
            let rest = slice_chars(path, i, path.len());
            proof {
                let w = (i - 1) as int;
                assert(exists|k: int| 0 <= k < path@.len() && path@[k] == '.');
                let c = choose|k: int|
                    0 <= k < path@.len() && path@[k] == '.' && forall|j: int|
                        k < j < path@.len() ==> path@[j] != '.';
                assert(c == w) by {
                    if c < w {
                        assert(path@[w] == '.');
                    }
                    if c > w {
                        assert(path@[c] != '.');
                    }
                }
                assert(rest@ =~= path@.skip(w + 1));
            }
            return Some(rest);
        }
        i = i - 1;
    }
    None
}

/// The type of a bundled resource, by the extension of its path.
pub fn resource_type(path: &str) -> (r: ResourceType)
    ensures
        r == resource_type_spec(path@),
{
    proof {
        reveal_strlit("js");
        reveal_strlit("css");
        reveal_strlit("svg");
    }
    let p = to_chars(path);
    match extension_exec(p.as_slice()) {
        Some(e) => {
            let js = to_chars("js");
            let css = to_chars("css");
            let svg = to_chars("svg");
            if chars_eq(e.as_slice(), js.as_slice()) {
                ResourceType::JavaScript
            } else if chars_eq(e.as_slice(), css.as_slice()) {
                ResourceType::Css
            } else if chars_eq(e.as_slice(), svg.as_slice()) {
                ResourceType::Svg
            } else {
                ResourceType::Binary
            }
        },
        None => ResourceType::Binary,
    }
}

/// The kinds of item a thumbnail is served for.
#[derive(Debug, Clone, Copy, PartialEq, Eq, Structural)]
pub enum ThumbnailKind {
    Video,
    Show,
    Playlist,
    Collection,
}

/// The kind of item named in a thumbnail's address, if it is one that has
/// thumbnails.
pub fn thumbnail_kind(name: &str) -> (r: Option<ThumbnailKind>)
    ensures
        r == if name@ == "video"@ {
            Some(ThumbnailKind::Video)
        } else if name@ == "show"@ {
            Some(ThumbnailKind::Show)
        } else if name@ == "playlist"@ {
            Some(ThumbnailKind::Playlist)
        } else if name@ == "collection"@ {
            Some(ThumbnailKind::Collection)
        } else {
            None
        },
{
    proof {
        reveal_strlit("video");
        reveal_strlit("show");
        reveal_strlit("playlist");
        reveal_strlit("collection");
    }
    let n = to_chars(name);
    let video = to_chars("video");
    let show = to_chars("show");
    let playlist = to_chars("playlist");
    let collection = to_chars("collection");
    if chars_eq(n.as_slice(), video.as_slice()) {
        Some(ThumbnailKind::Video)
    } else if chars_eq(n.as_slice(), show.as_slice()) {
        Some(ThumbnailKind::Show)
    } else if chars_eq(n.as_slice(), playlist.as_slice()) {
        Some(ThumbnailKind::Playlist)
    } else if chars_eq(n.as_slice(), collection.as_slice()) {
        Some(ThumbnailKind::Collection)
    } else {
        None
    }
}

} // verus!
