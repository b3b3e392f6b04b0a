//! Transcode profiles: what a profile asks of the server, which profiles come
//! built in, and how profiles are ranked when an item is synced under several.
use core::cmp::Ordering;
use vstd::prelude::*;

use crate::text::{decimal, push_decimal};

verus! {

/// The H.264 profiles a transcode may use.
#[derive(Debug, Clone, Copy, PartialEq, Eq, Structural)]
pub enum H264Profile {
    Baseline,
    Main,
    High,
}

impl H264Profile {
    pub open spec fn name_spec(self) -> Seq<char> {
        match self {
            H264Profile::Baseline => "baseline"@,
            H264Profile::Main => "main"@,
            H264Profile::High => "high"@,
        }
    }

    /// The profile's name as the server knows it.
    pub fn name(&self) -> (r: String)
        ensures
            r@ == self.name_spec(),
    {
        match self {
            H264Profile::Baseline => "baseline".to_owned(),
            H264Profile::Main => "main".to_owned(),
            H264Profile::High => "high".to_owned(),
        }
    }
}

/// A transcode profile. Containers and codecs are named as the server names them
/// (`mp4`, `h264`, `aac`, ...).
pub struct TranscodeProfile {
    /// Maximum bitrate in kbps.
    pub bitrate: Option<u32>,
    /// Width and height.
    pub dimensions: Option<(u32, u32)>,
    pub containers: Option<Vec<String>>,
    pub video_codecs: Option<Vec<String>>,
    pub audio_codecs: Option<Vec<String>>,
    pub audio_channels: Option<u16>,
    pub h264_profiles: Option<Vec<H264Profile>>,
    pub h264_level: Option<String>,
}

/// What a limitation constrains.
#[derive(Debug, Clone, Copy, PartialEq, Eq, Structural)]
pub enum Setting {
    AudioChannels,
    VideoProfile,
    VideoLevel,
    OptimizedForStreaming,
}

/// How a setting is constrained.
pub enum Constraint {
    Max(String),
    Match(String),
    MatchList(Vec<String>),
}

/// A limitation on a transcode, for one codec or container or for all.
pub struct Limitation {
    pub target: Option<String>,
    pub setting: Setting,
    pub constraint: Constraint,
    pub is_required: bool,
}

/// The options of a video transcode.
pub struct TranscodeOptions {
    pub bitrate: u32,
    pub width: u32,
    pub height: u32,
    pub burn_subtitles: bool,
    pub containers: Vec<String>,
    pub container_limitations: Vec<Limitation>,
    pub video_codecs: Vec<String>,
    pub video_limitations: Vec<Limitation>,
    pub audio_codecs: Vec<String>,
    pub audio_limitations: Vec<Limitation>,
}

pub open spec fn strings_view(v: Seq<String>) -> Seq<Seq<char>> {
    v.map_values(|s: String| s@)
}

pub open spec fn or_default(v: Option<Vec<String>>, d: Seq<Seq<char>>) -> Seq<Seq<char>> {
    match v {
        Some(x) => strings_view(x@),
        None => d,
    }
}

fn clone_strings(v: &Vec<String>) -> (r: Vec<String>)
    ensures
        strings_view(r@) == strings_view(v@),
{
    let mut r: Vec<String> = Vec::new();
    let mut i: usize = 0;
    while i < v.len()
        invariant
            i <= v.len(),
            r.len() == i,
            forall|k: int| 0 <= k < i ==> (#[trigger] r@[k])@ == v@[k]@,
        decreases v.len() - i,
    {
        let c = v[i].clone();
        r.push(c);
        i = i + 1;
    }
    proof {
        assert forall|k: int| 0 <= k < v.len() implies strings_view(r@)[k] == strings_view(v@)[k] by {
            assert(r@[k]@ == v@[k]@);
        }
        assert(strings_view(r@) =~= strings_view(v@));
    }
    r
}

impl TranscodeProfile {
    /// The options a profile asks for: its bitrate, or 2000 kbps; its dimensions,
    /// or 1280 by 720; its containers, or MP4; its video codecs, or H.264; its
    /// audio codecs, or AAC and MP3; subtitles burnt in; the limits it sets on
    /// audio channels and on the H.264 profile and level; and MP4 optimised for
    /// streaming, which is required.
    pub fn options(&self) -> (r: TranscodeOptions)
        ensures
            r.bitrate == match self.bitrate {
                Some(b) => b,
                None => 2000u32,
            },
            (r.width, r.height) == match self.dimensions {
                Some(d) => d,
                None => (1280u32, 720u32),
            },
            r.burn_subtitles,
            strings_view(r.containers@) == or_default(self.containers, seq!["mp4"@]),
            strings_view(r.video_codecs@) == or_default(self.video_codecs, seq!["h264"@]),
            strings_view(r.audio_codecs@) == or_default(self.audio_codecs, seq!["aac"@, "mp3"@]),
            r.container_limitations.len() == 1,
            r.container_limitations@[0].target matches Some(t) && t@ == "mp4"@,
            r.container_limitations@[0].setting == Setting::OptimizedForStreaming,
            r.container_limitations@[0].constraint matches Constraint::Match(m) && m@ == "1"@,
            r.container_limitations@[0].is_required,
            r.audio_limitations.len() == (if self.audio_channels is Some {
                1int
            } else {
                0int
            }),
            self.audio_channels matches Some(c) ==> ({
                let l = r.audio_limitations@[0];
                &&& l.target is None
                &&& l.setting == Setting::AudioChannels
                &&& l.constraint matches Constraint::Max(m) && m@ == decimal(c as nat)
                &&& !l.is_required
            }),
            r.video_limitations.len() == (if self.h264_profiles is Some {
                1int
            } else {
                0int
            }) + (if self.h264_level is Some {
                1int
            } else {
                0int
            }),
            self.h264_profiles matches Some(ps) ==> ({
                let l = r.video_limitations@[0];
                &&& l.target matches Some(t) && t@ == "h264"@
                &&& l.setting == Setting::VideoProfile
                &&& l.constraint matches Constraint::MatchList(names) && names.len() == ps.len()
                    && forall|i: int|
                    0 <= i < ps.len() ==> (#[trigger] names@[i])@ == ps@[i].name_spec()
                &&& !l.is_required
            }),
            self.h264_level matches Some(level) ==> ({
                let l = r.video_limitations@[r.video_limitations.len() - 1];
                &&& l.target matches Some(t) && t@ == "h264"@
                &&& l.setting == Setting::VideoLevel
                &&& l.constraint matches Constraint::Max(m) && m@ == level@
                &&& !l.is_required
            }),
    {
        let mut video_limitations: Vec<Limitation> = Vec::new();
        let mut audio_limitations: Vec<Limitation> = Vec::new();
        let mut container_limitations: Vec<Limitation> = Vec::new();
        if let Some(channels) = self.audio_channels {
            let mut max = String::new();
            push_decimal(&mut max, channels as u64);
            audio_limitations.push(
                Limitation {
                    target: None,
                    setting: Setting::AudioChannels,
                    constraint: Constraint::Max(max),
                    is_required: false,
                },
            );
        }
        if let Some(profiles) = &self.h264_profiles {
            let mut names: Vec<String> = Vec::new();
            let mut i: usize = 0;
            while i < profiles.len()
                invariant
                    i <= profiles.len(),
                    names.len() == i,
                    forall|j: int| 0 <= j < i ==> (#[trigger] names@[j])@ == profiles@[j].name_spec(),
                decreases profiles.len() - i,
            {
                names.push(profiles[i].name());
                i = i + 1;
            }
            video_limitations.push(
                Limitation {
                    target: Some("h264".to_owned()),
                    setting: Setting::VideoProfile,
                    constraint: Constraint::MatchList(names),
                    is_required: false,
                },
            );
        }
        if let Some(level) = &self.h264_level {
            video_limitations.push(
                Limitation {
                    target: Some("h264".to_owned()),
                    setting: Setting::VideoLevel,
                    constraint: Constraint::Max(level.clone()),
                    is_required: false,
                },
            );
        }
        container_limitations.push(
            Limitation {
                target: Some("mp4".to_owned()),
                setting: Setting::OptimizedForStreaming,
                constraint: Constraint::Match("1".to_owned()),
                is_required: true,
            },
        );
        let (width, height) = match self.dimensions {
            Some(d) => d,
            None => (1280, 720),
        };
        let containers = match &self.containers {
            Some(c) => clone_strings(c),
            None => {
                let v = vec!["mp4".to_owned()];
                proof {
                    assert(strings_view(v@) =~= seq!["mp4"@]);
                }
                v
            },
        };
        let video_codecs = match &self.video_codecs {
            Some(c) => clone_strings(c),
            None => {
                let v = vec!["h264".to_owned()];
                proof {
                    assert(strings_view(v@) =~= seq!["h264"@]);
                }
                v
            },
        };
        let audio_codecs = match &self.audio_codecs {
            Some(c) => clone_strings(c),
            None => {
                let v = vec!["aac".to_owned(), "mp3".to_owned()];
                proof {
                    assert(strings_view(v@) =~= seq!["aac"@, "mp3"@]);
                }
                v
            },
        };
        TranscodeOptions {
            bitrate: match self.bitrate {
                Some(b) => b,
                None => 2000,
            },
            width,
            height,
            burn_subtitles: true,
            containers,
            container_limitations,
            video_codecs,
            video_limitations,
            audio_codecs,
            audio_limitations,
        }
    }
}

/// The transcode a profile name selects.
pub enum TranscodeChoice {
    /// Transcode with these options.
    Options(TranscodeOptions),
    /// Download the original file.
    Original,
    /// An unknown profile: transcode with the server library's default options.
    LibraryDefaults,
}

/// The built-in profiles: `original` downloads the original file; `720p` and
/// `1080p` transcode to MP4 at 4000 and 10000 kbps.
pub open spec fn builtin_spec(name: Seq<char>) -> Option<Option<(u32, (u32, u32))>> {
    if name == "original"@ {
        Some(None)
    } else if name == "720p"@ {
        Some(Some((4000u32, (1280u32, 720u32))))
    } else if name == "1080p"@ {
        Some(Some((10000u32, (1920u32, 1080u32))))
    } else {
        None
    }
}

fn builtin_profile(bitrate: u32, width: u32, height: u32) -> (r: TranscodeProfile)
    ensures
        r.bitrate == Some(bitrate),
        r.dimensions == Some((width, height)),
        r.audio_channels == Some(2u16),
        r.h264_profiles matches Some(ps) && ps@ == seq![
            H264Profile::Baseline,
            H264Profile::Main,
            H264Profile::High,
        ],
        r.h264_level matches Some(l) && l@ == "51"@,
        r.containers matches Some(c) && strings_view(c@) == seq!["mp4"@],
        r.video_codecs is None,
        r.audio_codecs is None,
{
    let containers = vec!["mp4".to_owned()];
    proof {
        assert(strings_view(containers@) =~= seq!["mp4"@]);
    }
    let r = TranscodeProfile {
        bitrate: Some(bitrate),
        dimensions: Some((width, height)),
        containers: Some(containers),
        video_codecs: None,
        audio_codecs: None,
        audio_channels: Some(2),
        h264_profiles: Some(vec![H264Profile::Baseline, H264Profile::Main, H264Profile::High]),
        h264_level: Some("51".to_owned()),
    };
    r
}

/// A built-in profile by name: `Some(None)` for `original`, `None` for a name that
/// is not built in.
pub fn builtin_profile_named(name: &str) -> (r: Option<Option<TranscodeProfile>>)
    ensures
        match builtin_spec(name@) {
            None => r is None,
            Some(None) => r matches Some(None),
            Some(Some((bitrate, dims))) => r matches Some(Some(p)) && p.bitrate == Some(bitrate)
                && p.dimensions == Some(dims) && p.audio_channels == Some(2u16),
        },
{
    proof {
        reveal_strlit("original");
        reveal_strlit("720p");
        reveal_strlit("1080p");
        assert("original"@[0] != "720p"@[0] && "original"@[0] != "1080p"@[0]);
        assert("720p"@[0] != "1080p"@[0]);
    }
    let n = crate::text::to_chars(name);
    let original = crate::text::to_chars("original");
    let p720 = crate::text::to_chars("720p");
    let p1080 = crate::text::to_chars("1080p");
    if crate::text::chars_eq(n.as_slice(), original.as_slice()) {
        Some(None)
    } else if crate::text::chars_eq(n.as_slice(), p720.as_slice()) {
        Some(Some(builtin_profile(4000, 1280, 720)))
    } else if crate::text::chars_eq(n.as_slice(), p1080.as_slice()) {
        Some(Some(builtin_profile(10000, 1920, 1080)))
    } else {
        None
    }
}

/// The transcode for a profile name: a configured profile of that name comes first,
/// then the built-in ones; an unknown name falls back to the library's defaults.
pub fn transcode_choice(configured: Option<&TranscodeProfile>, name: &str) -> (r: TranscodeChoice)
    ensures
        configured is Some ==> r is Options,
        configured is None ==> match builtin_spec(name@) {
            None => r is LibraryDefaults,
            Some(None) => r is Original,
            Some(Some((bitrate, _))) => r matches TranscodeChoice::Options(o) && o.bitrate
                == bitrate,
        },
{
    if let Some(profile) = configured {
        return TranscodeChoice::Options(profile.options());
    }
    match builtin_profile_named(name) {
        Some(Some(profile)) => TranscodeChoice::Options(profile.options()),
        Some(None) => TranscodeChoice::Original,
        None => TranscodeChoice::LibraryDefaults,
    }
}

// ---------------------------------------------------------------------------
// Ranking profiles
// ---------------------------------------------------------------------------

/// The outcome of a comparison, in the proofs.
#[derive(Debug, Clone, Copy, PartialEq, Eq, Structural)]
pub enum Rank {
    Less,
    Equal,
    Greater,
}

pub open spec fn int_order(a: int, b: int) -> Rank {
    if a < b {
        Rank::Less
    } else if a == b {
        Rank::Equal
    } else {
        Rank::Greater
    }
}

/// How two profiles compare: by bitrate when both have a different one; otherwise
/// by the area of their dimensions when both have dimensions; otherwise equal when
/// both had the same bitrate, and not comparable when they had none to compare.
pub open spec fn profile_order_spec(a: TranscodeProfile, b: TranscodeProfile) -> Option<Rank> {
    match (a.bitrate, b.bitrate) {
        (Some(x), Some(y)) if x != y => Some(int_order(x as int, y as int)),
        _ => match (a.dimensions, b.dimensions) {
            (Some((ax, ay)), Some((bx, by))) => Some(int_order(ax * ay, bx * by)),
            _ => match (a.bitrate, b.bitrate) {
                (Some(_), Some(_)) => Some(Rank::Equal),
                _ => None,
            },
        },
    }
}

fn order_u32(a: u32, b: u32) -> (r: Rank)
    ensures
        r == int_order(a as int, b as int),
{
    if a < b {
        Rank::Less
    } else if a == b {
        Rank::Equal
    } else {
        Rank::Greater
    }
}

/// The areas of both profiles' dimensions fit in 32 bits.
pub open spec fn areas_fit(a: TranscodeProfile, b: TranscodeProfile) -> bool {
    &&& a.dimensions matches Some((x, y)) ==> x * y <= u32::MAX
    &&& b.dimensions matches Some((x, y)) ==> x * y <= u32::MAX
}

fn profile_order(a: &TranscodeProfile, b: &TranscodeProfile) -> (r: Option<Rank>)
    requires
        areas_fit(*a, *b),
    ensures
        r == profile_order_spec(*a, *b),
{
    let mut fallback: Option<Rank> = None;
    if let (Some(x), Some(y)) = (a.bitrate, b.bitrate) {
        if x != y {
            return Some(order_u32(x, y));
        }
        fallback = Some(Rank::Equal);
    }
    if let (Some((ax, ay)), Some((bx, by))) = (a.dimensions, b.dimensions) {
        return Some(order_u32(ax * ay, bx * by));
    }
    fallback
}

pub open spec fn ordering_of(r: Rank) -> Ordering {
    match r {
        Rank::Less => Ordering::Less,
        Rank::Equal => Ordering::Equal,
        Rank::Greater => Ordering::Greater,
    }
}

pub fn to_ordering(r: Rank) -> (o: Ordering)
    ensures
        o == ordering_of(r),
{
    match r {
        Rank::Less => Ordering::Less,
        Rank::Equal => Ordering::Equal,
        Rank::Greater => Ordering::Greater,
    }
}

impl TranscodeProfile {
    /// Compares two profiles as `profile_order_spec` says.
    pub fn partial_cmp(&self, other: &TranscodeProfile) -> (r: Option<Ordering>)
        requires
            areas_fit(*self, *other),
        ensures
            r == match profile_order_spec(*self, *other) {
                Some(k) => Some(ordering_of(k)),
                None => None,
            },
    {
        match profile_order(self, other) {
            Some(k) => Some(to_ordering(k)),
            None => None,
        }
    }
}

/// Text in lexicographic order of its characters (the order of `str`).
pub open spec fn text_order(a: Seq<char>, b: Seq<char>) -> Rank
    decreases a.len(),
{
    if a.len() == 0 {
        if b.len() == 0 {
            Rank::Equal
        } else {
            Rank::Less
        }
    } else if b.len() == 0 {
        Rank::Greater
    } else if a[0] < b[0] {
        Rank::Less
    } else if a[0] > b[0] {
        Rank::Greater
    } else {
        text_order(a.drop_first(), b.drop_first())
    }
}

/// The opposite outcome of a comparison.
pub open spec fn flipped(r: Rank) -> Rank {
    match r {
        Rank::Less => Rank::Greater,
        Rank::Equal => Rank::Equal,
        Rank::Greater => Rank::Less,
    }
}

/// Every text compares equal to itself.
pub proof fn lemma_text_order_reflexive(a: Seq<char>)
    ensures
        text_order(a, a) == Rank::Equal,
    decreases a.len(),
{
    if a.len() > 0 {
        lemma_text_order_reflexive(a.drop_first());
    }
}

/// Swapping the texts flips the outcome; texts compare equal only when they are
/// the same text.
pub proof fn lemma_text_order_antisymmetric(a: Seq<char>, b: Seq<char>)
    ensures
        text_order(b, a) == flipped(text_order(a, b)),
        text_order(a, b) == Rank::Equal ==> a == b,
    decreases a.len(),
{
    if a.len() > 0 && b.len() > 0 && a[0] == b[0] {
        lemma_text_order_antisymmetric(a.drop_first(), b.drop_first());
        if text_order(a, b) == Rank::Equal {
            assert(a =~= seq![a[0]] + a.drop_first());
            assert(b =~= seq![b[0]] + b.drop_first());
        }
    } else if a.len() == 0 && b.len() == 0 {
        assert(a =~= b);
    }
}

/// Text order is transitive.
pub proof fn lemma_text_order_transitive(a: Seq<char>, b: Seq<char>, c: Seq<char>)
    requires
        text_order(a, b) != Rank::Greater,
        text_order(b, c) != Rank::Greater,
    ensures
        text_order(a, c) != Rank::Greater,
    decreases a.len(),
{
    if a.len() > 0 && b.len() > 0 && c.len() > 0 && a[0] == b[0] && b[0] == c[0] {
        lemma_text_order_transitive(a.drop_first(), b.drop_first(), c.drop_first());
    }
}

/// Compares two texts, as `text_order` says.
pub fn text_rank(a: &[char], b: &[char]) -> (r: Rank)
    ensures
        r == text_order(a@, b@),
{
    let mut i: usize = 0;
    proof {
        assert(a@.skip(0) =~= a@);
        assert(b@.skip(0) =~= b@);
    }
    while i < a.len() && i < b.len()
        invariant
            i <= a.len(),
            i <= b.len(),
            text_order(a@, b@) == text_order(a@.skip(i as int), b@.skip(i as int)),
        decreases a.len() - i,
    {
        let x = a[i];
        let y = b[i];
        proof {
            assert(a@.skip(i as int)[0] == x);
            assert(b@.skip(i as int)[0] == y);
        }
        if x < y {
            return Rank::Less;
        }
        if x > y {
            return Rank::Greater;
        }
        proof {
            assert(a@.skip(i as int).drop_first() =~= a@.skip(i + 1));
            assert(b@.skip(i as int).drop_first() =~= b@.skip(i + 1));
        }
        i = i + 1;
    }
    if i == a.len() {
        if i == b.len() {
            Rank::Equal
        } else {
            Rank::Less
        }
    } else {
        Rank::Greater
    }
}

/// The order in which the profiles an item is synced under are tried, the first
/// being used: downloading the original (no profile) comes first, then better
/// profiles before worse ones; profiles that compare equal or not at all go by
/// name.
pub open spec fn selection_order_spec(
    na: Seq<char>,
    pa: Option<TranscodeProfile>,
    nb: Seq<char>,
    pb: Option<TranscodeProfile>,
) -> Rank {
    match (pa, pb) {
        (Some(_), None) => Rank::Greater,
        (None, Some(_)) => Rank::Less,
        (Some(a), Some(b)) => match profile_order_spec(b, a) {
            Some(Rank::Less) => Rank::Less,
            Some(Rank::Greater) => Rank::Greater,
            _ => text_order(na, nb),
        },
        (None, None) => text_order(na, nb),
    }
}

fn selection_rank(na: &str, pa: Option<&TranscodeProfile>, nb: &str, pb: Option<&TranscodeProfile>) -> (r: Rank)
    requires
        pa matches Some(a) ==> pb matches Some(b) ==> areas_fit(*b, *a),
    ensures
        r == selection_order_spec(
            na@,
            match pa {
                Some(a) => Some(*a),
                None => None,
            },
            nb@,
            match pb {
                Some(b) => Some(*b),
                None => None,
            },
        ),
{
    match (pa, pb) {
        (Some(_), None) => {
            return Rank::Greater;
        },
        (None, Some(_)) => {
            return Rank::Less;
        },
        (Some(a), Some(b)) => {
            match profile_order(b, a) {
                Some(Rank::Less) => {
                    return Rank::Less;
                },
                Some(Rank::Greater) => {
                    return Rank::Greater;
                },
                _ => {},
            }
        },
        (None, None) => {},
    }
    let x = crate::text::to_chars(na);
    let y = crate::text::to_chars(nb);
    text_rank(x.as_slice(), y.as_slice())
}

/// How two named profiles sort in the order they are tried, as
/// `selection_order_spec` says.
pub(crate) fn selection_rank_of(
    na: &str,
    pa: &Option<TranscodeProfile>,
    nb: &str,
    pb: &Option<TranscodeProfile>,
) -> (r: Rank)
    requires
        pa matches Some(a) ==> pb matches Some(b) ==> areas_fit(*b, *a),
    ensures
        r == selection_order_spec(na@, *pa, nb@, *pb),
{
    let a = match pa {
        Some(a) => Some(a),
        None => None,
    };
    let b = match pb {
        Some(b) => Some(b),
        None => None,
    };
    selection_rank(na, a, nb, b)
}

/// The comparison used to sort the profiles an item is synced under; the first
/// after sorting is used.
pub fn selection_order(
    na: &str,
    pa: Option<&TranscodeProfile>,
    nb: &str,
    pb: Option<&TranscodeProfile>,
) -> (r: Ordering)
    requires
        pa matches Some(a) ==> pb matches Some(b) ==> areas_fit(*b, *a),
    ensures
        r == ordering_of(
            selection_order_spec(
                na@,
                match pa {
                    Some(a) => Some(*a),
                    None => None,
                },
                nb@,
                match pb {
                    Some(b) => Some(*b),
                    None => None,
                },
            ),
        ),
{
    to_ordering(selection_rank(na, pa, nb, pb))
}

} // verus!
