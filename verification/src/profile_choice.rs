//! Choosing the transcode profile of a video synced under several profiles: the
//! names are looked up among the configured profiles and then the built-in ones,
//! and the one that sorts first is used.
use vstd::prelude::*;

use crate::profile::{
    areas_fit, builtin_spec, flipped, lemma_text_order_antisymmetric, profile_order_spec,
    selection_order_spec, Rank, TranscodeProfile,
};
use crate::text::{chars_eq, to_chars};

verus! {

/// A profile of the configuration, under its name.
pub struct NamedProfile {
    pub name: String,
    pub profile: TranscodeProfile,
}

/// What the choice reads of a profile: its bitrate and dimensions.
pub open spec fn profile_key(p: TranscodeProfile) -> TranscodeProfile {
    TranscodeProfile {
        bitrate: p.bitrate,
        dimensions: p.dimensions,
        containers: None,
        video_codecs: None,
        audio_codecs: None,
        audio_channels: None,
        h264_profiles: None,
        h264_level: None,
    }
}

/// The position of the first configured profile with this name.
pub open spec fn configured_index(configured: Seq<NamedProfile>, name: Seq<char>, n: int) -> Option<
    int,
>
    decreases n,
{
    if n <= 0 {
        None
    } else {
        match configured_index(configured, name, n - 1) {
            Some(i) => Some(i),
            None => if configured[n - 1].name@ == name {
                Some(n - 1)
            } else {
                None
            },
        }
    }
}

/// What a profile name stands for: a configured profile comes first, then the
/// built-in ones (`Some(None)` for the original file); `None` for an unknown name.
pub open spec fn lookup(configured: Seq<NamedProfile>, name: Seq<char>) -> Option<
    Option<TranscodeProfile>,
> {
    match configured_index(configured, name, configured.len() as int) {
        Some(i) => Some(Some(profile_key(configured[i].profile))),
        None => match builtin_spec(name) {
            Some(None) => Some(None),
            Some(Some((bitrate, dims))) => Some(
                Some(
                    TranscodeProfile {
                        bitrate: Some(bitrate),
                        dimensions: Some(dims),
                        containers: None,
                        video_codecs: None,
                        audio_codecs: None,
                        audio_channels: None,
                        h264_profiles: None,
                        h264_level: None,
                    },
                ),
            ),
            None => None,
        },
    }
}

/// The candidates among the first `n` names: those that stand for something, in
/// order, with what they stand for.
pub open spec fn candidates(configured: Seq<NamedProfile>, names: Seq<String>, n: int) -> Seq<
    (Seq<char>, Option<TranscodeProfile>),
>
    decreases n,
{
    if n <= 0 {
        Seq::empty()
    } else {
        match lookup(configured, names[n - 1]@) {
            Some(p) => candidates(configured, names, n - 1).push((names[n - 1]@, p)),
            None => candidates(configured, names, n - 1),
        }
    }
}

/// `a` sorts before `b` in the order profiles are tried.
pub open spec fn tried_before(
    a: (Seq<char>, Option<TranscodeProfile>),
    b: (Seq<char>, Option<TranscodeProfile>),
) -> bool {
    selection_order_spec(a.0, a.1, b.0, b.1) == Rank::Less
}

/// The position of the candidate chosen among the first `n`: going through them in
/// order, a candidate replaces the one chosen so far when it sorts before it.
pub open spec fn chosen(c: Seq<(Seq<char>, Option<TranscodeProfile>)>, n: int) -> int
    decreases n,
{
    if n <= 1 {
        0
    } else if tried_before(c[n - 1], c[chosen(c, n - 1)]) {
        n - 1
    } else {
        chosen(c, n - 1)
    }
}

/// The areas of the candidates' dimensions fit in 32 bits.
pub open spec fn candidate_areas_fit(c: (Seq<char>, Option<TranscodeProfile>)) -> bool {
    c.1 matches Some(p) ==> areas_fit(p, p)
}

/// Every configured profile's area fits in 32 bits.
pub open spec fn configured_areas_fit(configured: Seq<NamedProfile>) -> bool {
    forall|i: int| 0 <= i < configured.len() ==> areas_fit(#[trigger] configured[i].profile, configured[i].profile)
}

fn same_name(a: &str, b: &str) -> (r: bool)
    ensures
        r == (a@ == b@),
{
    let x = to_chars(a);
    let y = to_chars(b);
    chars_eq(x.as_slice(), y.as_slice())
}

fn find_configured(configured: &Vec<NamedProfile>, name: &str) -> (r: Option<usize>)
    ensures
        match configured_index(configured@, name@, configured.len() as int) {
            Some(i) => r == Some(i as usize),
            None => r is None,
        },
        r matches Some(i) ==> i < configured.len(),
{
    let mut i: usize = 0;
    while i < configured.len()
        invariant
            i <= configured.len(),
            configured_index(configured@, name@, i as int) is None,
        decreases configured.len() - i,
    {
        proof {
            lemma_configured_index_bound(configured@, name@, i + 1);
        }
        if same_name(configured[i].name.as_str(), name) {
            proof {
                lemma_configured_index_stays(configured@, name@, i + 1, configured.len() as int);
            }
            return Some(i);
        }
        i = i + 1;
    }
    None
}

proof fn lemma_configured_index_bound(configured: Seq<NamedProfile>, name: Seq<char>, n: int)
    ensures
        configured_index(configured, name, n) matches Some(i) ==> 0 <= i < n,
    decreases n,
{
    if n > 0 {
        lemma_configured_index_bound(configured, name, n - 1);
    }
}

proof fn lemma_configured_index_stays(configured: Seq<NamedProfile>, name: Seq<char>, n: int, m: int)
    requires
        n <= m,
        configured_index(configured, name, n) is Some,
    ensures
        configured_index(configured, name, m) == configured_index(configured, name, n),
    decreases m - n,
{
    if n < m {
        lemma_configured_index_stays(configured, name, n, m - 1);
    }
}

fn key_profile(bitrate: Option<u32>, dimensions: Option<(u32, u32)>) -> (r: TranscodeProfile)
    ensures
        r.bitrate == bitrate,
        r.dimensions == dimensions,
        r.containers is None,
        r.video_codecs is None,
        r.audio_codecs is None,
        r.audio_channels is None,
        r.h264_profiles is None,
        r.h264_level is None,
{
    TranscodeProfile {
        bitrate,
        dimensions,
        containers: None,
        video_codecs: None,
        audio_codecs: None,
        audio_channels: None,
        h264_profiles: None,
        h264_level: None,
    }
}

fn builtin_key(name: &str) -> (r: Option<Option<(u32, (u32, u32))>>)
    ensures
        r == builtin_spec(name@),
{
    proof {
        reveal_strlit("original");
        reveal_strlit("720p");
        reveal_strlit("1080p");
    }
    if same_name(name, "original") {
        Some(None)
    } else if same_name(name, "720p") {
        Some(Some((4000, (1280, 720))))
    } else if same_name(name, "1080p") {
        Some(Some((10000, (1920, 1080))))
    } else {
        None
    }
}

/// What a profile name stands for, as `lookup` says.
fn lookup_exec(configured: &Vec<NamedProfile>, name: &str) -> (r: Option<Option<TranscodeProfile>>)
    ensures
        match lookup(configured@, name@) {
            Some(Some(p)) => r matches Some(Some(q)) && q == p,
            Some(None) => r matches Some(None),
            None => r is None,
        },
{
    proof {
        lemma_configured_index_bound(configured@, name@, configured.len() as int);
    }
    match find_configured(configured, name) {
        Some(i) => {
            let p = &configured[i].profile;
            let q = key_profile(p.bitrate, p.dimensions);
            proof {
                assert(*p == configured@[i as int].profile);
                assert(q == profile_key(configured@[i as int].profile));
            }
            Some(Some(q))
        },
        None => match builtin_key(name) {
            Some(None) => Some(None),
            Some(Some((bitrate, dims))) => {
                let q = key_profile(Some(bitrate), Some(dims));
                proof {
                    assert(lookup(configured@, name@) == Some(Some(q)));
                }
                Some(Some(q))
            },
            None => None,
        },
    }
}

fn tried_before_exec(
    a: &(String, Option<TranscodeProfile>),
    b: &(String, Option<TranscodeProfile>),
) -> (r: bool)
    requires
        a.1 matches Some(p) ==> areas_fit(p, p),
        b.1 matches Some(p) ==> areas_fit(p, p),
    ensures
        r == tried_before((a.0@, a.1), (b.0@, b.1)),
{
    let rank = crate::profile::selection_rank_of(a.0.as_str(), &a.1, b.0.as_str(), &b.1);
    match rank {
        Rank::Less => true,
        _ => false,
    }
}

/// The profile a video synced under the profiles `names` is transcoded with: among
/// the names that stand for a configured or built-in profile, the one chosen as
/// `chosen` says; none when no name stands for one.
pub fn select_profile(configured: &Vec<NamedProfile>, names: &Vec<String>) -> (r: Option<String>)
    requires
        configured_areas_fit(configured@),
    ensures
        ({
            let c = candidates(configured@, names@, names.len() as int);
            if c.len() == 0 {
                r is None
            } else {
                r matches Some(n) && n@ == c[chosen(c, c.len() as int)].0
            }
        }),
{
    let mut list: Vec<(String, Option<TranscodeProfile>)> = Vec::new();
    let mut i: usize = 0;
    while i < names.len()
        invariant
            i <= names.len(),
            configured_areas_fit(configured@),
            list.len() == candidates(configured@, names@, i as int).len(),
            forall|k: int|
                0 <= k < list.len() ==> (#[trigger] list@[k]).0@ == candidates(
                    configured@,
                    names@,
                    i as int,
                )[k].0 && list@[k].1 == candidates(configured@, names@, i as int)[k].1,
            forall|k: int| 0 <= k < list.len() ==> candidate_areas_fit(
                (#[trigger] list@[k].0@, list@[k].1),
            ),
        decreases names.len() - i,
    {
        let looked = lookup_exec(configured, names[i].as_str());
        proof {
            match configured_index(configured@, names@[i as int]@, configured.len() as int) {
                Some(j) => {
                    lemma_configured_index_bound(
                        configured@,
                        names@[i as int]@,
                        configured.len() as int,
                    );
                    assert(areas_fit(configured@[j].profile, configured@[j].profile));
                },
                None => {},
            }
        }
        match looked {
            Some(p) => {
                list.push((names[i].clone(), p));
            },
            None => {},
        }
        i = i + 1;
    }
    if list.len() == 0 {
        return None;
    }
    let ghost c = candidates(configured@, names@, names.len() as int);
    let mut best: usize = 0;
    let mut k: usize = 1;
    while k < list.len()
        invariant
            1 <= k <= list.len(),
            best < list.len(),
            c.len() == list.len(),
            forall|m: int| 0 <= m < list.len() ==> (#[trigger] list@[m]).0@ == c[m].0 && list@[m].1
                == c[m].1,
            forall|m: int| 0 <= m < list.len() ==> candidate_areas_fit(
                (#[trigger] list@[m].0@, list@[m].1),
            ),
            best == chosen(c, k as int),
        decreases list.len() - k,
    {
        proof {
            assert(candidate_areas_fit((list@[k as int].0@, list@[k as int].1)));
            assert(candidate_areas_fit((list@[best as int].0@, list@[best as int].1)));
            assert(c[k as int] == (list@[k as int].0@, list@[k as int].1));
            assert(c[best as int] == (list@[best as int].0@, list@[best as int].1));
        }
        if tried_before_exec(&list[k], &list[best]) {
            best = k;
        }
        k = k + 1;
    }
    Some(list[best].0.clone())
}

// ---------------------------------------------------------------------------
// Laws
// ---------------------------------------------------------------------------

proof fn lemma_profile_order_flips(a: TranscodeProfile, b: TranscodeProfile)
    ensures
        profile_order_spec(b, a) == match profile_order_spec(a, b) {
            Some(k) => Some(flipped(k)),
            None => None,
        },
{
}

/// Swapping two candidates flips how they sort.
proof fn lemma_selection_flips(
    a: (Seq<char>, Option<TranscodeProfile>),
    b: (Seq<char>, Option<TranscodeProfile>),
)
    ensures
        selection_order_spec(b.0, b.1, a.0, a.1) == flipped(selection_order_spec(a.0, a.1, b.0, b.1)),
{
    lemma_text_order_antisymmetric(a.0, b.0);
    match (a.1, b.1) {
        (Some(x), Some(y)) => {
            lemma_profile_order_flips(x, y);
        },
        _ => {},
    }
}

proof fn lemma_chosen_bound(c: Seq<(Seq<char>, Option<TranscodeProfile>)>, n: int)
    ensures
        n >= 1 ==> 0 <= chosen(c, n) < n,
        n < 1 ==> chosen(c, n) == 0,
    decreases n,
{
    if n > 1 {
        lemma_chosen_bound(c, n - 1);
    }
}

/// A candidate that sorts before every other one is the one used.
pub proof fn lemma_first_tried_is_chosen(c: Seq<(Seq<char>, Option<TranscodeProfile>)>, m: int)
    requires
        0 <= m < c.len(),
        forall|i: int| 0 <= i < c.len() && i != m ==> tried_before(c[m], #[trigger] c[i]),
    ensures
        chosen(c, c.len() as int) == m,
{
    lemma_chosen_from(c, m, c.len() as int);
}

proof fn lemma_chosen_from(c: Seq<(Seq<char>, Option<TranscodeProfile>)>, m: int, n: int)
    requires
        0 <= m < n <= c.len(),
        forall|i: int| 0 <= i < c.len() && i != m ==> tried_before(c[m], #[trigger] c[i]),
    ensures
        chosen(c, n) == m,
    decreases n,
{
    if n == m + 1 {
        if m > 0 {
            lemma_chosen_bound(c, m);
            let i = chosen(c, m);
            assert(tried_before(c[m], c[i]));
        }
    } else {
        lemma_chosen_from(c, m, n - 1);
        assert(tried_before(c[m], c[n - 1]));
        lemma_selection_flips(c[m], c[n - 1]);
    }
}

} // verus!
