//! Reading the item to sync from the address of its page in the Plex web app:
//! `https://app.plex.tv/desktop/#!/server/<server>/details?key=/library/metadata/<key>`.
use vstd::prelude::*;

use crate::text::{chars_eq, from_chars, slice_chars, to_chars};

verus! {

#[verifier::external_type_specification]
#[verifier::external_body]
pub struct ExUrlParseError(url::ParseError);

/// The fragment of a URL as the `url` crate parses it: `None` when the text is not
/// a URL, `Some(None)` when it has no fragment.
pub uninterp spec fn url_fragment(s: Seq<char>) -> Option<Option<Seq<char>>>;

/// Parses a URL with `url::Url::parse` and hands back its fragment
/// (`Url::fragment`). Which texts parse, and how, is left to the name
/// `url_fragment`.
#[verifier::external_body]
fn parse_fragment(s: &str) -> (r: Result<Option<String>, url::ParseError>)
    ensures
        match r {
            Ok(f) => url_fragment(s@) == Some(
                match f {
                    Some(x) => Some(x@),
                    None => None,
                },
            ),
            Err(_) => url_fragment(s@) is None,
        },
{
    match url::Url::parse(s) {
        Ok(u) => Ok(u.fragment().map(|f| f.to_owned())),
        Err(e) => Err(e),
    }
}

/// The path segments and query pairs of a reference resolved against
/// `https://nowhere.flick-sync`, as the `url` crate reads them: `None` when it does
/// not parse.
pub uninterp spec fn relative_parts(s: Seq<char>) -> Option<
    (Option<Seq<Seq<char>>>, Seq<(Seq<char>, Seq<char>)>),
>;

pub open spec fn strings_of(v: Seq<String>) -> Seq<Seq<char>> {
    v.map_values(|s: String| s@)
}

pub open spec fn pairs_of(v: Seq<(String, String)>) -> Seq<(Seq<char>, Seq<char>)> {
    v.map_values(|p: (String, String)| (p.0@, p.1@))
}

/// Resolves a reference against `https://nowhere.flick-sync` with
/// `Url::options().base_url(..).parse(..)` and hands back its path segments
/// (`Url::path_segments`) and its decoded query pairs (`Url::query_pairs`). What
/// they are for a given reference is left to the name `relative_parts`.
#[verifier::external_body]
fn parse_relative(s: &str) -> (r: Result<(Option<Vec<String>>, Vec<(String, String)>), url::ParseError>)
    ensures
        match r {
            Ok((segments, pairs)) => relative_parts(s@) == Some(
                (
                    match segments {
                        Some(v) => Some(strings_of(v@)),
                        None => None,
                    },
                    pairs_of(pairs@),
                ),
            ),
            Err(_) => relative_parts(s@) is None,
        },
{
    let base = url::Url::parse("https://nowhere.flick-sync")?;
    let u = url::Url::options().base_url(Some(&base)).parse(s)?;
    let segments = u.path_segments().map(|s| s.map(|p| p.to_owned()).collect());
    let pairs = u.query_pairs().map(|(k, v)| (k.into_owned(), v.into_owned())).collect();
    Ok((segments, pairs))
}

/// Why an address does not name an item.
#[derive(Debug, Clone, Copy, PartialEq, Eq, Structural)]
pub enum AddUrlError {
    /// The address, or its fragment, is not a URL.
    Url,
    /// The address is not that of an item's page.
    Unexpected,
}

/// The value of the first query pair named `key`.
pub open spec fn first_key(pairs: Seq<(Seq<char>, Seq<char>)>) -> Option<Seq<char>>
    decreases pairs.len(),
{
    if pairs.len() == 0 {
        None
    } else if pairs[0].0 == "key"@ {
        Some(pairs[0].1)
    } else {
        first_key(pairs.drop_first())
    }
}

/// The text after the last `/`, if there is one.
pub open spec fn after_last_slash(s: Seq<char>) -> Option<Seq<char>> {
    if exists|i: int| 0 <= i < s.len() && s[i] == '/' {
        let i = choose|i: int|
            0 <= i < s.len() && s[i] == '/' && forall|j: int| i < j < s.len() ==> s[j] != '/';
        Some(s.skip(i + 1))
    } else {
        None
    }
}

/// The item an address names, from what the `url` crate reads in it: the fragment
/// must start with `!`; the rest, resolved as a reference, must have a path
/// `/server/<server>/...` and a `key` query whose text after its last `/` is the
/// item's rating key.
pub open spec fn item_from_parts(
    fragment: Option<Option<Seq<char>>>,
    relative: spec_fn(Seq<char>) -> Option<(Option<Seq<Seq<char>>>, Seq<(Seq<char>, Seq<char>)>)>,
) -> Result<(Seq<char>, Seq<char>), AddUrlError> {
    match fragment {
        None => Err(AddUrlError::Url),
        Some(None) => Err(AddUrlError::Unexpected),
        Some(Some(f)) => if f.len() == 0 || f[0] != '!' {
            Err(AddUrlError::Unexpected)
        } else {
            match relative(f.drop_first()) {
                None => Err(AddUrlError::Url),
                Some((None, _)) => Err(AddUrlError::Unexpected),
                Some((Some(segments), pairs)) => if segments.len() < 2 || segments[0] != "server"@ {
                    Err(AddUrlError::Unexpected)
                } else {
                    match first_key(pairs) {
                        None => Err(AddUrlError::Unexpected),
                        Some(key) => match after_last_slash(key) {
                            None => Err(AddUrlError::Unexpected),
                            Some(rating_key) => Ok((segments[1], rating_key)),
                        },
                    }
                },
            }
        },
    }
}

fn find_key(pairs: &Vec<(String, String)>) -> (r: Option<String>)
    ensures
        match first_key(pairs_of(pairs@)) {
            Some(k) => r matches Some(s) && s@ == k,
            None => r is None,
        },
{
    proof {
        reveal_strlit("key");
    }
    let key = to_chars("key");
    let mut i: usize = 0;
    proof {
        assert(pairs_of(pairs@).skip(0) =~= pairs_of(pairs@));
    }
    while i < pairs.len()
        invariant
            i <= pairs.len(),
            key@ == "key"@,
            first_key(pairs_of(pairs@)) == first_key(pairs_of(pairs@).skip(i as int)),
        decreases pairs.len() - i,
    {
        let name = to_chars(pairs[i].0.as_str());
        proof {
            let rest = pairs_of(pairs@).skip(i as int);
            assert(rest[0] == (pairs@[i as int].0@, pairs@[i as int].1@));
            assert(rest.drop_first() =~= pairs_of(pairs@).skip(i + 1));
        }
        if chars_eq(name.as_slice(), key.as_slice()) {
            return Some(pairs[i].1.clone());
        }
        i = i + 1;
    }
    proof {
        assert(pairs_of(pairs@).skip(i as int) =~= Seq::<(Seq<char>, Seq<char>)>::empty());
    }
    None
}

fn rating_key_of(key: &str) -> (r: Option<String>)
    ensures
        match after_last_slash(key@) {
            Some(k) => r matches Some(s) && s@ == k,
            None => r is None,
        },
{
    let chars = to_chars(key);
    let mut i = chars.len();
    while i > 0
        invariant
            i <= chars.len(),
            chars@ == key@,
            forall|j: int| i <= j < chars.len() ==> chars@[j] != '/',
        decreases i,
    {
        if chars[i - 1] == '/' {
            let rest = slice_chars(chars.as_slice(), i, chars.len());
            proof {
                let w = (i - 1) as int;
                assert(exists|k: int| 0 <= k < key@.len() && key@[k] == '/');
                let c = choose|k: int|
                    0 <= k < key@.len() && key@[k] == '/' && forall|j: int|
                        k < j < key@.len() ==> key@[j] != '/';
                assert(c == w) by {
                    if c < w {
                        assert(key@[w] == '/');
                    }
                    if c > w {
                        assert(chars@[c] != '/');
                    }
                }
                assert(rest@ =~= key@.skip(w + 1));
            }
            return Some(from_chars(rest.as_slice()));
        }
        i = i - 1;
    }
    None
}

/// The server and rating key of the item whose page is at `url`.
pub fn sync_item_from_url(url: &str) -> (r: Result<(String, String), AddUrlError>)
    ensures
        match item_from_parts(url_fragment(url@), |s: Seq<char>| relative_parts(s)) {
            Ok((server, key)) => r matches Ok((s, k)) && s@ == server && k@ == key,
            Err(e) => r == Err::<(String, String), AddUrlError>(e),
        },
{
    let fragment = match parse_fragment(url) {
        Err(_) => {
            return Err(AddUrlError::Url);
        },
        Ok(None) => {
            return Err(AddUrlError::Unexpected);
        },
        Ok(Some(f)) => f,
    };
    let chars = to_chars(fragment.as_str());
    if chars.len() == 0 || chars[0] != '!' {
        return Err(AddUrlError::Unexpected);
    }
    let rest = slice_chars(chars.as_slice(), 1, chars.len());
    proof {
        assert(rest@ =~= fragment@.drop_first());
    }
    let rest_text = from_chars(rest.as_slice());
    let (segments, pairs) = match parse_relative(rest_text.as_str()) {
        Err(_) => {
            return Err(AddUrlError::Url);
        },
        Ok(parts) => parts,
    };
    let segments = match segments {
        None => {
            return Err(AddUrlError::Unexpected);
        },
        Some(s) => s,
    };
    proof {
        reveal_strlit("server");
    }
    let server_word = to_chars("server");
    if segments.len() < 2 {
        return Err(AddUrlError::Unexpected);
    }
    let first = to_chars(segments[0].as_str());
    if !chars_eq(first.as_slice(), server_word.as_slice()) {
        proof {
            assert(strings_of(segments@)[0] == segments@[0]@);
        }
        return Err(AddUrlError::Unexpected);
    }
    proof {
        assert(strings_of(segments@)[0] == segments@[0]@);
        assert(strings_of(segments@)[1] == segments@[1]@);
    }
    let key = match find_key(&pairs) {
        None => {
            return Err(AddUrlError::Unexpected);
        },
        Some(k) => k,
    };
    match rating_key_of(key.as_str()) {
        None => Err(AddUrlError::Unexpected),
        Some(rating_key) => Ok((segments[1].clone(), rating_key)),
    }
}

} // verus!
