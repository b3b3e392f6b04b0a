//! Text the tools make for people and for the file system: file name safe
//! strings, sortable titles, durations, percentages and table columns.
use vstd::prelude::*;

use crate::text::{
    decimal, decimal2, lowercase_spec, push_chars, push_decimal, push_decimal2, push_str,
    slice_chars, starts_with, starts_with_chars, to_chars, to_lowercase, trim, trim_spec,
};

verus! {

broadcast use vstd::seq_lib::group_seq_properties;

// ---------------------------------------------------------------------------
// File name safe text
// ---------------------------------------------------------------------------

/// Characters that cannot safely appear in a file name become `_`.
pub open spec fn safe_char(c: char) -> char {
    if c == '#' || c == '%' || c == '{' || c == '}' || c == '\\' || c == '/' || c == '<' || c
        == '>' || c == '*' || c == '?' || c == '$' || c == '!' || c == '"' || c == '\'' || c
        == ':' || c == '@' || c == '+' || c == '`' || c == '|' || c == '=' {
        '_'
    } else {
        c
    }
}

pub open spec fn safe_spec(s: Seq<char>) -> Seq<char> {
    s.map_values(|c: char| safe_char(c))
}

fn safe_char_exec(c: char) -> (r: char)
    ensures
        r == safe_char(c),
{
    match c {
        '#' | '%' | '{' | '}' | '\\' | '/' | '<' | '>' | '*' | '?' | '$' | '!' | '"' | '\''
        | ':' | '@' | '+' | '`' | '|' | '=' => '_',
        _ => c,
    }
}

/// The text with every character that is unsafe in a file name replaced by `_`.
pub fn safe(s: &str) -> (r: String)
    ensures
        r@ == safe_spec(s@),
{
    let chars = to_chars(s);
    let mut out = String::new();
    let mut i: usize = 0;
    while i < chars.len()
        invariant
            i <= chars.len(),
            chars@ == s@,
            out@ == safe_spec(s@.take(i as int)),
        decreases chars.len() - i,
    {
        out.push(safe_char_exec(chars[i]));
        proof {
            assert(s@.take(i + 1) =~= s@.take(i as int).push(s@[i as int]));
            assert(safe_spec(s@.take(i + 1)) =~= safe_spec(s@.take(i as int)).push(
                safe_char(s@[i as int]),
            ));
        }
        i = i + 1;
    }
    proof {
        assert(s@.take(s@.len() as int) =~= s@);
    }
    out
}

/// Making text safe twice changes nothing more.
pub proof fn lemma_safe_idempotent(s: Seq<char>)
    ensures
        safe_spec(safe_spec(s)) == safe_spec(s),
{
    assert(safe_spec(safe_spec(s)) =~= safe_spec(s));
}

// ---------------------------------------------------------------------------
// Titles
// ---------------------------------------------------------------------------

/// `str::trim_start_matches`: every leading copy of `p` removed.
pub open spec fn strip_prefixes(s: Seq<char>, p: Seq<char>) -> Seq<char>
    decreases s.len(),
{
    if p.len() > 0 && starts_with(s, p) {
        strip_prefixes(s.skip(p.len() as int), p)
    } else {
        s
    }
}

fn strip_prefixes_exec(v: &[char], p: &[char]) -> (r: Vec<char>)
    ensures
        r@ == strip_prefixes(v@, p@),
{
    if p.len() == 0 {
        return slice_chars(v, 0, v.len());
    }
    let mut start: usize = 0;
    while start <= v.len()
        invariant
            start <= v.len(),
            p.len() > 0,
            strip_prefixes(v@, p@) == strip_prefixes(v@.skip(start as int), p@),
        decreases v.len() - start,
    {
        let rest = slice_chars(v, start, v.len());
        proof {
            assert(rest@ =~= v@.skip(start as int));
        }
        if starts_with_chars(rest.as_slice(), p) {
            proof {
                assert(v@.skip(start as int).skip(p.len() as int) =~= v@.skip(start + p.len()));
            }
            start = start + p.len();
        } else {
            return rest;
        }
    }
    Vec::new()
}

/// The title used to sort: lower case, without surrounding whitespace and without
/// a leading "a " or "the ".
pub open spec fn uniform_title_spec(s: Seq<char>) -> Seq<char> {
    trim_spec(
        strip_prefixes(
            trim_spec(strip_prefixes(trim_spec(lowercase_spec(s)), "a "@)),
            "the "@,
        ),
    )
}

pub fn uniform_title(title: &str) -> (r: String)
    ensures
        r@ == uniform_title_spec(title@),
{
    let lower = to_lowercase(title);
    let chars = to_chars(lower.as_str());
    let a = to_chars("a ");
    let the = to_chars("the ");
    let t1 = trim(chars.as_slice());
    let t2 = strip_prefixes_exec(t1.as_slice(), a.as_slice());
    let t3 = trim(t2.as_slice());
    let t4 = strip_prefixes_exec(t3.as_slice(), the.as_slice());
    let t5 = trim(t4.as_slice());
    crate::text::from_chars(t5.as_slice())
}

// ---------------------------------------------------------------------------
// Numbers for people
// ---------------------------------------------------------------------------

/// A duration in seconds as `H:MM:SS`, with `D days, ` in front when it is a day
/// or more.
pub open spec fn format_duration_spec(total: nat) -> Seq<char> {
    let seconds = total % 60;
    let minutes = (total / 60) % 60;
    let hours = (total / 3600) % 24;
    let days = total / 86400;
    let clock = decimal(hours) + ":"@ + decimal2(minutes) + ":"@ + decimal2(seconds);
    if days > 0 {
        decimal(days) + " days, "@ + clock
    } else {
        clock
    }
}

pub fn format_duration(total: u64) -> (r: String)
    ensures
        r@ == format_duration_spec(total as nat),
{
    let mut rest = total;
    let seconds = rest % 60;
    rest = (rest - seconds) / 60;
    let minutes = rest % 60;
    rest = (rest - minutes) / 60;
    let hours = rest % 24;
    let days = (rest - hours) / 24;
    proof {
        assert(rest == total / 3600) by (nonlinear_arith)
            requires
                seconds == total % 60,
                rest == ((total - seconds) / 60 - (total - seconds) / 60 % 60) / 60,
        {
        }
        assert(minutes == (total / 60) % 60) by (nonlinear_arith)
            requires
                seconds == total % 60,
                minutes == ((total - seconds) / 60) % 60,
        {
        }
        assert(days == total / 86400) by (nonlinear_arith)
            requires
                rest == total / 3600,
                hours == rest % 24,
                days == (rest - hours) / 24,
        {
        }
    }
    let mut s = String::new();
    if days > 0 {
        push_decimal(&mut s, days);
        push_str(&mut s, " days, ");
    }
    push_decimal(&mut s, hours);
    push_str(&mut s, ":");
    push_decimal2(&mut s, minutes);
    push_str(&mut s, ":");
    push_decimal2(&mut s, seconds);
    proof {
        assert(s@ =~= format_duration_spec(total as nat));
    }
    s
}

/// How much of `b` `a` is, as a whole percentage: `100%` once `a` reaches `b`.
pub open spec fn percent_spec(a: nat, b: nat) -> Seq<char> {
    if a >= b {
        "100%"@
    } else {
        decimal((a * 100) / b) + "%"@
    }
}

pub fn percent(a: u64, b: u64) -> (r: String)
    requires
        a < b ==> a * 100 <= u64::MAX,
    ensures
        r@ == percent_spec(a as nat, b as nat),
{
    if a >= b {
        "100%".to_owned()
    } else {
        let mut s = String::new();
        push_decimal(&mut s, (a * 100) / b);
        push_str(&mut s, "%");
        proof {
            assert(s@ =~= percent_spec(a as nat, b as nat));
        }
        s
    }
}

// ---------------------------------------------------------------------------
// Table columns
// ---------------------------------------------------------------------------

pub open spec fn spaces(n: nat) -> Seq<char> {
    Seq::new(n, |i: int| ' ')
}

/// Text left aligned in a column of `width` characters (`{:width}`): padded with
/// spaces, never cut.
pub open spec fn pad_spec(s: Seq<char>, width: nat) -> Seq<char> {
    if s.len() < width {
        s + spaces((width - s.len()) as nat)
    } else {
        s
    }
}

pub fn push_padded(out: &mut String, s: &str, width: usize)
    ensures
        final(out)@ == old(out)@ + pad_spec(s@, width as nat),
{
    let chars = to_chars(s);
    push_chars(out, chars.as_slice());
    let mut n: usize = chars.len();
    while n < width
        invariant
            chars@ == s@,
            chars.len() <= n <= width || (n == chars.len() && n >= width),
            out@ == old(out)@ + s@ + spaces((n - chars.len()) as nat),
        decreases width - n,
    {
        out.push(' ');
        proof {
            assert(spaces((n + 1 - chars.len()) as nat) =~= spaces((n - chars.len()) as nat).push(
                ' ',
            ));
        }
        n = n + 1;
    }
    proof {
        if s@.len() >= width {
            assert(spaces(0) =~= Seq::<char>::empty());
        }
        assert(out@ =~= old(out)@ + pad_spec(s@, width as nat));
    }
}

} // verus!
