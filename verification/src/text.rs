//! Character-level text handling shared by the protocol and naming code:
//! trimming, ASCII case folding, decimal formatting and parsing.
use vstd::prelude::*;
use vstd::utf8::*;

verus! {

// ---------------------------------------------------------------------------
// Specifications
// ---------------------------------------------------------------------------

/// The characters with the Unicode `White_Space` property.
pub open spec fn is_whitespace_spec(c: char) -> bool {
    let u = c as u32;
    ||| 0x09 <= u <= 0x0d
    ||| u == 0x20
    ||| u == 0x85
    ||| u == 0xa0
    ||| u == 0x1680
    ||| 0x2000 <= u <= 0x200a
    ||| u == 0x2028
    ||| u == 0x2029
    ||| u == 0x202f
    ||| u == 0x205f
    ||| u == 0x3000
}

/// Removes every leading character satisfying `p`.
pub open spec fn strip_start(s: Seq<char>, p: spec_fn(char) -> bool) -> Seq<char>
    decreases s.len(),
{
    if s.len() > 0 && p(s[0]) {
        strip_start(s.drop_first(), p)
    } else {
        s
    }
}

/// Removes every trailing character satisfying `p`.
pub open spec fn strip_end(s: Seq<char>, p: spec_fn(char) -> bool) -> Seq<char>
    decreases s.len(),
{
    if s.len() > 0 && p(s.last()) {
        strip_end(s.drop_last(), p)
    } else {
        s
    }
}

/// `str::trim`: leading and trailing whitespace removed.
pub open spec fn trim_spec(s: Seq<char>) -> Seq<char> {
    strip_end(strip_start(s, |c: char| is_whitespace_spec(c)), |c: char| is_whitespace_spec(c))
}

/// `str::trim_matches('"')`: leading and trailing double quotes removed.
pub open spec fn trim_quotes_spec(s: Seq<char>) -> Seq<char> {
    strip_end(strip_start(s, |c: char| c == '"'), |c: char| c == '"')
}

/// ASCII upper case letters mapped to lower case, every other character kept.
pub open spec fn ascii_lower_char(c: char) -> char {
    if 'A' <= c <= 'Z' {
        ((c as u32) + 32) as char
    } else {
        c
    }
}

pub open spec fn ascii_lower(s: Seq<char>) -> Seq<char> {
    s.map_values(|c: char| ascii_lower_char(c))
}

/// The character for a decimal digit.
pub open spec fn digit_char(d: nat) -> char {
    if d == 0 {
        '0'
    } else if d == 1 {
        '1'
    } else if d == 2 {
        '2'
    } else if d == 3 {
        '3'
    } else if d == 4 {
        '4'
    } else if d == 5 {
        '5'
    } else if d == 6 {
        '6'
    } else if d == 7 {
        '7'
    } else if d == 8 {
        '8'
    } else {
        '9'
    }
}

/// The value of a decimal digit character.
pub open spec fn digit_value(c: char) -> nat {
    if c == '1' {
        1
    } else if c == '2' {
        2
    } else if c == '3' {
        3
    } else if c == '4' {
        4
    } else if c == '5' {
        5
    } else if c == '6' {
        6
    } else if c == '7' {
        7
    } else if c == '8' {
        8
    } else if c == '9' {
        9
    } else {
        0
    }
}

/// The decimal representation of a number, without leading zeros.
pub open spec fn decimal(n: nat) -> Seq<char>
    decreases n,
{
    if n < 10 {
        seq![digit_char(n)]
    } else {
        decimal(n / 10).push(digit_char(n % 10))
    }
}

/// The decimal representation left padded with zeros to at least two characters.
pub open spec fn decimal2(n: nat) -> Seq<char> {
    if n < 10 {
        seq!['0', digit_char(n)]
    } else {
        decimal(n)
    }
}

pub open spec fn is_digit(c: char) -> bool {
    '0' <= c <= '9'
}

/// The value of a sequence of decimal digits.
pub open spec fn digits_value(s: Seq<char>) -> nat
    decreases s.len(),
{
    if s.len() == 0 {
        0
    } else {
        digits_value(s.drop_last()) * 10 + digit_value(s.last())
    }
}

/// What `u64::from_str` accepts: an optional `+` followed by at least one decimal
/// digit, with a value that fits in 64 bits.
pub open spec fn parse_u64_spec(s: Seq<char>) -> Option<u64> {
    let d = if s.len() > 0 && s[0] == '+' {
        s.drop_first()
    } else {
        s
    };
    if d.len() > 0 && (forall|i: int| 0 <= i < d.len() ==> is_digit(#[trigger] d[i]))
        && digits_value(d) <= u64::MAX {
        Some(digits_value(d) as u64)
    } else {
        None
    }
}

pub open spec fn starts_with(s: Seq<char>, prefix: Seq<char>) -> bool {
    prefix.len() <= s.len() && s.take(prefix.len() as int) == prefix
}

pub open spec fn ends_with(s: Seq<char>, suffix: Seq<char>) -> bool {
    suffix.len() <= s.len() && s.skip(s.len() - suffix.len()) == suffix
}

/// The index of the first occurrence of `c`, if any.
pub open spec fn find_char(s: Seq<char>, c: char) -> Option<int>
    decreases s.len(),
{
    if s.len() == 0 {
        None
    } else if s[0] == c {
        Some(0)
    } else {
        match find_char(s.drop_first(), c) {
            Some(i) => Some(i + 1),
            None => None,
        }
    }
}

/// Every character is a printable ASCII character or a tab.
pub open spec fn visible_ascii(s: Seq<char>) -> bool {
    forall|i: int|
        0 <= i < s.len() ==> {
            let u = #[trigger] s[i] as u32;
            (32 <= u < 127) || u == 9
        }
}

// ---------------------------------------------------------------------------
// Trusted items for std functions that vstd gives no specification
// ---------------------------------------------------------------------------

#[verifier::external_type_specification]
#[verifier::external_body]
pub struct ExUtf8Error(core::str::Utf8Error);

#[verifier::external_type_specification]
#[verifier::external_body]
pub struct ExParseIntError(core::num::ParseIntError);

/// `core::str::from_utf8` succeeds exactly on valid UTF-8 and yields the decoded
/// characters.
pub assume_specification[ core::str::from_utf8 ](v: &[u8]) -> (r: Result<
    &str,
    core::str::Utf8Error,
>)
    ensures
        r is Ok <==> valid_utf8(v@),
        r matches Ok(s) ==> s@ == decode_utf8(v@),
;

/// `String::push` appends one character.
pub assume_specification[ String::push ](s: &mut String, ch: char)
    ensures
        final(s)@ == old(s)@.push(ch),
;

/// `u64::from_str` accepts an optional `+` and decimal digits whose value fits.
pub assume_specification[ <u64 as core::str::FromStr>::from_str ](s: &str) -> (r: Result<
    u64,
    core::num::ParseIntError,
>)
    ensures
        r is Ok <==> parse_u64_spec(s@) is Some,
        r matches Ok(n) ==> parse_u64_spec(s@) == Some(n),
;

/// `usize::from_str` accepts what `u64::from_str` accepts when the value fits.
pub assume_specification[ <usize as core::str::FromStr>::from_str ](s: &str) -> (r: Result<
    usize,
    core::num::ParseIntError,
>)
    ensures
        r is Ok <==> (parse_u64_spec(s@) matches Some(n) && n <= usize::MAX),
        r matches Ok(n) ==> parse_u64_spec(s@) == Some(n as u64),
;

/// What `str::to_lowercase` returns (full Unicode case mapping).
pub uninterp spec fn unicode_lowercase(s: Seq<char>) -> Seq<char>;

/// `str::to_lowercase`: on ASCII text the Unicode mapping is the ASCII one.
pub open spec fn lowercase_spec(s: Seq<char>) -> Seq<char> {
    if is_ascii_chars(s) {
        ascii_lower(s)
    } else {
        unicode_lowercase(s)
    }
}

/// Calls `str::to_lowercase`. On ASCII text the result is the ASCII lower case;
/// otherwise it is named by `unicode_lowercase`, and which non-ASCII characters
/// change is left unsaid.
#[verifier::external_body]
pub fn to_lowercase(s: &str) -> (r: String)
    ensures
        r@ == lowercase_spec(s@),
        !is_ascii_chars(s@) ==> r@ == unicode_lowercase(s@),
{
    s.to_lowercase()
}

// ---------------------------------------------------------------------------
// Lemmas
// ---------------------------------------------------------------------------

pub proof fn lemma_strip_start(s: Seq<char>, p: spec_fn(char) -> bool, i: int)
    requires
        0 <= i <= s.len(),
        forall|k: int| 0 <= k < i ==> p(#[trigger] s[k]),
        i == s.len() || !p(s[i]),
    ensures
        strip_start(s, p) == s.skip(i),
    decreases i,
{
    if i == 0 {
        assert(s.skip(0) =~= s);
    } else {
        assert(p(s[0]));
        let t = s.drop_first();
        assert forall|k: int| 0 <= k < i - 1 implies p(#[trigger] t[k]) by {
            assert(t[k] == s[k + 1]);
        }
        if i - 1 < t.len() {
            assert(t[i - 1] == s[i]);
        }
        lemma_strip_start(t, p, i - 1);
        assert(t.skip(i - 1) =~= s.skip(i));
    }
}

pub proof fn lemma_strip_end(s: Seq<char>, p: spec_fn(char) -> bool, j: int)
    requires
        0 <= j <= s.len(),
        forall|k: int| j <= k < s.len() ==> p(#[trigger] s[k]),
        j == 0 || !p(s[j - 1]),
    ensures
        strip_end(s, p) == s.take(j),
    decreases s.len() - j,
{
    if j == s.len() {
        assert(s.take(j) =~= s);
    } else {
        assert(p(s.last()));
        let t = s.drop_last();
        assert forall|k: int| j <= k < t.len() implies p(#[trigger] t[k]) by {
            assert(t[k] == s[k]);
        }
        if j > 0 {
            assert(t[j - 1] == s[j - 1]);
        }
        lemma_strip_end(t, p, j);
        assert(t.take(j) =~= s.take(j));
    }
}

/// Stripping never lengthens and keeps a suffix.
pub proof fn lemma_strip_start_suffix(s: Seq<char>, p: spec_fn(char) -> bool)
    ensures
        strip_start(s, p).len() <= s.len(),
        strip_start(s, p) == s.skip(s.len() - strip_start(s, p).len()),
    decreases s.len(),
{
    if s.len() > 0 && p(s[0]) {
        lemma_strip_start_suffix(s.drop_first(), p);
        let r = strip_start(s.drop_first(), p);
        assert(s.drop_first().skip(s.drop_first().len() - r.len()) =~= s.skip(s.len() - r.len()));
    } else {
        assert(s.skip(0) =~= s);
    }
}

/// A sequence with no stripped characters at its ends is its own trim.
pub proof fn lemma_strip_noop(s: Seq<char>, p: spec_fn(char) -> bool)
    requires
        s.len() == 0 || (!p(s[0]) && !p(s.last())),
    ensures
        strip_end(strip_start(s, p), p) == s,
{
    lemma_strip_start(s, p, 0);
    assert(s.skip(0) =~= s);
    lemma_strip_end(s, p, s.len() as int);
    assert(s.take(s.len() as int) =~= s);
}

pub proof fn lemma_decimal_digits(n: nat)
    ensures
        decimal(n).len() > 0,
        forall|i: int| 0 <= i < decimal(n).len() ==> is_digit(#[trigger] decimal(n)[i]),
        digits_value(decimal(n)) == n,
    decreases n,
{
    if n < 10 {
        let d = decimal(n);
        assert(d.drop_last() =~= Seq::<char>::empty());
        assert(digits_value(d.drop_last()) == 0);
        assert(digit_value(digit_char(n)) == n);
        assert(digits_value(d) == digits_value(d.drop_last()) * 10 + digit_value(d.last()));
    } else {
        lemma_decimal_digits(n / 10);
        let d = decimal(n);
        assert(d.drop_last() =~= decimal(n / 10));
        assert(digit_value(digit_char(n % 10)) == n % 10);
        assert(d.last() == digit_char(n % 10));
        assert((n / 10) * 10 + n % 10 == n);
        assert(digits_value(d) == digits_value(d.drop_last()) * 10 + digit_value(d.last()));
        assert forall|i: int| 0 <= i < d.len() implies is_digit(#[trigger] d[i]) by {
            if i < d.len() - 1 {
                assert(d[i] == decimal(n / 10)[i]);
            }
        }
    }
}

/// Formatting a number in decimal and parsing it back gives the number.
pub proof fn lemma_parse_decimal(n: u64)
    ensures
        parse_u64_spec(decimal(n as nat)) == Some(n),
{
    lemma_decimal_digits(n as nat);
    let d = decimal(n as nat);
    assert(is_digit(d[0]));
}

/// Decimal text is ASCII.
pub proof fn lemma_decimal_ascii(n: nat)
    ensures
        is_ascii_chars(decimal(n)),
        visible_ascii(decimal(n)),
        !decimal(n).contains('"'),
{
    lemma_decimal_digits(n);
    assert forall|i: int| 0 <= i < decimal(n).len() implies '\0' <= #[trigger] decimal(n)[i]
        <= '\u{7f}' by {
        assert(is_digit(decimal(n)[i]));
    }
    assert forall|i: int| 0 <= i < decimal(n).len() implies {
        let u = #[trigger] decimal(n)[i] as u32;
        (32 <= u < 127) || u == 9
    } by {
        assert(is_digit(decimal(n)[i]));
    }
    if decimal(n).contains('"') {
        let i = choose|i: int| 0 <= i < decimal(n).len() && decimal(n)[i] == '"';
        assert(is_digit(decimal(n)[i]));
    }
}

// ---------------------------------------------------------------------------
// Executable helpers
// ---------------------------------------------------------------------------

/// Whether a character has the Unicode `White_Space` property (`char::is_whitespace`).
pub fn is_whitespace(c: char) -> (r: bool)
    ensures
        r == is_whitespace_spec(c),
{
    let u = c as u32;
    (0x09 <= u && u <= 0x0d) || u == 0x20 || u == 0x85 || u == 0xa0 || u == 0x1680 || (0x2000
        <= u && u <= 0x200a) || u == 0x2028 || u == 0x2029 || u == 0x202f || u == 0x205f || u
        == 0x3000
}

/// The characters of a string.
pub fn to_chars(s: &str) -> (r: Vec<char>)
    ensures
        r@ == s@,
{
    let mut r: Vec<char> = Vec::new();
    for c in it: s.chars()
        invariant
            r@ == it.seq().take(it.index() as int),
            it.seq() == s@,
    {
        r.push(c);
    }
    r
}

/// A string made of the given characters.
pub fn from_chars(v: &[char]) -> (r: String)
    ensures
        r@ == v@,
{
    let mut r = String::new();
    let mut i: usize = 0;
    while i < v.len()
        invariant
            i <= v.len(),
            r@ == v@.take(i as int),
        decreases v.len() - i,
    {
        r.push(v[i]);
        i = i + 1;
        assert(r@ == v@.take(i as int));
    }
    assert(v@.take(v.len() as int) == v@);
    r
}

/// Appends all characters of `v` to `s`.
pub fn push_chars(s: &mut String, v: &[char])
    ensures
        final(s)@ == old(s)@ + v@,
{
    let mut i: usize = 0;
    while i < v.len()
        invariant
            i <= v.len(),
            s@ == old(s)@ + v@.take(i as int),
        decreases v.len() - i,
    {
        s.push(v[i]);
        i = i + 1;
        assert(s@ =~= old(s)@ + v@.take(i as int));
    }
    assert(v@.take(v.len() as int) == v@);
}

/// Appends all characters of `t` to `s`.
pub fn push_str(s: &mut String, t: &str)
    ensures
        final(s)@ == old(s)@ + t@,
{
    let v = to_chars(t);
    push_chars(s, v.as_slice());
}

/// Copies `v[from..to]`.
pub fn slice_chars(v: &[char], from: usize, to: usize) -> (r: Vec<char>)
    requires
        from <= to <= v.len(),
    ensures
        r@ == v@.subrange(from as int, to as int),
{
    let mut r: Vec<char> = Vec::new();
    let mut i = from;
    while i < to
        invariant
            from <= i <= to <= v.len(),
            r@ == v@.subrange(from as int, i as int),
        decreases to - i,
    {
        r.push(v[i]);
        i = i + 1;
        assert(r@ =~= v@.subrange(from as int, i as int));
    }
    r
}

/// `str::trim` on a character sequence.
pub fn trim(v: &[char]) -> (r: Vec<char>)
    ensures
        r@ == trim_spec(v@),
{
    let ghost p = |c: char| is_whitespace_spec(c);
    let mut i: usize = 0;
    while i < v.len() && is_whitespace(v[i])
        invariant
            i <= v.len(),
            forall|k: int| 0 <= k < i ==> is_whitespace_spec(#[trigger] v@[k]),
        decreases v.len() - i,
    {
        i = i + 1;
    }
    proof {
        lemma_strip_start(v@, p, i as int);
    }
    let ghost s = v@.skip(i as int);
    let mut j: usize = v.len();
    while j > i && is_whitespace(v[j - 1])
        invariant
            i <= j <= v.len(),
            s == v@.skip(i as int),
            forall|k: int| j <= k < v.len() ==> is_whitespace_spec(#[trigger] v@[k]),
        decreases j - i,
    {
        j = j - 1;
    }
    proof {
        assert forall|k: int| (j - i) <= k < s.len() implies p(#[trigger] s[k]) by {
            assert(s[k] == v@[k + i]);
        }
        if j > i {
            assert(s[j - i - 1] == v@[j - 1]);
        }
        lemma_strip_end(s, p, (j - i) as int);
        assert(s.take((j - i) as int) =~= v@.subrange(i as int, j as int));
    }
    slice_chars(v, i, j)
}

/// `str::trim_matches('"')` on a character sequence.
pub fn trim_quotes(v: &[char]) -> (r: Vec<char>)
    ensures
        r@ == trim_quotes_spec(v@),
{
    let ghost p = |c: char| c == '"';
    let mut i: usize = 0;
    while i < v.len() && v[i] == '"'
        invariant
            i <= v.len(),
            forall|k: int| 0 <= k < i ==> #[trigger] v@[k] == '"',
        decreases v.len() - i,
    {
        i = i + 1;
    }
    proof {
        lemma_strip_start(v@, p, i as int);
    }
    let ghost s = v@.skip(i as int);
    let mut j: usize = v.len();
    while j > i && v[j - 1] == '"'
        invariant
            i <= j <= v.len(),
            s == v@.skip(i as int),
            forall|k: int| j <= k < v.len() ==> #[trigger] v@[k] == '"',
        decreases j - i,
    {
        j = j - 1;
    }
    proof {
        assert forall|k: int| (j - i) <= k < s.len() implies p(#[trigger] s[k]) by {
            assert(s[k] == v@[k + i]);
        }
        if j > i {
            assert(s[j - i - 1] == v@[j - 1]);
        }
        lemma_strip_end(s, p, (j - i) as int);
        assert(s.take((j - i) as int) =~= v@.subrange(i as int, j as int));
    }
    slice_chars(v, i, j)
}

/// The index of the first occurrence of `c` (`str::find` with a character).
pub fn find(v: &[char], c: char) -> (r: Option<usize>)
    ensures
        match r {
            Some(i) => find_char(v@, c) == Some(i as int),
            None => find_char(v@, c) is None,
        },
        r matches Some(i) ==> i < v.len() && v@[i as int] == c,
{
    let mut i: usize = 0;
    while i < v.len()
        invariant
            i <= v.len(),
            forall|k: int| 0 <= k < i ==> v@[k] != c,
        decreases v.len() - i,
    {
        if v[i] == c {
            proof {
                lemma_find_char(v@, c, i as int);
            }
            return Some(i);
        }
        i = i + 1;
    }
    proof {
        lemma_find_char_none(v@, c);
    }
    None
}

pub proof fn lemma_find_char(s: Seq<char>, c: char, i: int)
    requires
        0 <= i < s.len(),
        s[i] == c,
        forall|k: int| 0 <= k < i ==> s[k] != c,
    ensures
        find_char(s, c) == Some(i),
    decreases i,
{
    if i > 0 {
        let t = s.drop_first();
        assert forall|k: int| 0 <= k < i - 1 implies t[k] != c by {
            assert(t[k] == s[k + 1]);
        }
        lemma_find_char(t, c, i - 1);
    }
}

pub proof fn lemma_find_char_none(s: Seq<char>, c: char)
    requires
        forall|k: int| 0 <= k < s.len() ==> s[k] != c,
    ensures
        find_char(s, c) is None,
    decreases s.len(),
{
    if s.len() > 0 {
        let t = s.drop_first();
        assert forall|k: int| 0 <= k < t.len() implies t[k] != c by {
            assert(t[k] == s[k + 1]);
        }
        lemma_find_char_none(t, c);
    }
}

/// Whether `v` starts with `prefix`.
pub fn starts_with_chars(v: &[char], prefix: &[char]) -> (r: bool)
    ensures
        r == starts_with(v@, prefix@),
{
    if prefix.len() > v.len() {
        return false;
    }
    let mut i: usize = 0;
    while i < prefix.len()
        invariant
            i <= prefix.len() <= v.len(),
            forall|k: int| 0 <= k < i ==> v@[k] == prefix@[k],
        decreases prefix.len() - i,
    {
        if v[i] != prefix[i] {
            assert(v@.take(prefix.len() as int)[i as int] != prefix@[i as int]);
            return false;
        }
        i = i + 1;
    }
    assert(v@.take(prefix.len() as int) =~= prefix@);
    true
}

/// Whether `v` ends with `suffix`.
pub fn ends_with_chars(v: &[char], suffix: &[char]) -> (r: bool)
    ensures
        r == ends_with(v@, suffix@),
{
    if suffix.len() > v.len() {
        return false;
    }
    let off = v.len() - suffix.len();
    let mut i: usize = 0;
    while i < suffix.len()
        invariant
            i <= suffix.len() <= v.len(),
            off == v.len() - suffix.len(),
            forall|k: int| 0 <= k < i ==> v@[off + k] == suffix@[k],
        decreases suffix.len() - i,
    {
        if v[off + i] != suffix[i] {
            assert(v@.skip(off as int)[i as int] != suffix@[i as int]);
            return false;
        }
        i = i + 1;
    }
    assert(v@.skip(off as int) =~= suffix@);
    true
}

/// Whether two character sequences are equal.
pub fn chars_eq(a: &[char], b: &[char]) -> (r: bool)
    ensures
        r == (a@ == b@),
{
    if a.len() != b.len() {
        return false;
    }
    let r = starts_with_chars(a, b);
    assert(a@.take(b.len() as int) =~= a@);
    r
}

/// Whether every character is visible ASCII or a tab (what `HeaderValue::to_str` accepts).
pub fn is_visible_ascii(v: &[char]) -> (r: bool)
    ensures
        r == visible_ascii(v@),
{
    let mut i: usize = 0;
    while i < v.len()
        invariant
            i <= v.len(),
            visible_ascii(v@.take(i as int)),
        decreases v.len() - i,
    {
        let u = v[i] as u32;
        if !((32 <= u && u < 127) || u == 9) {
            return false;
        }
        i = i + 1;
        assert forall|k: int| 0 <= k < i implies {
            let w = #[trigger] v@.take(i as int)[k] as u32;
            (32 <= w < 127) || w == 9
        } by {
            if k < i - 1 {
                assert(v@.take(i as int)[k] == v@.take(i - 1)[k]);
            }
        }
    }
    assert(v@.take(v.len() as int) =~= v@);
    true
}

/// Appends the decimal representation of `n` (`u64`'s `Display`).
pub fn push_decimal(s: &mut String, n: u64)
    ensures
        final(s)@ == old(s)@ + decimal(n as nat),
    decreases n,
{
    if n >= 10 {
        push_decimal(s, n / 10);
    }
    let d = n % 10;
    let ch = if d == 0 {
        '0'
    } else if d == 1 {
        '1'
    } else if d == 2 {
        '2'
    } else if d == 3 {
        '3'
    } else if d == 4 {
        '4'
    } else if d == 5 {
        '5'
    } else if d == 6 {
        '6'
    } else if d == 7 {
        '7'
    } else if d == 8 {
        '8'
    } else {
        '9'
    };
    s.push(ch);
    proof {
        assert(ch == digit_char((n % 10) as nat));
        assert(s@ =~= old(s)@ + decimal(n as nat));
    }
}

/// The decimal representation of `n`.
pub fn decimal_string(n: u64) -> (r: String)
    ensures
        r@ == decimal(n as nat),
{
    let mut s = String::new();
    push_decimal(&mut s, n);
    assert(s@ =~= decimal(n as nat));
    s
}

/// Appends `n` in decimal, left padded with zeros to two digits (`{:02}`).
pub fn push_decimal2(s: &mut String, n: u64)
    ensures
        final(s)@ == old(s)@ + decimal2(n as nat),
{
    if n < 10 {
        s.push('0');
    }
    push_decimal(s, n);
    proof {
        if n < 10 {
            assert(decimal(n as nat) =~= seq![digit_char(n as nat)]);
        }
        assert(s@ =~= old(s)@ + decimal2(n as nat));
    }
}

} // verus!
