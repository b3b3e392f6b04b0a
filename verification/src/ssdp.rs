//! SSDP (the discovery part of UPnP): the messages a media server sends and
//! receives over UDP, how they are decoded from a datagram buffer and encoded
//! into one.
use vstd::prelude::*;
use vstd::utf8::*;

use crate::buffer::{buffer_advance, buffer_bytes, buffer_contents};
use crate::text::{decimal, push_decimal, push_str};
use crate::text::{
    ascii_lower, chars_eq, ends_with, ends_with_chars, find, find_char, from_chars,
    is_visible_ascii, parse_u64_spec, slice_chars, to_chars, to_lowercase, trim, trim_quotes,
    trim_quotes_spec, trim_spec, lowercase_spec, visible_ascii,
};

verus! {

broadcast use vstd::seq_lib::group_seq_properties;

/// Why a packet could not be decoded, or a line of it could not be parsed.
#[derive(Debug, Clone, Copy, PartialEq, Eq, Structural)]
pub enum SsdpError {
    /// A line of the packet is not valid UTF-8.
    InvalidText,
    /// The request line does not end with `HTTP/1.1`.
    InvalidProtocol,
    /// The request line has no space after its method.
    MissingMethodSeparator,
    /// A header line has no `:`.
    MissingSeparator,
    /// A header name is not an HTTP token.
    InvalidHeaderName,
    /// A header value holds a control character.
    InvalidHeaderValue,
}

/// An SSDP message.
#[allow(inconsistent_fields)]
#[derive(Debug, Clone)]
pub enum SsdpMessage {
    /// A search request (`M-SEARCH`).
    MSearch {
        host: String,
        search_target: String,
        max_wait: Option<u64>,
        user_agent: Option<String>,
    },
    /// A presence announcement (`NOTIFY`).
    Notify {
        host: String,
        notification_type: String,
        unique_service_name: String,
        availability: String,
        location: Option<String>,
        server: String,
    },
    /// The answer to a search request.
    SearchResponse {
        location: String,
        server: String,
        search_target: String,
        unique_service_name: String,
    },
}

/// The abstract value of a message: its fields as character sequences.
#[allow(inconsistent_fields)]
pub enum MessageView {
    MSearch {
        host: Seq<char>,
        search_target: Seq<char>,
        max_wait: Option<u64>,
        user_agent: Option<Seq<char>>,
    },
    Notify {
        host: Seq<char>,
        notification_type: Seq<char>,
        unique_service_name: Seq<char>,
        availability: Seq<char>,
        location: Option<Seq<char>>,
        server: Seq<char>,
    },
    SearchResponse {
        location: Seq<char>,
        server: Seq<char>,
        search_target: Seq<char>,
        unique_service_name: Seq<char>,
    },
}

pub open spec fn opt_view(o: Option<String>) -> Option<Seq<char>> {
    match o {
        Some(s) => Some(s@),
        None => None,
    }
}

impl View for SsdpMessage {
    type V = MessageView;

    open spec fn view(&self) -> MessageView {
        match self {
            SsdpMessage::MSearch { host, search_target, max_wait, user_agent } => {
                MessageView::MSearch {
                    host: host@,
                    search_target: search_target@,
                    max_wait: *max_wait,
                    user_agent: opt_view(*user_agent),
                }
            },
            SsdpMessage::Notify {
                host,
                notification_type,
                unique_service_name,
                availability,
                location,
                server,
            } => MessageView::Notify {
                host: host@,
                notification_type: notification_type@,
                unique_service_name: unique_service_name@,
                availability: availability@,
                location: opt_view(*location),
                server: server@,
            },
            SsdpMessage::SearchResponse {
                location,
                server,
                search_target,
                unique_service_name,
            } => MessageView::SearchResponse {
                location: location@,
                server: server@,
                search_target: search_target@,
                unique_service_name: unique_service_name@,
            },
        }
    }
}

pub open spec fn opt_message_view(o: Option<SsdpMessage>) -> Option<MessageView> {
    match o {
        Some(m) => Some(m@),
        None => None,
    }
}

// ---------------------------------------------------------------------------
// Headers
// ---------------------------------------------------------------------------

/// The headers of a packet as name and value text; a later entry replaces an
/// earlier one with the same name.
pub struct HeaderList {
    pub entries: Vec<(Vec<char>, Vec<char>)>,
}

pub open spec fn entries_view(e: Seq<(Vec<char>, Vec<char>)>) -> Seq<(Seq<char>, Seq<char>)> {
    e.map_values(|p: (Vec<char>, Vec<char>)| (p.0@, p.1@))
}

/// The map that a list of entries stands for.
pub open spec fn entries_map(s: Seq<(Seq<char>, Seq<char>)>) -> Map<Seq<char>, Seq<char>>
    decreases s.len(),
{
    if s.len() == 0 {
        Map::empty()
    } else {
        entries_map(s.drop_last()).insert(s.last().0, s.last().1)
    }
}

impl View for HeaderList {
    type V = Map<Seq<char>, Seq<char>>;

    open spec fn view(&self) -> Map<Seq<char>, Seq<char>> {
        entries_map(entries_view(self.entries@))
    }
}

proof fn lemma_entries_map_skip_tail(s: Seq<(Seq<char>, Seq<char>)>, k: Seq<char>, i: int)
    requires
        0 <= i <= s.len(),
        forall|j: int| i <= j < s.len() ==> (#[trigger] s[j]).0 != k,
    ensures
        entries_map(s).contains_key(k) == entries_map(s.take(i)).contains_key(k),
        entries_map(s).contains_key(k) ==> entries_map(s)[k] == entries_map(s.take(i))[k],
    decreases s.len() - i,
{
    if i < s.len() {
        let t = s.drop_last();
        assert forall|j: int| i <= j < t.len() implies (#[trigger] t[j]).0 != k by {
            assert(t[j] == s[j]);
        }
        lemma_entries_map_skip_tail(t, k, i);
        assert(t.take(i) =~= s.take(i));
    } else {
        assert(s.take(i) =~= s);
    }
}

impl HeaderList {
    /// An empty list.
    pub fn new() -> (r: HeaderList)
        ensures
            r@ == Map::<Seq<char>, Seq<char>>::empty(),
    {
        HeaderList { entries: Vec::new() }
    }

    /// Sets a header, replacing any earlier value of the same name.
    pub fn insert(&mut self, name: Vec<char>, value: Vec<char>)
        ensures
            final(self)@ == old(self)@.insert(name@, value@),
    {
        let ghost old_e = entries_view(self.entries@);
        self.entries.push((name, value));
        proof {
            let e = entries_view(self.entries@);
            assert(e.drop_last() =~= old_e);
        }
    }

    /// The value of a header.
    pub fn get(&self, name: &[char]) -> (r: Option<Vec<char>>)
        ensures
            r is Some <==> self@.contains_key(name@),
            r matches Some(v) ==> v@ == self@[name@],
    {
        let ghost s = entries_view(self.entries@);
        let mut i = self.entries.len();
        while i > 0
            invariant
                i <= self.entries.len(),
                s == entries_view(self.entries@),
                forall|j: int| i <= j < s.len() ==> (#[trigger] s[j]).0 != name@,
            decreases i,
        {
            let found = chars_eq(self.entries[i - 1].0.as_slice(), name);
            if found {
                proof {
                    lemma_entries_map_skip_tail(s, name@, i as int);
                    assert(s.take(i as int).drop_last() =~= s.take(i - 1));
                    assert(s.take(i as int).last() == s[i - 1]);
                }
                return Some(self.entries[i - 1].1.clone());
            }
            i = i - 1;
        }
        proof {
            lemma_entries_map_skip_tail(s, name@, 0);
            assert(s.take(0) =~= Seq::<(Seq<char>, Seq<char>)>::empty());
        }
        None
    }
}

// ---------------------------------------------------------------------------
// Lines
// ---------------------------------------------------------------------------

/// The offset of the first carriage return (13), or the length if there is none.
pub open spec fn cr_index(r: Seq<u8>) -> int
    decreases r.len(),
{
    if r.len() == 0 {
        0
    } else if r[0] == 13 {
        0
    } else {
        1 + cr_index(r.drop_first())
    }
}

/// What reading one CRLF-terminated line at the start of some bytes gives.
pub enum LineScan {
    /// No complete line yet.
    Incomplete,
    /// The line is not valid UTF-8.
    BadText,
    /// The trimmed line and the number of bytes it took, terminator included.
    Line { text: Seq<char>, consumed: int },
}

pub open spec fn line_at(rest: Seq<u8>) -> LineScan {
    let end = cr_index(rest);
    if end + 1 >= rest.len() || rest[end + 1] != 10 {
        LineScan::Incomplete
    } else if !valid_utf8(rest.take(end)) {
        LineScan::BadText
    } else {
        LineScan::Line { text: trim_spec(decode_utf8(rest.take(end))), consumed: end + 2 }
    }
}

/// Reading the line that starts at `pos` of a packet.
pub open spec fn decode_line_spec(src: Seq<u8>, pos: int) -> LineScan {
    if src.len() < 2 {
        LineScan::Incomplete
    } else {
        line_at(src.skip(pos))
    }
}

pub proof fn lemma_cr_index(r: Seq<u8>, k: int)
    requires
        0 <= k <= r.len(),
        forall|i: int| 0 <= i < k ==> r[i] != 13,
        k == r.len() || r[k] == 13,
    ensures
        cr_index(r) == k,
    decreases k,
{
    if k > 0 {
        let t = r.drop_first();
        assert forall|i: int| 0 <= i < k - 1 implies t[i] != 13 by {
            assert(t[i] == r[i + 1]);
        }
        if k < r.len() {
            assert(t[k - 1] == r[k]);
        }
        lemma_cr_index(t, k - 1);
    }
}

pub proof fn lemma_cr_index_bounds(r: Seq<u8>)
    ensures
        0 <= cr_index(r) <= r.len(),
        forall|i: int| 0 <= i < cr_index(r) ==> r[i] != 13,
        cr_index(r) < r.len() ==> r[cr_index(r)] == 13,
    decreases r.len(),
{
    if r.len() > 0 && r[0] != 13 {
        let t = r.drop_first();
        lemma_cr_index_bounds(t);
        assert forall|i: int| 0 <= i < cr_index(r) implies r[i] != 13 by {
            if i > 0 {
                assert(r[i] == t[i - 1]);
            }
        }
        if cr_index(r) < r.len() {
            assert(r[cr_index(r)] == t[cr_index(t)]);
        }
    }
}

pub proof fn lemma_line_at_consumed(rest: Seq<u8>)
    ensures
        line_at(rest) matches LineScan::Line { consumed, .. } ==> 2 <= consumed <= rest.len(),
{
    lemma_cr_index_bounds(rest);
}

/// Reads the line that starts at `pos`: its trimmed text and where the next one
/// starts, `None` when the terminator has not arrived yet.
pub fn decode_line(src: &[u8], pos: usize) -> (r: Result<Option<(String, usize)>, SsdpError>)
    requires
        pos <= src.len(),
    ensures
        match decode_line_spec(src@, pos as int) {
            LineScan::Incomplete => r == Ok::<Option<(String, usize)>, SsdpError>(None),
            LineScan::BadText => r == Err::<Option<(String, usize)>, SsdpError>(
                SsdpError::InvalidText,
            ),
            LineScan::Line { text, consumed } => r matches Ok(Some((s, n))) && s@ == text && n
                == pos + consumed,
        },
{
    if src.len() < 2 {
        return Ok(None);
    }
    let ghost rest = src@.skip(pos as int);
    let mut end = pos;
    while end < src.len() && src[end] != 13
        invariant
            pos <= end <= src.len(),
            forall|i: int| pos <= i < end ==> src@[i] != 13,
        decreases src.len() - end,
    {
        end = end + 1;
    }
    proof {
        assert forall|i: int| 0 <= i < end - pos implies rest[i] != 13 by {
            assert(rest[i] == src@[i + pos]);
        }
        if end < src.len() {
            assert(rest[end - pos] == src@[end as int]);
        }
        lemma_cr_index(rest, end - pos);
    }
    if end >= src.len() - 1 || src[end + 1] != 10 {
        proof {
            if end < src.len() - 1 {
                assert(rest[end - pos + 1] == src@[end + 1]);
            }
        }
        return Ok(None);
    }
    proof {
        assert(rest[end - pos + 1] == src@[end + 1]);
        assert(rest.take(end - pos) =~= src@.subrange(pos as int, end as int));
    }
    let bytes = &src[pos..end];
    match core::str::from_utf8(bytes) {
        Ok(text) => {
            let chars = to_chars(text);
            let trimmed = trim(chars.as_slice());
            Ok(Some((from_chars(trimmed.as_slice()), end + 2)))
        },
        Err(_) => Err(SsdpError::InvalidText),
    }
}

// ---------------------------------------------------------------------------
// The request line and header lines
// ---------------------------------------------------------------------------

pub open spec fn protocol_suffix() -> Seq<char> {
    seq!['H', 'T', 'T', 'P', '/', '1', '.', '1']
}

/// The request line can be cut before its protocol: the text up to the character
/// before `HTTP/1.1` ends on a character boundary of the line's UTF-8 encoding.
pub open spec fn method_line_sliceable(line: Seq<char>) -> bool {
    ends_with(line, protocol_suffix()) ==> (line.len() >= 9 && (line[line.len() - 9] as u32)
        < 128)
}

/// The method of a request line `<method> <target> HTTP/1.1`.
pub open spec fn parse_method_spec(line: Seq<char>) -> Result<Seq<char>, SsdpError> {
    if !ends_with(line, protocol_suffix()) {
        Err(SsdpError::InvalidProtocol)
    } else {
        let rest = trim_spec(line.take(line.len() - 9));
        match find_char(rest, ' ') {
            None => Err(SsdpError::MissingMethodSeparator),
            Some(i) => Ok(trim_spec(rest.take(i))),
        }
    }
}

/// Extracts the method from a request line.
pub fn parse_method(line: &str) -> (r: Result<String, SsdpError>)
    requires
        method_line_sliceable(line@),
    ensures
        match parse_method_spec(line@) {
            Ok(m) => r matches Ok(s) && s@ == m,
            Err(e) => r == Err::<String, SsdpError>(e),
        },
{
    let chars = to_chars(line);
    let suffix = to_chars("HTTP/1.1");
    proof {
        reveal_strlit("HTTP/1.1");
        assert(suffix@ =~= protocol_suffix());
    }
    if !ends_with_chars(chars.as_slice(), suffix.as_slice()) {
        return Err(SsdpError::InvalidProtocol);
    }
    let head = slice_chars(chars.as_slice(), 0, chars.len() - 9);
    proof {
        assert(head@ =~= line@.take(line@.len() - 9));
    }
    let rest = trim(head.as_slice());
    match find(rest.as_slice(), ' ') {
        None => Err(SsdpError::MissingMethodSeparator),
        Some(separator) => {
            let method = slice_chars(rest.as_slice(), 0, separator);
            proof {
                assert(method@ =~= rest@.take(separator as int));
            }
            let method = trim(method.as_slice());
            Ok(from_chars(method.as_slice()))
        },
    }
}

/// The characters of an HTTP token, the characters a header name may hold.
pub open spec fn is_token_char(c: char) -> bool {
    ||| 'a' <= c <= 'z'
    ||| 'A' <= c <= 'Z'
    ||| '0' <= c <= '9'
    ||| c == '!'
    ||| c == '#'
    ||| c == '$'
    ||| c == '%'
    ||| c == '&'
    ||| c == '\''
    ||| c == '*'
    ||| c == '+'
    ||| c == '-'
    ||| c == '.'
    ||| c == '^'
    ||| c == '_'
    ||| c == '`'
    ||| c == '|'
    ||| c == '~'
}

/// What `http::HeaderName` accepts: between 1 and 65535 token characters.
pub open spec fn header_name_valid(s: Seq<char>) -> bool {
    1 <= s.len() <= 65535 && forall|i: int| 0 <= i < s.len() ==> is_token_char(#[trigger] s[i])
}

/// What `http::HeaderValue` accepts: no control character other than a tab.
pub open spec fn header_value_valid(s: Seq<char>) -> bool {
    forall|i: int|
        0 <= i < s.len() ==> {
            let u = #[trigger] s[i] as u32;
            (u >= 32 && u != 127) || u == 9
        }
}

/// Calls `http::HeaderName::try_from` on a header name and hands back the text of
/// the name it makes: the name lower cased when it is made of 1 to 65535 token
/// characters, nothing otherwise.
#[verifier::external_body]
fn header_name_from_str(s: &str) -> (r: Option<String>)
    ensures
        r is Some <==> header_name_valid(s@),
        r matches Some(n) ==> n@ == ascii_lower(s@),
{
    match http::HeaderName::try_from(s) {
        Ok(name) => Some(name.as_str().to_owned()),
        Err(_) => None,
    }
}

/// Calls `http::HeaderValue::try_from` on a header value and tells whether it was
/// accepted: it is when every byte is a tab or at least 32 and not 127.
#[verifier::external_body]
fn header_value_accepted(s: &str) -> (r: bool)
    ensures
        r == header_value_valid(s@),
{
    http::HeaderValue::try_from(s).is_ok()
}

/// The name (lower cased) and value of a header line `<name>: <value>`.
pub open spec fn parse_header_spec(line: Seq<char>) -> Result<(Seq<char>, Seq<char>), SsdpError> {
    match find_char(line, ':') {
        None => Err(SsdpError::MissingSeparator),
        Some(i) => {
            let name = trim_spec(line.take(i));
            let value = trim_spec(line.skip(i + 1));
            if !header_name_valid(name) {
                Err(SsdpError::InvalidHeaderName)
            } else if !header_value_valid(value) {
                Err(SsdpError::InvalidHeaderValue)
            } else {
                Ok((ascii_lower(name), value))
            }
        },
    }
}

/// Splits a header line into its normalized name and its value.
pub fn parse_header(line: &[char]) -> (r: Result<(Vec<char>, Vec<char>), SsdpError>)
    ensures
        match parse_header_spec(line@) {
            Ok((n, v)) => r matches Ok((rn, rv)) && rn@ == n && rv@ == v,
            Err(e) => r == Err::<(Vec<char>, Vec<char>), SsdpError>(e),
        },
{
    match find(line, ':') {
        None => Err(SsdpError::MissingSeparator),
        Some(separator) => {
            let raw_name = slice_chars(line, 0, separator);
            let raw_value = slice_chars(line, separator + 1, line.len());
            proof {
                assert(raw_name@ =~= line@.take(separator as int));
                assert(raw_value@ =~= line@.skip(separator + 1));
            }
            let name = trim(raw_name.as_slice());
            let value = trim(raw_value.as_slice());
            let name_text = from_chars(name.as_slice());
            let value_text = from_chars(value.as_slice());
            match header_name_from_str(name_text.as_str()) {
                None => Err(SsdpError::InvalidHeaderName),
                Some(normalized) => {
                    if header_value_accepted(value_text.as_str()) {
                        Ok((to_chars(normalized.as_str()), value))
                    } else {
                        Err(SsdpError::InvalidHeaderValue)
                    }
                },
            }
        },
    }
}

/// Reading one header: it is added when it parses and skipped otherwise.
pub open spec fn add_header(h: Map<Seq<char>, Seq<char>>, line: Seq<char>) -> Map<
    Seq<char>,
    Seq<char>,
> {
    match parse_header_spec(line) {
        Ok((n, v)) => h.insert(n, v),
        Err(_) => h,
    }
}

/// What reading the header lines of a packet gives.
pub enum HeaderScan {
    Incomplete,
    BadText,
    /// The headers read and the number of bytes they took, up to and including the
    /// blank line that ends them.
    End { headers: Map<Seq<char>, Seq<char>>, consumed: int },
}

/// Reads header lines until a blank line or the end of the bytes.
#[verifier::opaque]
pub open spec fn scan_headers(rest: Seq<u8>, h: Map<Seq<char>, Seq<char>>) -> HeaderScan
    decreases rest.len(),
{
    if rest.len() == 0 {
        HeaderScan::End { headers: h, consumed: 0 }
    } else {
        match line_at(rest) {
            LineScan::Incomplete => HeaderScan::Incomplete,
            LineScan::BadText => HeaderScan::BadText,
            LineScan::Line { text, consumed } => {
                if text.len() == 0 {
                    HeaderScan::End { headers: h, consumed }
                } else {
                    proof {
                        lemma_line_at_consumed(rest);
                    }
                    match scan_headers(rest.skip(consumed), add_header(h, text)) {
                        HeaderScan::End { headers, consumed: more } => HeaderScan::End {
                            headers,
                            consumed: consumed + more,
                        },
                        other => other,
                    }
                }
            },
        }
    }
}

/// One step of reading headers.
pub proof fn lemma_scan_step(rest: Seq<u8>, h: Map<Seq<char>, Seq<char>>)
    requires
        rest.len() > 0,
    ensures
        match line_at(rest) {
            LineScan::Incomplete => scan_headers(rest, h) is Incomplete,
            LineScan::BadText => scan_headers(rest, h) is BadText,
            LineScan::Line { text, consumed } => {
                &&& 2 <= consumed <= rest.len()
                &&& text.len() == 0 ==> scan_headers(rest, h) == (HeaderScan::End {
                    headers: h,
                    consumed,
                })
                &&& text.len() != 0 ==> scan_headers(rest, h) == shift_scan(
                    scan_headers(rest.skip(consumed), add_header(h, text)),
                    consumed,
                )
            },
        },
{
    lemma_line_at_consumed(rest);
    reveal(scan_headers);
}

pub open spec fn shift_scan(s: HeaderScan, d: int) -> HeaderScan {
    match s {
        HeaderScan::End { headers, consumed } => HeaderScan::End { headers, consumed: consumed + d },
        other => other,
    }
}

// ---------------------------------------------------------------------------
// Reading the known headers of a message
// ---------------------------------------------------------------------------

/// A header as text: present, printable and with surrounding quotes removed.
pub open spec fn get_header_spec(h: Map<Seq<char>, Seq<char>>, name: Seq<char>) -> Option<
    Seq<char>,
> {
    if h.contains_key(name) && visible_ascii(h[name]) {
        Some(trim_quotes_spec(h[name]))
    } else {
        None
    }
}

/// A header as a number.
pub open spec fn get_header_u64_spec(h: Map<Seq<char>, Seq<char>>, name: Seq<char>) -> Option<
    u64,
> {
    match get_header_spec(h, name) {
        Some(t) => parse_u64_spec(t),
        None => None,
    }
}

/// Reads a header as text.
pub fn get_header(headers: &HeaderList, name: &str) -> (r: Option<String>)
    ensures
        opt_view(r) == get_header_spec(headers@, name@),
{
    let key = to_chars(name);
    match headers.get(key.as_slice()) {
        None => None,
        Some(value) => {
            if !is_visible_ascii(value.as_slice()) {
                return None;
            }
            let unquoted = trim_quotes(value.as_slice());
            Some(from_chars(unquoted.as_slice()))
        },
    }
}

/// Reads a header as a number.
pub fn get_header_u64(headers: &HeaderList, name: &str) -> (r: Option<u64>)
    ensures
        r == get_header_u64_spec(headers@, name@),
{
    match get_header(headers, name) {
        None => None,
        Some(text) => match <u64 as core::str::FromStr>::from_str(text.as_str()) {
            Ok(n) => Some(n),
            Err(_) => None,
        },
    }
}

pub open spec fn parse_m_search_spec(h: Map<Seq<char>, Seq<char>>) -> Option<MessageView> {
    match (get_header_spec(h, "host"@), get_header_spec(h, "st"@)) {
        (Some(host), Some(search_target)) => Some(
            MessageView::MSearch {
                host,
                search_target,
                max_wait: get_header_u64_spec(h, "mx"@),
                user_agent: get_header_spec(h, "user-agent"@),
            },
        ),
        _ => None,
    }
}

pub open spec fn parse_notify_spec(h: Map<Seq<char>, Seq<char>>) -> Option<MessageView> {
    match (
        get_header_spec(h, "host"@),
        get_header_spec(h, "nt"@),
        get_header_spec(h, "nts"@),
        get_header_spec(h, "usn"@),
    ) {
        (Some(host), Some(notification_type), Some(availability), Some(unique_service_name)) => {
            Some(
                MessageView::Notify {
                    host,
                    notification_type,
                    unique_service_name,
                    availability,
                    location: get_header_spec(h, "location"@),
                    server: match get_header_spec(h, "server"@) {
                        Some(s) => s,
                        None => Seq::empty(),
                    },
                },
            )
        },
        _ => None,
    }
}

/// The message a method and its headers make: the method is compared in lower case.
pub open spec fn parse_spec(method: Seq<char>, h: Map<Seq<char>, Seq<char>>) -> Option<
    MessageView,
> {
    let m = lowercase_spec(method);
    if m == "m-search"@ {
        parse_m_search_spec(h)
    } else if m == "notify"@ {
        parse_notify_spec(h)
    } else {
        None
    }
}

impl SsdpMessage {
    /// A search request from its headers; `host` and `st` must be present.
    pub fn parse_m_search(headers: &HeaderList) -> (r: Option<SsdpMessage>)
        ensures
            opt_message_view(r) == parse_m_search_spec(headers@),
    {
        let host = match get_header(headers, "host") {
            Some(h) => h,
            None => return None,
        };
        let search_target = match get_header(headers, "st") {
            Some(s) => s,
            None => return None,
        };
        let max_wait = get_header_u64(headers, "mx");
        let user_agent = get_header(headers, "user-agent");
        Some(SsdpMessage::MSearch { host, search_target, max_wait, user_agent })
    }

    /// An announcement from its headers; `host`, `nt`, `nts` and `usn` must be present.
    pub fn parse_notify(headers: &HeaderList) -> (r: Option<SsdpMessage>)
        ensures
            opt_message_view(r) == parse_notify_spec(headers@),
    {
        let host = match get_header(headers, "host") {
            Some(h) => h,
            None => return None,
        };
        let notification_type = match get_header(headers, "nt") {
            Some(h) => h,
            None => return None,
        };
        let availability = match get_header(headers, "nts") {
            Some(h) => h,
            None => return None,
        };
        let location = get_header(headers, "location");
        let unique_service_name = match get_header(headers, "usn") {
            Some(h) => h,
            None => return None,
        };
        let server = match get_header(headers, "server") {
            Some(s) => s,
            None => String::new(),
        };
        Some(
            SsdpMessage::Notify {
                host,
                notification_type,
                unique_service_name,
                availability,
                location,
                server,
            },
        )
    }

    /// The message for a request method: `M-SEARCH` or `NOTIFY` in any case.
    pub fn parse(method: &str, headers: &HeaderList) -> (r: Option<SsdpMessage>)
        ensures
            opt_message_view(r) == parse_spec(method@, headers@),
    {
        let lower = to_lowercase(method);
        let lower_chars = to_chars(lower.as_str());
        let m_search = to_chars("m-search");
        let notify = to_chars("notify");
        if chars_eq(lower_chars.as_slice(), m_search.as_slice()) {
            SsdpMessage::parse_m_search(headers)
        } else if chars_eq(lower_chars.as_slice(), notify.as_slice()) {
            SsdpMessage::parse_notify(headers)
        } else {
            None
        }
    }
}

// ---------------------------------------------------------------------------
// Decoding a packet
// ---------------------------------------------------------------------------

/// What decoding the start of a buffer gives.
pub enum Decoded {
    /// More bytes are needed; nothing is consumed.
    Incomplete,
    /// A line is not valid UTF-8; nothing is consumed.
    BadText,
    /// A packet was read: the message it holds, if it is a well formed search or
    /// announcement, and the number of bytes it took.
    Done { message: Option<MessageView>, consumed: int },
}

/// The message of a packet from its request line and headers.
pub open spec fn message_from(head: Seq<char>, h: Map<Seq<char>, Seq<char>>) -> Option<
    MessageView,
> {
    match parse_method_spec(head) {
        Ok(method) => parse_spec(method, h),
        Err(_) => None,
    }
}

pub open spec fn decode_spec(buf: Seq<u8>) -> Decoded {
    if buf.len() < 2 {
        Decoded::Incomplete
    } else {
        match line_at(buf) {
            LineScan::Incomplete => Decoded::Incomplete,
            LineScan::BadText => Decoded::BadText,
            LineScan::Line { text, consumed } => match scan_headers(
                buf.skip(consumed),
                Map::empty(),
            ) {
                HeaderScan::Incomplete => Decoded::Incomplete,
                HeaderScan::BadText => Decoded::BadText,
                HeaderScan::End { headers, consumed: more } => Decoded::Done {
                    message: message_from(text, headers),
                    consumed: consumed + more,
                },
            },
        }
    }
}

/// Decoding does not panic: when a whole packet is present, its request line, if it
/// ends with `HTTP/1.1`, has an ASCII character before that.
pub open spec fn decode_safe(buf: Seq<u8>) -> bool {
    buf.len() >= 2 ==> match line_at(buf) {
        LineScan::Line { text, consumed } => scan_headers(
            buf.skip(consumed),
            Map::empty(),
        ) is End ==> method_line_sliceable(text),
        _ => true,
    }
}

pub open spec fn buffer_unchanged(before: bytes::BytesMut, after: bytes::BytesMut) -> bool {
    buffer_contents(after) == buffer_contents(before)
}

/// Adds a header line to the headers when it parses.
fn add_header_line(headers: &mut HeaderList, line: &[char])
    ensures
        final(headers)@ == add_header(old(headers)@, line@),
{
    match parse_header(line) {
        Ok((name, value)) => {
            headers.insert(name, value);
        },
        Err(_) => {},
    }
}

/// Reads the header lines that start at `start`, up to a blank line or the end of
/// the bytes.
#[verifier::rlimit(40)]
pub fn read_headers(src: &[u8], start: usize) -> (r: Result<Option<(HeaderList, usize)>, SsdpError>)
    requires
        2 <= src.len(),
        start <= src.len(),
    ensures
        match scan_headers(src@.skip(start as int), Map::empty()) {
            HeaderScan::Incomplete => r matches Ok(None),
            HeaderScan::BadText => r matches Err(SsdpError::InvalidText),
            HeaderScan::End { headers, consumed } => r matches Ok(Some((h, end))) && h@
                == headers && end == start + consumed,
        },
        r matches Ok(Some((_, end))) ==> end <= src.len(),
{
    let ghost buf = src@;
    let ghost hp = start as int;
    let mut headers = HeaderList::new();
    let mut pos = start;
    let mut done = false;
    while !done && pos < src.len()
        invariant
            src@ == buf,
            buf.len() >= 2,
            hp == start,
            hp <= pos <= src.len(),
            !done ==> scan_headers(buf.skip(hp), Map::empty()) == shift_scan(
                scan_headers(buf.skip(pos as int), headers@),
                pos - hp,
            ),
            done ==> scan_headers(buf.skip(hp), Map::empty()) == (HeaderScan::End {
                headers: headers@,
                consumed: pos - hp,
            }),
        decreases src.len() - pos,
    {
        let ghost old_pos = pos as int;
        let ghost old_headers = headers@;
        let ghost rest = buf.skip(old_pos);
        proof {
            assert(rest.len() > 0);
            lemma_scan_step(rest, old_headers);
        }
        match decode_line(src, pos) {
            Err(e) => {
                assert(scan_headers(rest, old_headers) is BadText);
                assert(scan_headers(buf.skip(hp), Map::empty()) is BadText);
                return Err(e);
            },
            Ok(None) => {
                assert(scan_headers(rest, old_headers) is Incomplete);
                assert(scan_headers(buf.skip(hp), Map::empty()) is Incomplete);
                return Ok(None);
            },
            Ok(Some((line, next))) => {
                let chars = to_chars(line.as_str());
                proof {
                    assert(rest.skip(next - old_pos) =~= buf.skip(next as int));
                }
                pos = next;
                if chars.len() == 0 {
                    done = true;
                } else {
                    add_header_line(&mut headers, chars.as_slice());
                }
            },
        }
    }
    proof {
        if !done {
            assert(buf.skip(pos as int).len() == 0);
            reveal(scan_headers);
        }
    }
    Ok(Some((headers, pos)))
}

impl SsdpMessage {
    /// Decodes the packet at the start of the buffer and drops it from the buffer.
    /// Nothing is dropped while the packet is incomplete or not valid text.
    #[verifier::rlimit(40)]
    pub fn decode(buffer: &mut bytes::BytesMut) -> (r: Result<Option<SsdpMessage>, SsdpError>)
        requires
            decode_safe(buffer_contents(*old(buffer))),
        ensures
            match decode_spec(buffer_contents(*old(buffer))) {
                Decoded::Incomplete => r == Ok::<Option<SsdpMessage>, SsdpError>(None)
                    && buffer_unchanged(*old(buffer), *final(buffer)),
                Decoded::BadText => r == Err::<Option<SsdpMessage>, SsdpError>(
                    SsdpError::InvalidText,
                ) && buffer_unchanged(*old(buffer), *final(buffer)),
                Decoded::Done { message, consumed } => r matches Ok(m) && opt_message_view(m)
                    == message && buffer_contents(*final(buffer)) == buffer_contents(
                    *old(buffer),
                ).skip(consumed),
            },
    {
        let ghost buf = buffer_contents(*buffer);
        let (result, pos) = {
            let src = buffer_bytes(buffer);
            proof {
                assert(src@.skip(0) =~= src@);
                lemma_line_at_consumed(src@);
            }
            let (head, head_end) = match decode_line(src, 0) {
                Err(e) => {
                    return Err(e);
                },
                Ok(None) => {
                    return Ok(None);
                },
                Ok(Some(line)) => line,
            };
            let (headers, pos) = match read_headers(src, head_end) {
                Err(e) => {
                    return Err(e);
                },
                Ok(None) => {
                    return Ok(None);
                },
                Ok(Some(found)) => found,
            };
            let result = match parse_method(head.as_str()) {
                Ok(method) => SsdpMessage::parse(method.as_str(), &headers),
                Err(_) => None,
            };
            (result, pos)
        };
        buffer_advance(buffer, pos);
        Ok(result)
    }

    /// Whether decoding the buffer would fail on its request line: a whole packet is
    /// present and its request line ends with `HTTP/1.1` with nothing, or a non-ASCII
    /// character, just before it.
    pub fn decode_would_panic(buffer: &bytes::BytesMut) -> (r: bool)
        ensures
            r == !decode_safe(buffer_contents(*buffer)),
    {
        let src = buffer_bytes(buffer);
        if src.len() < 2 {
            return false;
        }
        proof {
            assert(src@.skip(0) =~= src@);
            lemma_line_at_consumed(src@);
        }
        let (head, head_end) = match decode_line(src, 0) {
            Ok(Some(line)) => line,
            _ => {
                return false;
            },
        };
        match read_headers(src, head_end) {
            Ok(Some(_)) => {},
            _ => {
                return false;
            },
        }
        let chars = to_chars(head.as_str());
        let suffix = to_chars("HTTP/1.1");
        proof {
            reveal_strlit("HTTP/1.1");
            assert(suffix@ =~= protocol_suffix());
        }
        if !ends_with_chars(chars.as_slice(), suffix.as_slice()) {
            return false;
        }
        !(chars.len() >= 9 && (chars[chars.len() - 9] as u32) < 128)
    }
}

// ---------------------------------------------------------------------------
// Encoding a message
// ---------------------------------------------------------------------------

pub open spec fn crlf() -> Seq<u8> {
    seq![13u8, 10u8]
}

/// Lines joined with CRLF terminators, each encoded as UTF-8.
pub open spec fn lines_bytes(ls: Seq<Seq<char>>) -> Seq<u8>
    decreases ls.len(),
{
    if ls.len() == 0 {
        Seq::empty()
    } else {
        lines_bytes(ls.drop_last()) + encode_utf8(ls.last()) + crlf()
    }
}

pub open spec fn opt_line(prefix: Seq<char>, v: Option<Seq<char>>) -> Seq<Seq<char>> {
    match v {
        Some(x) => seq![prefix + x],
        None => Seq::empty(),
    }
}

/// The lines of the packet for a message, the blank line that ends it included.
pub open spec fn message_lines(m: MessageView) -> Seq<Seq<char>> {
    match m {
        MessageView::MSearch { host, search_target, max_wait, user_agent } => seq![
            "M-SEARCH * HTTP/1.1"@,
            "HOST: "@ + host,
            "MAN: \"ssdp:discover\""@,
            "ST: "@ + search_target,
        ] + match max_wait {
            Some(mx) => seq!["MX: "@ + decimal(mx as nat)],
            None => Seq::empty(),
        } + opt_line("USER-AGENT: "@, user_agent) + seq![Seq::empty()],
        MessageView::Notify {
            host,
            notification_type,
            unique_service_name,
            availability,
            location,
            server,
        } => seq![
            "NOTIFY * HTTP/1.1"@,
            "CACHE_CONTROL: max-age = 120"@,
            "HOST: "@ + host,
            "NT: "@ + notification_type,
            "USN: "@ + unique_service_name,
            "NTS: "@ + availability,
        ] + opt_line("LOCATION: "@, location) + seq!["SERVER: "@ + server, Seq::empty()],
        MessageView::SearchResponse { location, server, search_target, unique_service_name } =>
        seq![
            "HTTP/1.1 200 OK"@,
            "CACHE-CONTROL: max-age = 120"@,
            "EXT:"@,
            "LOCATION: "@ + location,
            "SERVER: "@ + server,
            "USN: "@ + unique_service_name,
            "ST: "@ + search_target,
            Seq::empty(),
        ],
    }
}

/// The packet for a message.
pub open spec fn encode_spec(m: MessageView) -> Seq<u8> {
    lines_bytes(message_lines(m))
}

proof fn lemma_lines_bytes_push(ls: Seq<Seq<char>>, l: Seq<char>)
    ensures
        lines_bytes(ls.push(l)) == lines_bytes(ls) + encode_utf8(l) + crlf(),
{
    assert(ls.push(l).drop_last() =~= ls);
}

/// Appends a line and its CRLF terminator.
fn push_line(buffer: &mut bytes::BytesMut, line: &str)
    ensures
        buffer_contents(*final(buffer)) == buffer_contents(*old(buffer)) + encode_utf8(line@)
            + crlf(),
{
    buffer.extend_from_slice(line.as_bytes());
    let terminator: [u8; 2] = [13u8, 10u8];
    buffer.extend_from_slice(terminator.as_slice());
    assert(terminator@ =~= crlf());
}

/// `prefix` followed by `value`.
fn prefixed(prefix: &str, value: &str) -> (r: String)
    ensures
        r@ == prefix@ + value@,
{
    let mut line = String::new();
    push_str(&mut line, prefix);
    push_str(&mut line, value);
    assert(line@ =~= prefix@ + value@);
    line
}

/// Appends a line `prefix` + `value` and records it in the lines written so far.
fn push_field(
    buffer: &mut bytes::BytesMut,
    prefix: &str,
    value: &str,
    Ghost(base): Ghost<Seq<u8>>,
    Ghost(ls): Ghost<Seq<Seq<char>>>,
)
    requires
        buffer_contents(*old(buffer)) == base + lines_bytes(ls),
    ensures
        buffer_contents(*final(buffer)) == base + lines_bytes(ls.push(prefix@ + value@)),
{
    let line = prefixed(prefix, value);
    push_line(buffer, line.as_str());
    proof {
        lemma_lines_bytes_push(ls, prefix@ + value@);
    }
}

/// Appends a fixed line and records it in the lines written so far.
fn push_fixed(
    buffer: &mut bytes::BytesMut,
    line: &str,
    Ghost(base): Ghost<Seq<u8>>,
    Ghost(ls): Ghost<Seq<Seq<char>>>,
)
    requires
        buffer_contents(*old(buffer)) == base + lines_bytes(ls),
    ensures
        buffer_contents(*final(buffer)) == base + lines_bytes(ls.push(line@)),
{
    push_line(buffer, line);
    proof {
        lemma_lines_bytes_push(ls, line@);
    }
}

impl SsdpMessage {
    /// Appends the packet for this message to the buffer.
    pub fn encode(&self, buffer: &mut bytes::BytesMut)
        ensures
            buffer_contents(*final(buffer)) == buffer_contents(*old(buffer)) + encode_spec(self@),
    {
        let ghost base = buffer_contents(*buffer);
        let ghost ls: Seq<Seq<char>> = Seq::empty();
        proof {
            assert(base + lines_bytes(ls) =~= base);
        }
        match self {
            SsdpMessage::MSearch { host, search_target, max_wait, user_agent } => {
                push_fixed(buffer, "M-SEARCH * HTTP/1.1", Ghost(base), Ghost(ls));
                proof { ls = ls.push("M-SEARCH * HTTP/1.1"@); }
                push_field(buffer, "HOST: ", host.as_str(), Ghost(base), Ghost(ls));
                proof { ls = ls.push("HOST: "@ + host@); }
                push_fixed(buffer, "MAN: \"ssdp:discover\"", Ghost(base), Ghost(ls));
                proof { ls = ls.push("MAN: \"ssdp:discover\""@); }
                push_field(buffer, "ST: ", search_target.as_str(), Ghost(base), Ghost(ls));
                proof { ls = ls.push("ST: "@ + search_target@); }
                let ghost head = ls;
                match max_wait {
                    Some(mx) => {
                        let text = crate::text::decimal_string(*mx);
                        push_field(buffer, "MX: ", text.as_str(), Ghost(base), Ghost(ls));
                        proof { ls = ls.push("MX: "@ + decimal(*mx as nat)); }
                    },
                    None => {},
                }
                let ghost with_mx = ls;
                match user_agent {
                    Some(ua) => {
                        push_field(buffer, "USER-AGENT: ", ua.as_str(), Ghost(base), Ghost(ls));
                        proof { ls = ls.push("USER-AGENT: "@ + ua@); }
                    },
                    None => {},
                }
                push_fixed(buffer, "", Ghost(base), Ghost(ls));
                proof {
                    reveal_strlit("");
                    ls = ls.push(""@);
                    assert(""@ =~= Seq::<char>::empty());
                    assert(ls =~= message_lines(self@));
                }
            },
            SsdpMessage::Notify {
                host,
                notification_type,
                unique_service_name,
                availability,
                location,
                server,
            } => {
                push_fixed(buffer, "NOTIFY * HTTP/1.1", Ghost(base), Ghost(ls));
                proof { ls = ls.push("NOTIFY * HTTP/1.1"@); }
                push_fixed(buffer, "CACHE_CONTROL: max-age = 120", Ghost(base), Ghost(ls));
                proof { ls = ls.push("CACHE_CONTROL: max-age = 120"@); }
                push_field(buffer, "HOST: ", host.as_str(), Ghost(base), Ghost(ls));
                proof { ls = ls.push("HOST: "@ + host@); }
                push_field(buffer, "NT: ", notification_type.as_str(), Ghost(base), Ghost(ls));
                proof { ls = ls.push("NT: "@ + notification_type@); }
                push_field(buffer, "USN: ", unique_service_name.as_str(), Ghost(base), Ghost(ls));
                proof { ls = ls.push("USN: "@ + unique_service_name@); }
                push_field(buffer, "NTS: ", availability.as_str(), Ghost(base), Ghost(ls));
                proof { ls = ls.push("NTS: "@ + availability@); }
                match location {
                    Some(loc) => {
                        push_field(buffer, "LOCATION: ", loc.as_str(), Ghost(base), Ghost(ls));
                        proof { ls = ls.push("LOCATION: "@ + loc@); }
                    },
                    None => {},
                }
                push_field(buffer, "SERVER: ", server.as_str(), Ghost(base), Ghost(ls));
                proof { ls = ls.push("SERVER: "@ + server@); }
                push_fixed(buffer, "", Ghost(base), Ghost(ls));
                proof {
                    reveal_strlit("");
                    ls = ls.push(""@);
                    assert(""@ =~= Seq::<char>::empty());
                    assert(ls =~= message_lines(self@));
                }
            },
            SsdpMessage::SearchResponse {
                location,
                server,
                search_target,
                unique_service_name,
            } => {
                push_fixed(buffer, "HTTP/1.1 200 OK", Ghost(base), Ghost(ls));
                proof { ls = ls.push("HTTP/1.1 200 OK"@); }
                push_fixed(buffer, "CACHE-CONTROL: max-age = 120", Ghost(base), Ghost(ls));
                proof { ls = ls.push("CACHE-CONTROL: max-age = 120"@); }
                push_fixed(buffer, "EXT:", Ghost(base), Ghost(ls));
                proof { ls = ls.push("EXT:"@); }
                push_field(buffer, "LOCATION: ", location.as_str(), Ghost(base), Ghost(ls));
                proof { ls = ls.push("LOCATION: "@ + location@); }
                push_field(buffer, "SERVER: ", server.as_str(), Ghost(base), Ghost(ls));
                proof { ls = ls.push("SERVER: "@ + server@); }
                push_field(buffer, "USN: ", unique_service_name.as_str(), Ghost(base), Ghost(ls));
                proof { ls = ls.push("USN: "@ + unique_service_name@); }
                push_field(buffer, "ST: ", search_target.as_str(), Ghost(base), Ghost(ls));
                proof { ls = ls.push("ST: "@ + search_target@); }
                push_fixed(buffer, "", Ghost(base), Ghost(ls));
                proof {
                    reveal_strlit("");
                    ls = ls.push(""@);
                    assert(""@ =~= Seq::<char>::empty());
                    assert(ls =~= message_lines(self@));
                }
            },
        }
    }
}

} // verus!
