//! What holds of the SSDP codec as a whole: a packet this server encodes is
//! decoded back to the same message.
use vstd::prelude::*;
use vstd::arithmetic::power::pow;
use vstd::utf8::*;

use crate::ssdp::{
    add_header, crlf, decode_safe, decode_spec, encode_spec, get_header_spec, header_name_valid,
    header_value_valid, lemma_scan_step, line_at, lines_bytes, message_from, message_lines,
    method_line_sliceable, parse_header_spec, parse_method_spec, protocol_suffix, scan_headers,
    Decoded, HeaderScan, LineScan, MessageView, SsdpError,
};
use crate::ssdp::SsdpMessage;
use crate::ssdp_task::{
    hex_text, hex_digit, hyphenated, location_spec, multicast_host, service_usn, upnp_contentdirectory,
    upnp_mediaserver, upnp_root, usn_base_spec, Interface, SsdpTask,
};
use crate::text::{
    ascii_lower, decimal, digit_char, find_char, is_digit, starts_with, is_whitespace_spec, lemma_decimal_ascii,
    lemma_decimal_digits, lemma_find_char, lemma_strip_end, lemma_strip_noop, lemma_strip_start,
    strip_end, strip_start, trim_quotes_spec, trim_spec, visible_ascii,
};

verus! {

broadcast use vstd::seq_lib::group_seq_properties;

/// A line that can be sent as is: ASCII without carriage return.
pub open spec fn plain_char(c: char) -> bool {
    (c as u32) < 128 && c != '\r'
}

pub open spec fn plain_line(l: Seq<char>) -> bool {
    forall|i: int| 0 <= i < l.len() ==> plain_char(#[trigger] l[i])
}

/// A header value that a header line carries unchanged: printable and not
/// surrounded by whitespace.
pub open spec fn value_ok(v: Seq<char>) -> bool {
    &&& visible_ascii(v)
    &&& v.len() > 0 ==> {
        &&& !is_whitespace_spec(v[0])
        &&& !is_whitespace_spec(v.last())
    }
}

/// A header value that is read back unchanged: it also does not start or end with
/// a double quote.
pub open spec fn field_ok(v: Seq<char>) -> bool {
    &&& value_ok(v)
    &&& v.len() > 0 ==> {
        &&& v[0] != '"'
        &&& v.last() != '"'
    }
}

pub open spec fn opt_field_ok(v: Option<Seq<char>>) -> bool {
    match v {
        Some(x) => field_ok(x),
        None => true,
    }
}

proof fn lemma_plain_char_ascii(c: char)
    requires
        plain_char(c),
    ensures
        '\0' <= c <= '\u{7f}',
{
}

pub proof fn lemma_line_at_plain(l: Seq<char>, t: Seq<u8>)
    requires
        plain_line(l),
    ensures
        line_at(encode_utf8(l) + crlf() + t) == (LineScan::Line {
            text: trim_spec(l),
            consumed: l.len() as int + 2,
        }),
        encode_utf8(l).len() == l.len(),
{
    assert(is_ascii_chars(l)) by {
        assert forall|i| 0 <= i < l.len() implies '\0' <= #[trigger] l[i] <= '\u{7f}' by {
            lemma_plain_char_ascii(l[i]);
        }
    }
    is_ascii_chars_encode_utf8(l);
    let e = encode_utf8(l);
    let b = e + crlf() + t;
    assert forall|i: int| 0 <= i < l.len() implies b[i] != 13 by {
        assert(b[i] == e[i]);
        assert(l[i] as u8 == e[i]);
        assert(plain_char(l[i]));
    }
    assert(b[l.len() as int] == 13);
    crate::ssdp::lemma_cr_index(b, l.len() as int);
    assert(b[l.len() as int + 1] == 10);
    assert(b.take(l.len() as int) =~= e);
    encode_utf8_valid_utf8(l);
    encode_utf8_decode_utf8(l);
}

pub proof fn lemma_lines_bytes_cons(l: Seq<char>, rest: Seq<Seq<char>>)
    ensures
        lines_bytes(seq![l] + rest) == encode_utf8(l) + crlf() + lines_bytes(rest),
    decreases rest.len(),
{
    if rest.len() == 0 {
        assert((seq![l] + rest).drop_last() =~= Seq::<Seq<char>>::empty());
        assert(seq![l] + rest =~= seq![l]);
    } else {
        lemma_lines_bytes_cons(l, rest.drop_last());
        assert((seq![l] + rest).drop_last() =~= seq![l] + rest.drop_last());
        assert((seq![l] + rest).last() == rest.last());
    }
}

/// The trimmed form of a header line `<name>: <value>`.
pub open spec fn field_line_trimmed(name: Seq<char>, v: Seq<char>) -> Seq<char> {
    if v.len() > 0 {
        name + seq![':', ' '] + v
    } else {
        name + seq![':']
    }
}

proof fn lemma_name_chars(name: Seq<char>)
    requires
        header_name_valid(name),
    ensures
        forall|i: int|
            0 <= i < name.len() ==> !is_whitespace_spec(#[trigger] name[i]) && name[i] != ':',
{
    assert forall|i: int| 0 <= i < name.len() implies !is_whitespace_spec(#[trigger] name[i])
        && name[i] != ':' by {
        assert(crate::ssdp::is_token_char(name[i]));
    }
}

proof fn lemma_trim_field_line(name: Seq<char>, v: Seq<char>)
    requires
        header_name_valid(name),
        value_ok(v),
    ensures
        trim_spec(name + seq![':', ' '] + v) == field_line_trimmed(name, v),
{
    let ws = |c: char| is_whitespace_spec(c);
    let line = name + seq![':', ' '] + v;
    let n = name.len() as int;
    lemma_name_chars(name);
    assert(!ws(line[0]));
    lemma_strip_start(line, ws, 0);
    assert(line.skip(0) =~= line);
    if v.len() > 0 {
        assert(line.last() == v.last());
        lemma_strip_end(line, ws, line.len() as int);
        assert(line.take(line.len() as int) =~= line);
    } else {
        assert(line =~= name + seq![':', ' ']);
        assert forall|k: int| n + 1 <= k < line.len() implies ws(#[trigger] line[k]) by {
            assert(line[k] == ' ');
        }
        assert(line[n] == ':');
        lemma_strip_end(line, ws, n + 1);
        assert(line.take(n + 1) =~= name + seq![':']);
    }
}

proof fn lemma_trim_value(v: Seq<char>)
    requires
        value_ok(v),
    ensures
        trim_spec(if v.len() > 0 {
            seq![' '] + v
        } else {
            Seq::empty()
        }) == v,
{
    let ws = |c: char| is_whitespace_spec(c);
    if v.len() > 0 {
        let vp = seq![' '] + v;
        assert(ws(vp[0]));
        assert(!ws(vp[1]));
        lemma_strip_start(vp, ws, 1);
        assert(vp.skip(1) =~= v);
        lemma_strip_noop(v, ws);
    } else {
        let e = Seq::<char>::empty();
        lemma_strip_noop(e, ws);
        assert(v =~= e);
    }
}

proof fn lemma_field_value_valid(v: Seq<char>)
    requires
        value_ok(v),
    ensures
        header_value_valid(v),
{
    assert forall|i: int| 0 <= i < v.len() implies {
        let u = #[trigger] v[i] as u32;
        (u >= 32 && u != 127) || u == 9
    } by {
        let u = v[i] as u32;
        assert((32 <= u < 127) || u == 9);
    }
}

/// A header line `<name>: <value>` parses to the lower cased name and the value.
pub proof fn lemma_parse_field_line(name: Seq<char>, v: Seq<char>)
    requires
        header_name_valid(name),
        value_ok(v),
    ensures
        parse_header_spec(trim_spec(name + seq![':', ' '] + v)) == Ok::<
            (Seq<char>, Seq<char>),
            crate::ssdp::SsdpError,
        >((ascii_lower(name), v)),
{
    let ws = |c: char| is_whitespace_spec(c);
    let n = name.len() as int;
    lemma_trim_field_line(name, v);
    lemma_name_chars(name);
    let tl = field_line_trimmed(name, v);
    assert forall|k: int| 0 <= k < n implies tl[k] != ':' by {
        assert(tl[k] == name[k]);
    }
    assert(tl[n] == ':');
    lemma_find_char(tl, ':', n);
    assert(tl.take(n) =~= name);
    lemma_strip_noop(name, ws);
    let vp = tl.skip(n + 1);
    assert(vp =~= (if v.len() > 0 {
        seq![' '] + v
    } else {
        Seq::empty()
    }));
    lemma_trim_value(v);
    lemma_field_value_valid(v);
}

// ---------------------------------------------------------------------------
// Reading back a block of header lines
// ---------------------------------------------------------------------------

/// A header line that is sent as is and is not blank once trimmed.
pub open spec fn header_line_ok(l: Seq<char>) -> bool {
    plain_line(l) && trim_spec(l).len() > 0
}

pub open spec fn lines_ok(ls: Seq<Seq<char>>) -> bool {
    forall|i: int| 0 <= i < ls.len() ==> header_line_ok(#[trigger] ls[i])
}

proof fn lemma_lines_ok_concat(a: Seq<Seq<char>>, b: Seq<Seq<char>>)
    requires
        lines_ok(a),
        lines_ok(b),
    ensures
        lines_ok(a + b),
{
    assert forall|i: int| 0 <= i < (a + b).len() implies header_line_ok(#[trigger] (a + b)[i]) by {
        if i < a.len() {
            assert((a + b)[i] == a[i]);
        } else {
            assert((a + b)[i] == b[i - a.len()]);
        }
    }
}

proof fn lemma_lines_ok_one(l: Seq<char>)
    requires
        header_line_ok(l),
    ensures
        lines_ok(seq![l]),
{
    assert forall|i: int| 0 <= i < seq![l].len() implies header_line_ok(#[trigger] seq![l][i]) by {
        assert(seq![l][i] == l);
    }
}

/// The headers that reading some header lines in order adds to `h`.
pub open spec fn add_lines(h: Map<Seq<char>, Seq<char>>, ls: Seq<Seq<char>>) -> Map<
    Seq<char>,
    Seq<char>,
>
    decreases ls.len(),
{
    if ls.len() == 0 {
        h
    } else {
        add_header(add_lines(h, ls.drop_last()), trim_spec(ls.last()))
    }
}

proof fn lemma_add_lines_front(h: Map<Seq<char>, Seq<char>>, l: Seq<char>, ls: Seq<Seq<char>>)
    ensures
        add_lines(h, seq![l] + ls) == add_lines(add_header(h, trim_spec(l)), ls),
    decreases ls.len(),
{
    if ls.len() == 0 {
        assert(seq![l] + ls =~= seq![l]);
        lemma_add_lines_one(h, l);
    } else {
        lemma_add_lines_front(h, l, ls.drop_last());
        assert((seq![l] + ls).drop_last() =~= seq![l] + ls.drop_last());
        assert((seq![l] + ls).last() == ls.last());
    }
}

pub proof fn lemma_add_lines_concat(h: Map<Seq<char>, Seq<char>>, a: Seq<Seq<char>>, b: Seq<Seq<char>>)
    ensures
        add_lines(h, a + b) == add_lines(add_lines(h, a), b),
    decreases b.len(),
{
    if b.len() == 0 {
        assert(a + b =~= a);
    } else {
        lemma_add_lines_concat(h, a, b.drop_last());
        assert((a + b).drop_last() =~= a + b.drop_last());
    }
}

pub proof fn lemma_add_lines_one(h: Map<Seq<char>, Seq<char>>, l: Seq<char>)
    ensures
        add_lines(h, seq![l]) == add_header(h, trim_spec(l)),
{
    assert(seq![l].drop_last() =~= Seq::<Seq<char>>::empty());
    assert(add_lines(h, Seq::<Seq<char>>::empty()) == h);
    assert(seq![l].last() == l);
}

proof fn lemma_trim_empty()
    ensures
        trim_spec(Seq::<char>::empty()) == Seq::<char>::empty(),
{
    lemma_strip_noop(Seq::<char>::empty(), |c: char| is_whitespace_spec(c));
}

/// Header lines followed by a blank line are read back as the headers they carry,
/// whatever follows them.
pub proof fn lemma_scan_lines(ls: Seq<Seq<char>>, h: Map<Seq<char>, Seq<char>>, t: Seq<u8>)
    requires
        lines_ok(ls),
    ensures
        scan_headers(lines_bytes(ls + seq![Seq::<char>::empty()]) + t, h) == (HeaderScan::End {
            headers: add_lines(h, ls),
            consumed: lines_bytes(ls + seq![Seq::<char>::empty()]).len() as int,
        }),
    decreases ls.len(),
{
    let e = Seq::<char>::empty();
    let all = ls + seq![e];
    if ls.len() == 0 {
        assert(all =~= seq![e] + Seq::<Seq<char>>::empty());
        lemma_lines_bytes_cons(e, Seq::<Seq<char>>::empty());
        assert(encode_utf8(e) =~= Seq::<u8>::empty());
        assert(lines_bytes(all) =~= crlf());
        assert(plain_line(e));
        assert(encode_utf8(e) + crlf() + t =~= lines_bytes(all) + t);
        lemma_line_at_plain(e, t);
        lemma_trim_empty();
        lemma_scan_step(lines_bytes(all) + t, h);
    } else {
        let l = ls[0];
        let rest = ls.drop_first();
        let rall = rest + seq![e];
        assert(all =~= seq![l] + rall);
        assert(ls =~= seq![l] + rest);
        lemma_lines_bytes_cons(l, rall);
        let bytes = lines_bytes(all) + t;
        let tail = lines_bytes(rall) + t;
        assert(bytes =~= encode_utf8(l) + crlf() + tail);
        assert(header_line_ok(ls[0]));
        lemma_line_at_plain(l, tail);
        lemma_scan_step(bytes, h);
        assert(bytes.skip(l.len() as int + 2) =~= tail);
        assert forall|i: int| 0 <= i < rest.len() implies header_line_ok(#[trigger] rest[i]) by {
            assert(rest[i] == ls[i + 1]);
        }
        assert(lines_ok(rest));
        lemma_scan_lines(rest, add_header(h, trim_spec(l)), t);
        lemma_add_lines_front(h, l, rest);
    }
}


// ---------------------------------------------------------------------------
// The lines a message is made of
// ---------------------------------------------------------------------------

/// The header line `<name>: <value>`.
pub open spec fn field_line(name: Seq<char>, v: Seq<char>) -> Seq<char> {
    name + seq![':', ' '] + v
}

/// The request line `<method> * HTTP/1.1`.
pub open spec fn request_line(method: Seq<char>) -> Seq<char> {
    method + seq![' ', '*', ' ', 'H', 'T', 'T', 'P', '/', '1', '.', '1']
}

proof fn lemma_strip_end_keeps_first(s: Seq<char>, p: spec_fn(char) -> bool)
    requires
        s.len() > 0,
        !p(s[0]),
    ensures
        strip_end(s, p).len() > 0,
    decreases s.len(),
{
    if s.len() > 1 && p(s.last()) {
        assert(s.drop_last()[0] == s[0]);
        lemma_strip_end_keeps_first(s.drop_last(), p);
    }
}

/// A line that starts with a header name is not blank once trimmed.
proof fn lemma_line_not_blank(name: Seq<char>, l: Seq<char>)
    requires
        header_name_valid(name),
        l.len() > 0,
        l[0] == name[0],
    ensures
        trim_spec(l).len() > 0,
{
    let ws = |c: char| is_whitespace_spec(c);
    lemma_name_chars(name);
    lemma_strip_start(l, ws, 0);
    assert(l.skip(0) =~= l);
    lemma_strip_end_keeps_first(l, ws);
}

/// A header line whose value is plain text is read as a header line.
proof fn lemma_plain_field(name: Seq<char>, v: Seq<char>)
    requires
        header_name_valid(name),
        plain_line(v),
    ensures
        header_line_ok(field_line(name, v)),
{
    let l = field_line(name, v);
    let n = name.len() as int;
    assert forall|i: int| 0 <= i < l.len() implies plain_char(#[trigger] l[i]) by {
        if i < n {
            assert(l[i] == name[i]);
            assert(crate::ssdp::is_token_char(name[i]));
        } else if i >= n + 2 {
            assert(l[i] == v[i - n - 2]);
        }
    }
    lemma_line_not_blank(name, l);
}

/// A header line `<name>: <value>` adds its lower cased name with its value.
proof fn lemma_field(h: Map<Seq<char>, Seq<char>>, name: Seq<char>, v: Seq<char>)
    requires
        header_name_valid(name),
        value_ok(v),
    ensures
        header_line_ok(field_line(name, v)),
        add_header(h, trim_spec(field_line(name, v))) == h.insert(ascii_lower(name), v),
{
    assert forall|i: int| 0 <= i < v.len() implies plain_char(#[trigger] v[i]) by {
        let u = v[i] as u32;
    }
    lemma_plain_field(name, v);
    lemma_parse_field_line(name, v);
}

proof fn lemma_request_line(method: Seq<char>)
    requires
        header_name_valid(method),
    ensures
        plain_line(request_line(method)),
        trim_spec(request_line(method)) == request_line(method),
        parse_method_spec(request_line(method)) == Ok::<Seq<char>, SsdpError>(method),
        method_line_sliceable(request_line(method)),
{
    let ws = |c: char| is_whitespace_spec(c);
    let l = request_line(method);
    let n = method.len() as int;
    lemma_name_chars(method);
    assert forall|i: int| 0 <= i < l.len() implies plain_char(#[trigger] l[i]) by {
        if i < n {
            assert(l[i] == method[i]);
            assert(crate::ssdp::is_token_char(method[i]));
        }
    }
    assert(l[0] == method[0]);
    lemma_strip_noop(l, ws);
    assert(l.skip(l.len() - 8) =~= protocol_suffix());
    let rest = l.take(l.len() - 9);
    assert(rest =~= method + seq![' ', '*']);
    assert(rest[0] == method[0]);
    lemma_strip_noop(rest, ws);
    assert forall|k: int| 0 <= k < n implies rest[k] != ' ' by {
        assert(rest[k] == method[k]);
    }
    lemma_find_char(rest, ' ', n);
    assert(rest.take(n) =~= method);
    lemma_strip_noop(method, ws);
}

/// A header that holds a value which survives reading is read back as that value.
proof fn lemma_header_read(h: Map<Seq<char>, Seq<char>>, k: Seq<char>, v: Seq<char>)
    requires
        h.contains_key(k),
        h[k] == v,
        field_ok(v),
    ensures
        get_header_spec(h, k) == Some(v),
{
    lemma_strip_noop(v, |c: char| c == '"');
}

proof fn lemma_decimal_field(n: nat)
    ensures
        field_ok(decimal(n)),
{
    lemma_decimal_digits(n);
    lemma_decimal_ascii(n);
    let d = decimal(n);
    assert(is_digit(d[0]));
    assert(is_digit(d[d.len() - 1]));
}

/// The packet for a message: its request or status line, then its header lines
/// and a blank line.
proof fn lemma_packet(m: MessageView, head: Seq<char>, fls: Seq<Seq<char>>, t: Seq<u8>)
    requires
        message_lines(m) == seq![head] + (fls + seq![Seq::<char>::empty()]),
        plain_line(head),
        trim_spec(head) == head,
        head.len() > 0,
        lines_ok(fls),
    ensures
        decode_spec(encode_spec(m) + t) == (Decoded::Done {
            message: message_from(head, add_lines(Map::empty(), fls)),
            consumed: encode_spec(m).len() as int,
        }),
        decode_safe(encode_spec(m) + t) <== method_line_sliceable(head),
{
    let e = Seq::<char>::empty();
    let all = fls + seq![e];
    lemma_lines_bytes_cons(head, all);
    let buf = encode_spec(m) + t;
    let tail = lines_bytes(all) + t;
    assert(buf =~= encode_utf8(head) + crlf() + tail);
    lemma_line_at_plain(head, tail);
    assert(buf.skip(head.len() as int + 2) =~= tail);
    lemma_scan_lines(fls, Map::empty(), t);
}

// ---------------------------------------------------------------------------
// The round trip
// ---------------------------------------------------------------------------

/// The field values of a message that encoding and decoding carry unchanged.
pub open spec fn message_fields_ok(m: MessageView) -> bool {
    match m {
        MessageView::MSearch { host, search_target, max_wait, user_agent } => {
            &&& field_ok(host)
            &&& field_ok(search_target)
            &&& opt_field_ok(user_agent)
        },
        MessageView::Notify {
            host,
            notification_type,
            unique_service_name,
            availability,
            location,
            server,
        } => {
            &&& field_ok(host)
            &&& field_ok(notification_type)
            &&& field_ok(unique_service_name)
            &&& field_ok(availability)
            &&& opt_field_ok(location)
            &&& field_ok(server)
        },
        MessageView::SearchResponse { location, server, search_target, unique_service_name } => {
            &&& plain_line(location)
            &&& plain_line(server)
            &&& plain_line(search_target)
            &&& plain_line(unique_service_name)
        },
    }
}

proof fn lemma_differ_at(a: Seq<char>, b: Seq<char>, i: int)
    requires
        0 <= i < a.len(),
        i < b.len(),
        a[i] != b[i],
    ensures
        a != b,
{
}

/// The header lines of a search request.
pub open spec fn msearch_lines(
    host: Seq<char>,
    st: Seq<char>,
    max_wait: Option<u64>,
    user_agent: Option<Seq<char>>,
) -> Seq<Seq<char>> {
    seq!["HOST: "@ + host, "MAN: \"ssdp:discover\""@, "ST: "@ + st] + match max_wait {
        Some(mx) => seq!["MX: "@ + decimal(mx as nat)],
        None => Seq::empty(),
    } + crate::ssdp::opt_line("USER-AGENT: "@, user_agent)
}

/// The headers a search request carries.
pub open spec fn msearch_headers(
    host: Seq<char>,
    st: Seq<char>,
    max_wait: Option<u64>,
    user_agent: Option<Seq<char>>,
) -> Map<Seq<char>, Seq<char>> {
    let h3 = Map::empty().insert("host"@, host).insert("man"@, "\"ssdp:discover\""@).insert(
        "st"@,
        st,
    );
    let h4 = match max_wait {
        Some(mx) => h3.insert("mx"@, decimal(mx as nat)),
        None => h3,
    };
    match user_agent {
        Some(u) => h4.insert("user-agent"@, u),
        None => h4,
    }
}

proof fn lemma_msearch_headers(
    host: Seq<char>,
    st: Seq<char>,
    max_wait: Option<u64>,
    user_agent: Option<Seq<char>>,
)
    requires
        field_ok(host),
        field_ok(st),
        opt_field_ok(user_agent),
    ensures
        lines_ok(msearch_lines(host, st, max_wait, user_agent)),
        add_lines(Map::empty(), msearch_lines(host, st, max_wait, user_agent)) == msearch_headers(
            host,
            st,
            max_wait,
            user_agent,
        ),
{
    reveal_strlit("HOST: ");
    reveal_strlit("MAN: \"ssdp:discover\"");
    reveal_strlit("ST: ");
    reveal_strlit("MX: ");
    reveal_strlit("USER-AGENT: ");
    reveal_strlit("host");
    reveal_strlit("man");
    reveal_strlit("\"ssdp:discover\"");
    reveal_strlit("st");
    reveal_strlit("mx");
    reveal_strlit("user-agent");
    let h0 = Map::<Seq<char>, Seq<char>>::empty();
    let n_host = seq!['H', 'O', 'S', 'T'];
    let n_man = seq!['M', 'A', 'N'];
    let n_st = seq!['S', 'T'];
    let n_mx = seq!['M', 'X'];
    let n_ua = seq!['U', 'S', 'E', 'R', '-', 'A', 'G', 'E', 'N', 'T'];
    let v_man = "\"ssdp:discover\""@;
    assert(header_name_valid(n_host));
    assert(header_name_valid(n_man));
    assert(header_name_valid(n_st));
    assert(header_name_valid(n_mx));
    assert(header_name_valid(n_ua));
    assert(value_ok(v_man));
    let l_host = field_line(n_host, host);
    let l_man = field_line(n_man, v_man);
    let l_st = field_line(n_st, st);
    assert("HOST: "@ + host =~= l_host);
    assert("MAN: \"ssdp:discover\""@ =~= l_man);
    assert("ST: "@ + st =~= l_st);
    assert(ascii_lower(n_host) =~= "host"@);
    assert(ascii_lower(n_man) =~= "man"@);
    assert(ascii_lower(n_st) =~= "st"@);
    let h1 = h0.insert("host"@, host);
    let h2 = h1.insert("man"@, v_man);
    let h3 = h2.insert("st"@, st);
    lemma_field(h0, n_host, host);
    lemma_field(h1, n_man, v_man);
    lemma_field(h2, n_st, st);
    let base = seq![l_host] + seq![l_man] + seq![l_st];
    lemma_lines_ok_one(l_host);
    lemma_lines_ok_one(l_man);
    lemma_lines_ok_one(l_st);
    lemma_lines_ok_concat(seq![l_host], seq![l_man]);
    lemma_lines_ok_concat(seq![l_host] + seq![l_man], seq![l_st]);
    lemma_add_lines_concat(h0, seq![l_host] + seq![l_man], seq![l_st]);
    lemma_add_lines_concat(h0, seq![l_host], seq![l_man]);
    lemma_add_lines_one(h0, l_host);
    lemma_add_lines_one(h1, l_man);
    lemma_add_lines_one(h2, l_st);
    assert(add_lines(h0, base) == h3);
    let mxl: Seq<Seq<char>> = match max_wait {
        Some(mx) => seq!["MX: "@ + decimal(mx as nat)],
        None => Seq::empty(),
    };
    let h4 = match max_wait {
        Some(mx) => h3.insert("mx"@, decimal(mx as nat)),
        None => h3,
    };
    match max_wait {
        Some(mx) => {
            let d = decimal(mx as nat);
            lemma_decimal_field(mx as nat);
            assert("MX: "@ + d =~= field_line(n_mx, d));
            lemma_field(h3, n_mx, d);
            assert(ascii_lower(n_mx) =~= "mx"@);
            lemma_lines_ok_one(field_line(n_mx, d));
            lemma_add_lines_one(h3, field_line(n_mx, d));
        },
        None => {
            assert(lines_ok(mxl));
        },
    }
    assert(add_lines(h3, mxl) == h4);
    let ual = crate::ssdp::opt_line("USER-AGENT: "@, user_agent);
    match user_agent {
        Some(u) => {
            assert("USER-AGENT: "@ + u =~= field_line(n_ua, u));
            lemma_field(h4, n_ua, u);
            assert(ascii_lower(n_ua) =~= "user-agent"@);
            lemma_lines_ok_one(field_line(n_ua, u));
            lemma_add_lines_one(h4, field_line(n_ua, u));
        },
        None => {
            assert(lines_ok(ual));
        },
    }
    lemma_lines_ok_concat(base, mxl);
    lemma_lines_ok_concat(base + mxl, ual);
    lemma_add_lines_concat(h0, base, mxl);
    lemma_add_lines_concat(h0, base + mxl, ual);
    assert(msearch_lines(host, st, max_wait, user_agent) =~= base + mxl + ual);
}

proof fn lemma_msearch_read(
    host: Seq<char>,
    st: Seq<char>,
    max_wait: Option<u64>,
    user_agent: Option<Seq<char>>,
)
    requires
        field_ok(host),
        field_ok(st),
        opt_field_ok(user_agent),
    ensures
        crate::ssdp::parse_m_search_spec(msearch_headers(host, st, max_wait, user_agent)) == Some(
            MessageView::MSearch { host, search_target: st, max_wait, user_agent },
        ),
{
    reveal_strlit("host");
    reveal_strlit("man");
    reveal_strlit("st");
    reveal_strlit("mx");
    reveal_strlit("user-agent");
    let h = msearch_headers(host, st, max_wait, user_agent);
    lemma_differ_at("st"@, "mx"@, 0);
    lemma_differ_at("man"@, "mx"@, 1);
    lemma_differ_at("host"@, "man"@, 0);
    lemma_differ_at("host"@, "st"@, 0);
    lemma_differ_at("host"@, "mx"@, 0);
    lemma_differ_at("host"@, "user-agent"@, 0);
    lemma_differ_at("st"@, "user-agent"@, 0);
    lemma_differ_at("man"@, "user-agent"@, 0);
    lemma_differ_at("mx"@, "user-agent"@, 0);
    lemma_differ_at("man"@, "st"@, 0);
    lemma_header_read(h, "host"@, host);
    lemma_header_read(h, "st"@, st);
    match max_wait {
        Some(mx) => {
            lemma_decimal_field(mx as nat);
            lemma_header_read(h, "mx"@, decimal(mx as nat));
            crate::text::lemma_parse_decimal(mx);
        },
        None => {
            assert(!h.contains_key("mx"@));
        },
    }
    match user_agent {
        Some(u) => {
            lemma_header_read(h, "user-agent"@, u);
        },
        None => {
            assert(!h.contains_key("user-agent"@));
        },
    }
}

proof fn lemma_msearch(m: MessageView, t: Seq<u8>)
    requires
        m is MSearch,
        message_fields_ok(m),
    ensures
        decode_safe(encode_spec(m) + t),
        decode_spec(encode_spec(m) + t) == (Decoded::Done {
            message: Some(m),
            consumed: encode_spec(m).len() as int,
        }),
{
    match m {
        MessageView::MSearch { host, search_target, max_wait, user_agent } => {
            reveal_strlit("M-SEARCH * HTTP/1.1");
            reveal_strlit("m-search");
            let method = seq!['M', '-', 'S', 'E', 'A', 'R', 'C', 'H'];
            assert(header_name_valid(method));
            let head = request_line(method);
            assert("M-SEARCH * HTTP/1.1"@ =~= head);
            lemma_request_line(method);
            let fls = msearch_lines(host, search_target, max_wait, user_agent);
            lemma_msearch_headers(host, search_target, max_wait, user_agent);
            lemma_msearch_read(host, search_target, max_wait, user_agent);
            assert(message_lines(m) =~= seq![head] + (fls + seq![Seq::<char>::empty()]));
            lemma_packet(m, head, fls, t);
            assert(is_ascii_chars(method));
            assert(ascii_lower(method) =~= "m-search"@);
        },
        _ => {},
    }
}

/// The header lines of an announcement.
pub open spec fn notify_lines(
    host: Seq<char>,
    nt: Seq<char>,
    usn: Seq<char>,
    nts: Seq<char>,
    location: Option<Seq<char>>,
    server: Seq<char>,
) -> Seq<Seq<char>> {
    seq![
        "CACHE_CONTROL: max-age = 120"@,
        "HOST: "@ + host,
        "NT: "@ + nt,
        "USN: "@ + usn,
        "NTS: "@ + nts,
    ] + crate::ssdp::opt_line("LOCATION: "@, location) + seq!["SERVER: "@ + server]
}

/// The headers an announcement carries.
pub open spec fn notify_headers(
    host: Seq<char>,
    nt: Seq<char>,
    usn: Seq<char>,
    nts: Seq<char>,
    location: Option<Seq<char>>,
    server: Seq<char>,
) -> Map<Seq<char>, Seq<char>> {
    let h5 = Map::empty().insert("cache_control"@, "max-age = 120"@).insert("host"@, host).insert(
        "nt"@,
        nt,
    ).insert("usn"@, usn).insert("nts"@, nts);
    let h6 = match location {
        Some(l) => h5.insert("location"@, l),
        None => h5,
    };
    h6.insert("server"@, server)
}

proof fn lemma_notify_headers(
    host: Seq<char>,
    nt: Seq<char>,
    usn: Seq<char>,
    nts: Seq<char>,
    location: Option<Seq<char>>,
    server: Seq<char>,
)
    requires
        field_ok(host),
        field_ok(nt),
        field_ok(usn),
        field_ok(nts),
        opt_field_ok(location),
        field_ok(server),
    ensures
        lines_ok(notify_lines(host, nt, usn, nts, location, server)),
        add_lines(Map::empty(), notify_lines(host, nt, usn, nts, location, server))
            == notify_headers(host, nt, usn, nts, location, server),
{
    reveal_strlit("CACHE_CONTROL: max-age = 120");
    reveal_strlit("HOST: ");
    reveal_strlit("NT: ");
    reveal_strlit("USN: ");
    reveal_strlit("NTS: ");
    reveal_strlit("LOCATION: ");
    reveal_strlit("SERVER: ");
    reveal_strlit("cache_control");
    reveal_strlit("max-age = 120");
    reveal_strlit("host");
    reveal_strlit("nt");
    reveal_strlit("usn");
    reveal_strlit("nts");
    reveal_strlit("location");
    reveal_strlit("server");
    let h0 = Map::<Seq<char>, Seq<char>>::empty();
    let n_cc = seq!['C', 'A', 'C', 'H', 'E', '_', 'C', 'O', 'N', 'T', 'R', 'O', 'L'];
    let n_host = seq!['H', 'O', 'S', 'T'];
    let n_nt = seq!['N', 'T'];
    let n_usn = seq!['U', 'S', 'N'];
    let n_nts = seq!['N', 'T', 'S'];
    let n_loc = seq!['L', 'O', 'C', 'A', 'T', 'I', 'O', 'N'];
    let n_server = seq!['S', 'E', 'R', 'V', 'E', 'R'];
    let v_cc = "max-age = 120"@;
    assert(header_name_valid(n_cc));
    assert(header_name_valid(n_host));
    assert(header_name_valid(n_nt));
    assert(header_name_valid(n_usn));
    assert(header_name_valid(n_nts));
    assert(header_name_valid(n_loc));
    assert(header_name_valid(n_server));
    assert(value_ok(v_cc));
    let l_cc = field_line(n_cc, v_cc);
    let l_host = field_line(n_host, host);
    let l_nt = field_line(n_nt, nt);
    let l_usn = field_line(n_usn, usn);
    let l_nts = field_line(n_nts, nts);
    let l_server = field_line(n_server, server);
    assert("CACHE_CONTROL: max-age = 120"@ =~= l_cc);
    assert("HOST: "@ + host =~= l_host);
    assert("NT: "@ + nt =~= l_nt);
    assert("USN: "@ + usn =~= l_usn);
    assert("NTS: "@ + nts =~= l_nts);
    assert("SERVER: "@ + server =~= l_server);
    assert(ascii_lower(n_cc) =~= "cache_control"@);
    assert(ascii_lower(n_host) =~= "host"@);
    assert(ascii_lower(n_nt) =~= "nt"@);
    assert(ascii_lower(n_usn) =~= "usn"@);
    assert(ascii_lower(n_nts) =~= "nts"@);
    assert(ascii_lower(n_server) =~= "server"@);
    let h1 = h0.insert("cache_control"@, v_cc);
    let h2 = h1.insert("host"@, host);
    let h3 = h2.insert("nt"@, nt);
    let h4 = h3.insert("usn"@, usn);
    let h5 = h4.insert("nts"@, nts);
    lemma_field(h0, n_cc, v_cc);
    lemma_field(h1, n_host, host);
    lemma_field(h2, n_nt, nt);
    lemma_field(h3, n_usn, usn);
    lemma_field(h4, n_nts, nts);
    let s1 = seq![l_cc];
    let s2 = s1 + seq![l_host];
    let s3 = s2 + seq![l_nt];
    let s4 = s3 + seq![l_usn];
    let s5 = s4 + seq![l_nts];
    lemma_lines_ok_one(l_cc);
    lemma_lines_ok_one(l_host);
    lemma_lines_ok_one(l_nt);
    lemma_lines_ok_one(l_usn);
    lemma_lines_ok_one(l_nts);
    lemma_lines_ok_concat(s1, seq![l_host]);
    lemma_lines_ok_concat(s2, seq![l_nt]);
    lemma_lines_ok_concat(s3, seq![l_usn]);
    lemma_lines_ok_concat(s4, seq![l_nts]);
    lemma_add_lines_one(h0, l_cc);
    lemma_add_lines_concat(h0, s1, seq![l_host]);
    lemma_add_lines_one(h1, l_host);
    lemma_add_lines_concat(h0, s2, seq![l_nt]);
    lemma_add_lines_one(h2, l_nt);
    lemma_add_lines_concat(h0, s3, seq![l_usn]);
    lemma_add_lines_one(h3, l_usn);
    lemma_add_lines_concat(h0, s4, seq![l_nts]);
    lemma_add_lines_one(h4, l_nts);
    assert(add_lines(h0, s5) == h5);
    let locl = crate::ssdp::opt_line("LOCATION: "@, location);
    let h6 = match location {
        Some(l) => h5.insert("location"@, l),
        None => h5,
    };
    match location {
        Some(l) => {
            assert("LOCATION: "@ + l =~= field_line(n_loc, l));
            lemma_field(h5, n_loc, l);
            assert(ascii_lower(n_loc) =~= "location"@);
            lemma_lines_ok_one(field_line(n_loc, l));
            lemma_add_lines_one(h5, field_line(n_loc, l));
        },
        None => {
            assert(lines_ok(locl));
        },
    }
    assert(add_lines(h5, locl) == h6);
    lemma_field(h6, n_server, server);
    lemma_lines_ok_one(l_server);
    lemma_add_lines_one(h6, l_server);
    lemma_lines_ok_concat(s5, locl);
    lemma_lines_ok_concat(s5 + locl, seq![l_server]);
    lemma_add_lines_concat(h0, s5, locl);
    lemma_add_lines_concat(h0, s5 + locl, seq![l_server]);
    assert(notify_lines(host, nt, usn, nts, location, server) =~= s5 + locl + seq![l_server]);
}

proof fn lemma_notify_read(
    host: Seq<char>,
    nt: Seq<char>,
    usn: Seq<char>,
    nts: Seq<char>,
    location: Option<Seq<char>>,
    server: Seq<char>,
)
    requires
        field_ok(host),
        field_ok(nt),
        field_ok(usn),
        field_ok(nts),
        opt_field_ok(location),
        field_ok(server),
    ensures
        crate::ssdp::parse_notify_spec(notify_headers(host, nt, usn, nts, location, server))
            == Some(
            MessageView::Notify {
                host,
                notification_type: nt,
                unique_service_name: usn,
                availability: nts,
                location,
                server,
            },
        ),
{
    reveal_strlit("cache_control");
    reveal_strlit("host");
    reveal_strlit("nt");
    reveal_strlit("usn");
    reveal_strlit("nts");
    reveal_strlit("location");
    reveal_strlit("server");
    let h = notify_headers(host, nt, usn, nts, location, server);
    lemma_differ_at("cache_control"@, "host"@, 0);
    lemma_differ_at("cache_control"@, "nt"@, 0);
    lemma_differ_at("cache_control"@, "usn"@, 0);
    lemma_differ_at("cache_control"@, "nts"@, 0);
    lemma_differ_at("cache_control"@, "location"@, 0);
    lemma_differ_at("cache_control"@, "server"@, 0);
    lemma_differ_at("host"@, "nt"@, 0);
    lemma_differ_at("host"@, "usn"@, 0);
    lemma_differ_at("host"@, "nts"@, 0);
    lemma_differ_at("host"@, "location"@, 0);
    lemma_differ_at("host"@, "server"@, 0);
    lemma_differ_at("nt"@, "usn"@, 0);
    lemma_differ_at("nt"@, "location"@, 0);
    lemma_differ_at("nt"@, "server"@, 0);
    lemma_differ_at("usn"@, "nts"@, 0);
    lemma_differ_at("usn"@, "location"@, 0);
    lemma_differ_at("usn"@, "server"@, 0);
    lemma_differ_at("nts"@, "location"@, 0);
    lemma_differ_at("nts"@, "server"@, 0);
    lemma_differ_at("location"@, "server"@, 0);
    assert("nt"@ != "nts"@);
    lemma_header_read(h, "host"@, host);
    lemma_header_read(h, "nt"@, nt);
    lemma_header_read(h, "nts"@, nts);
    lemma_header_read(h, "usn"@, usn);
    lemma_header_read(h, "server"@, server);
    match location {
        Some(l) => {
            lemma_header_read(h, "location"@, l);
        },
        None => {
            assert(!h.contains_key("location"@));
        },
    }
}

proof fn lemma_notify(m: MessageView, t: Seq<u8>)
    requires
        m is Notify,
        message_fields_ok(m),
    ensures
        decode_safe(encode_spec(m) + t),
        decode_spec(encode_spec(m) + t) == (Decoded::Done {
            message: Some(m),
            consumed: encode_spec(m).len() as int,
        }),
{
    match m {
        MessageView::Notify {
            host,
            notification_type,
            unique_service_name,
            availability,
            location,
            server,
        } => {
            reveal_strlit("NOTIFY * HTTP/1.1");
            reveal_strlit("notify");
            reveal_strlit("m-search");
            let method = seq!['N', 'O', 'T', 'I', 'F', 'Y'];
            assert(header_name_valid(method));
            let head = request_line(method);
            assert("NOTIFY * HTTP/1.1"@ =~= head);
            lemma_request_line(method);
            let fls = notify_lines(
                host,
                notification_type,
                unique_service_name,
                availability,
                location,
                server,
            );
            lemma_notify_headers(
                host,
                notification_type,
                unique_service_name,
                availability,
                location,
                server,
            );
            lemma_notify_read(
                host,
                notification_type,
                unique_service_name,
                availability,
                location,
                server,
            );
            assert(message_lines(m) =~= seq![head] + (fls + seq![Seq::<char>::empty()]));
            lemma_packet(m, head, fls, t);
            assert(is_ascii_chars(method));
            assert(ascii_lower(method) =~= "notify"@);
            lemma_differ_at("notify"@, "m-search"@, 0);
        },
        _ => {},
    }
}

proof fn lemma_search_response(m: MessageView, t: Seq<u8>)
    requires
        m is SearchResponse,
        message_fields_ok(m),
    ensures
        decode_safe(encode_spec(m) + t),
        decode_spec(encode_spec(m) + t) == (Decoded::Done {
            message: None,
            consumed: encode_spec(m).len() as int,
        }),
{
    match m {
        MessageView::SearchResponse { location, server, search_target, unique_service_name } => {
            reveal_strlit("HTTP/1.1 200 OK");
            reveal_strlit("CACHE-CONTROL: max-age = 120");
            reveal_strlit("EXT:");
            reveal_strlit("LOCATION: ");
            reveal_strlit("SERVER: ");
            reveal_strlit("USN: ");
            reveal_strlit("ST: ");
            let ws = |c: char| is_whitespace_spec(c);
            let head = "HTTP/1.1 200 OK"@;
            let n_cc = seq!['C', 'A', 'C', 'H', 'E', '-', 'C', 'O', 'N', 'T', 'R', 'O', 'L'];
            let n_ext = seq!['E', 'X', 'T'];
            let n_loc = seq!['L', 'O', 'C', 'A', 'T', 'I', 'O', 'N'];
            let n_server = seq!['S', 'E', 'R', 'V', 'E', 'R'];
            let n_usn = seq!['U', 'S', 'N'];
            let n_st = seq!['S', 'T'];
            let v_cc = seq!['m', 'a', 'x', '-', 'a', 'g', 'e', ' ', '=', ' ', '1', '2', '0'];
            assert(header_name_valid(n_cc));
            assert(header_name_valid(n_ext));
            assert(header_name_valid(n_loc));
            assert(header_name_valid(n_server));
            assert(header_name_valid(n_usn));
            assert(header_name_valid(n_st));
            assert(plain_line(v_cc));
            assert(plain_line(head));
            lemma_strip_noop(head, ws);
            let l_cc = field_line(n_cc, v_cc);
            let l_ext = "EXT:"@;
            let l_loc = field_line(n_loc, location);
            let l_server = field_line(n_server, server);
            let l_usn = field_line(n_usn, unique_service_name);
            let l_st = field_line(n_st, search_target);
            assert("CACHE-CONTROL: max-age = 120"@ =~= l_cc);
            assert("LOCATION: "@ + location =~= l_loc);
            assert("SERVER: "@ + server =~= l_server);
            assert("USN: "@ + unique_service_name =~= l_usn);
            assert("ST: "@ + search_target =~= l_st);
            lemma_plain_field(n_cc, v_cc);
            lemma_plain_field(n_loc, location);
            lemma_plain_field(n_server, server);
            lemma_plain_field(n_usn, unique_service_name);
            lemma_plain_field(n_st, search_target);
            assert(plain_line(l_ext));
            lemma_line_not_blank(n_ext, l_ext);
            let fls = seq![l_cc, l_ext, l_loc, l_server, l_usn, l_st];
            assert(lines_ok(fls));
            assert(message_lines(m) =~= seq![head] + (fls + seq![Seq::<char>::empty()]));
            lemma_packet(m, head, fls, t);
            assert(head[7] != protocol_suffix()[0]);
            assert(head.skip(head.len() - 8)[0] == head[7]);
            assert(!crate::text::ends_with(head, protocol_suffix()));
        },
        _ => {},
    }
}

/// A packet this server encodes is decoded back to the message it was made from,
/// whatever bytes follow it, and decoding takes exactly the packet's bytes. A search
/// or an announcement is read back as the same message; a search response, which
/// the server only sends, is read as a packet that holds no message. This holds when
/// the field values are ones that a header line carries unchanged: printable ASCII
/// without surrounding whitespace or double quotes for a search or an announcement,
/// and ASCII without a carriage return for a search response.
pub proof fn lemma_encode_decode(m: MessageView, rest: Seq<u8>)
    requires
        message_fields_ok(m),
    ensures
        decode_safe(encode_spec(m) + rest),
        decode_spec(encode_spec(m) + rest) == (Decoded::Done {
            message: match m {
                MessageView::SearchResponse { .. } => None,
                _ => Some(m),
            },
            consumed: encode_spec(m).len() as int,
        }),
{
    match m {
        MessageView::MSearch { .. } => lemma_msearch(m, rest),
        MessageView::Notify { .. } => lemma_notify(m, rest),
        MessageView::SearchResponse { .. } => lemma_search_response(m, rest),
    }
}

// ---------------------------------------------------------------------------
// The device and its own announcements
// ---------------------------------------------------------------------------

proof fn lemma_hyphenated_visible(id: u128)
    ensures
        field_ok(hyphenated(id)),
        hyphenated(id).len() == 36,
{
    let h = hex_text(id);
    assert forall|i: int| 0 <= i < 32 implies {
        let u = #[trigger] h[i] as u32;
        48 <= u < 58 || 97 <= u < 103
    } by {
        vstd::arithmetic::power::lemma_pow_positive(16, (31 - i) as nat);
        let d = ((id as int) / pow(16, (31 - i) as nat)) % 16;
        assert(0 <= d < 16);
        if d < 10 {
            assert(is_digit(digit_char(d as nat)));
        }
    }
    let y = hyphenated(id);
    assert forall|i: int| 0 <= i < y.len() implies {
        let u = #[trigger] y[i] as u32;
        (32 <= u < 127) || u == 9
    } by {
        if i < 8 {
            assert(y[i] == h[i]);
        } else if 8 < i < 13 {
            assert(y[i] == h[i - 1]);
        } else if 13 < i < 18 {
            assert(y[i] == h[i - 2]);
        } else if 18 < i < 23 {
            assert(y[i] == h[i - 3]);
        } else if 23 < i {
            assert(y[i] == h[i - 4]);
        }
    }
    assert(y[0] == h[0]);
    assert(y[35] == h[31]);
}

/// A text that starts and ends with printable characters other than whitespace and
/// double quotes, around a printable middle, survives a header line.
proof fn lemma_field_ok_concat(a: Seq<char>, b: Seq<char>, c: Seq<char>)
    requires
        field_ok(a),
        a.len() > 0,
        visible_ascii(b),
        field_ok(c),
        c.len() > 0,
    ensures
        field_ok(a + b + c),
{
    let s = a + b + c;
    assert forall|i: int| 0 <= i < s.len() implies {
        let u = #[trigger] s[i] as u32;
        (32 <= u < 127) || u == 9
    } by {
        if i < a.len() {
            assert(s[i] == a[i]);
        } else if i < a.len() + b.len() {
            assert(s[i] == b[i - a.len()]);
        } else {
            assert(s[i] == c[i - a.len() - b.len()]);
        }
    }
    assert(s[0] == a[0]);
    assert(s.last() == c.last());
}

proof fn lemma_literal_field(s: Seq<char>)
    requires
        s.len() > 0,
        visible_ascii(s),
        !is_whitespace_spec(s[0]),
        !is_whitespace_spec(s.last()),
        s[0] != '"',
        s.last() != '"',
    ensures
        field_ok(s),
{
}

/// Every announcement of the device is read back unchanged by a receiver, and the
/// device does not answer it: its own announcements are recognised as its own, on
/// every interface. The address text and the `SERVER` text must be printable for
/// the announcement to cross the network unchanged.
pub proof fn lemma_own_announcements_ignored(
    task: SsdpTask,
    interface: Interface,
    i: int,
    rest: Seq<u8>,
)
    requires
        0 <= i < 4,
        visible_ascii(interface.address_spec()),
        field_ok(task.server@),
    ensures
        ({
            let a = task.announcements_spec(interface)[i];
            &&& SsdpMessage::is_uuid_spec(a, task.uuid)
            &&& task.handle_spec(a) is None
            &&& decode_safe(encode_spec(a) + rest)
            &&& decode_spec(encode_spec(a) + rest) == (Decoded::Done {
                message: Some(a),
                consumed: encode_spec(a).len() as int,
            })
        }),
{
    reveal_strlit("uuid:");
    reveal_strlit("::");
    reveal_strlit("upnp:rootdevice");
    reveal_strlit("urn:schemas-upnp-org:device:MediaServer:1");
    reveal_strlit("urn:schemas-upnp-org:service:ContentDirectory:1");
    reveal_strlit("239.255.255.250");
    reveal_strlit("ff02::c");
    reveal_strlit("ssdp:alive");
    reveal_strlit("http://");
    reveal_strlit(":");
    reveal_strlit("/upnp/device.xml");
    let a = task.announcements_spec(interface)[i];
    let base = usn_base_spec(task.uuid);
    lemma_hyphenated_visible(task.uuid);
    let pre = "uuid:"@;
    lemma_literal_field(pre);
    lemma_field_ok_concat(pre, Seq::empty(), hyphenated(task.uuid));
    assert(pre + Seq::<char>::empty() + hyphenated(task.uuid) =~= base);
    let root = upnp_root();
    let media = upnp_mediaserver();
    let cd = upnp_contentdirectory();
    lemma_literal_field(root);
    lemma_literal_field(media);
    lemma_literal_field(cd);
    lemma_literal_field("::"@ + root);
    assert(visible_ascii("::"@));
    lemma_field_ok_concat(base, "::"@, root);
    lemma_field_ok_concat(base, "::"@, media);
    lemma_field_ok_concat(base, "::"@, cd);
    assert(starts_with(base, base)) by {
        assert(base.take(base.len() as int) =~= base);
    }
    assert(starts_with(service_usn(task.uuid, root), base)) by {
        assert(service_usn(task.uuid, root).take(base.len() as int) =~= base);
    }
    assert(starts_with(service_usn(task.uuid, media), base)) by {
        assert(service_usn(task.uuid, media).take(base.len() as int) =~= base);
    }
    assert(starts_with(service_usn(task.uuid, cd), base)) by {
        assert(service_usn(task.uuid, cd).take(base.len() as int) =~= base);
    }
    let port = decimal(task.http_port as nat);
    lemma_decimal_field(task.http_port as nat);
    let loc = location_spec(interface.address_spec(), task.http_port);
    let mid = interface.address_spec() + ":"@ + port;
    assert(visible_ascii(mid)) by {
        let b = interface.address_spec();
        assert forall|k: int| 0 <= k < mid.len() implies {
            let u = #[trigger] mid[k] as u32;
            (32 <= u < 127) || u == 9
        } by {
            if k < b.len() {
                assert(mid[k] == b[k]);
            } else if k == b.len() {
            } else {
                assert(mid[k] == port[k - b.len() - 1]);
            }
        }
    }
    lemma_literal_field("http://"@);
    lemma_literal_field("/upnp/device.xml"@);
    lemma_field_ok_concat("http://"@, mid, "/upnp/device.xml"@);
    assert("http://"@ + mid + "/upnp/device.xml"@ =~= loc);
    lemma_literal_field(multicast_host(interface is V4));
    lemma_literal_field("ssdp:alive"@);
    lemma_encode_decode(a, rest);
}

/// A search for the media server's device type or for the content directory's
/// service type is answered once: the answer's search target is that type, and its
/// unique service name is the device's name, `::` and that type.
pub proof fn law_service_search_answered_once(task: SsdpTask, interface: Interface, t: Seq<char>)
    requires
        t == upnp_mediaserver() || t == upnp_contentdirectory(),
    ensures
        task.search_responses_spec(interface, t).len() == 1,
        task.search_responses_spec(interface, t)[0] matches MessageView::SearchResponse {
            search_target,
            unique_service_name,
            ..
        } && search_target == t && unique_service_name == usn_base_spec(task.uuid) + "::"@ + t,
{
    reveal_strlit("upnp:rootdevice");
    reveal_strlit("urn:schemas-upnp-org:device:MediaServer:1");
    reveal_strlit("urn:schemas-upnp-org:service:ContentDirectory:1");
    reveal_strlit("uuid:");
    assert(t != upnp_root());
    assert(is_ascii_chars(t)) by {
        assert forall|i| 0 <= i < t.len() implies '\0' <= #[trigger] t[i] <= '\u{7f}' by {
        }
    }
    let base = usn_base_spec(task.uuid);
    assert(base[1] == 'u');
    assert(ascii_lower(t)[1] == 'r');
    assert(crate::text::lowercase_spec(t) != base);
}

/// None of the search targets of the device's types is its name in any case.
proof fn lemma_types_are_not_the_name(uuid: u128)
    ensures
        crate::text::lowercase_spec(upnp_root()) != usn_base_spec(uuid),
        crate::text::lowercase_spec(upnp_mediaserver()) != usn_base_spec(uuid),
        crate::text::lowercase_spec(upnp_contentdirectory()) != usn_base_spec(uuid),
{
    reveal_strlit("upnp:rootdevice");
    reveal_strlit("urn:schemas-upnp-org:device:MediaServer:1");
    reveal_strlit("urn:schemas-upnp-org:service:ContentDirectory:1");
    reveal_strlit("uuid:");
    let base = usn_base_spec(uuid);
    assert(base[1] == 'u');
    let r = upnp_root();
    let m = upnp_mediaserver();
    let c = upnp_contentdirectory();
    assert(is_ascii_chars(r)) by {
        assert forall|i| 0 <= i < r.len() implies '\0' <= #[trigger] r[i] <= '\u{7f}' by {
        }
    }
    assert(is_ascii_chars(m)) by {
        assert forall|i| 0 <= i < m.len() implies '\0' <= #[trigger] m[i] <= '\u{7f}' by {
        }
    }
    assert(is_ascii_chars(c)) by {
        assert forall|i| 0 <= i < c.len() implies '\0' <= #[trigger] c[i] <= '\u{7f}' by {
        }
    }
    assert(ascii_lower(r)[1] == 'p');
    assert(ascii_lower(m)[1] == 'r');
    assert(ascii_lower(c)[1] == 'r');
}

/// A search for the root device is answered for the device itself and for each of
/// its three types, in that order, each answer naming what it answers for as its
/// search target and its unique service name built from the device's name.
pub proof fn law_root_search_answers_everything(task: SsdpTask, interface: Interface)
    ensures
        ({
            let r = task.search_responses_spec(interface, upnp_root());
            let base = usn_base_spec(task.uuid);
            let targets = seq![base, upnp_root(), upnp_mediaserver(), upnp_contentdirectory()];
            &&& r.len() == 4
            &&& forall|i: int|
                0 <= i < 4 ==> ((#[trigger] r[i]) matches MessageView::SearchResponse {
                    search_target,
                    unique_service_name,
                    ..
                } && search_target == targets[i] && unique_service_name == if i == 0 {
                    base
                } else {
                    base + "::"@ + targets[i]
                })
        }),
{
    lemma_types_are_not_the_name(task.uuid);
}

/// A search for the device's name, in any case, is answered once, for the device
/// itself; a search for anything else that is not one of its types is not answered.
pub proof fn law_name_search_answered_once(task: SsdpTask, interface: Interface, t: Seq<char>)
    ensures
        crate::text::lowercase_spec(t) == usn_base_spec(task.uuid) ==> task.search_responses_spec(interface, t)
            == seq![task.response_spec(interface, usn_base_spec(task.uuid), usn_base_spec(task.uuid))],
        crate::text::lowercase_spec(t) != usn_base_spec(task.uuid) && t != upnp_root() && t != upnp_mediaserver()
            && t != upnp_contentdirectory() ==> task.search_responses_spec(interface, t).len() == 0,
{
    lemma_types_are_not_the_name(task.uuid);
    assert(Seq::<MessageView>::empty().push(
        task.response_spec(interface, usn_base_spec(task.uuid), usn_base_spec(task.uuid)),
    ) =~= seq![task.response_spec(interface, usn_base_spec(task.uuid), usn_base_spec(task.uuid))]);
}

} // verus!
