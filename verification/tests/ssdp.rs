use bytes::BytesMut;
use flick_sync::ssdp::{decode_line, parse_header, parse_method, HeaderList, SsdpError, SsdpMessage};

fn chars(s: &str) -> Vec<char> {
    s.chars().collect()
}

fn text(v: &[char]) -> String {
    v.iter().collect()
}

fn search() -> SsdpMessage {
    SsdpMessage::MSearch {
        host: "239.255.255.250:1900".to_string(),
        search_target: "ssdp:all".to_string(),
        max_wait: Some(3),
        user_agent: Some("Test/1.0".to_string()),
    }
}

#[test]
fn encodes_search_request() {
    let mut buffer = BytesMut::new();
    search().encode(&mut buffer);
    assert_eq!(
        &buffer[..],
        b"M-SEARCH * HTTP/1.1\r\nHOST: 239.255.255.250:1900\r\nMAN: \"ssdp:discover\"\r\nST: ssdp:all\r\nMX: 3\r\nUSER-AGENT: Test/1.0\r\n\r\n"
    );
}

#[test]
fn search_request_round_trips() {
    let mut buffer = BytesMut::new();
    search().encode(&mut buffer);
    buffer.extend_from_slice(b"NEXT");
    let decoded = SsdpMessage::decode(&mut buffer).unwrap().unwrap();
    match decoded {
        SsdpMessage::MSearch { host, search_target, max_wait, user_agent } => {
            assert_eq!(host, "239.255.255.250:1900");
            assert_eq!(search_target, "ssdp:all");
            assert_eq!(max_wait, Some(3));
            assert_eq!(user_agent.as_deref(), Some("Test/1.0"));
        }
        _ => panic!("wrong message"),
    }
    assert_eq!(&buffer[..], b"NEXT");
}

#[test]
fn announcement_round_trips() {
    let message = SsdpMessage::Notify {
        host: "239.255.255.250".to_string(),
        notification_type: "upnp:rootdevice".to_string(),
        unique_service_name: "uuid:x::upnp:rootdevice".to_string(),
        availability: "ssdp:alive".to_string(),
        location: Some("http://10.0.0.2:1980/upnp/device.xml".to_string()),
        server: "linux/0.0 UPnP/1.1 FlickSync/1.0".to_string(),
    };
    let mut buffer = BytesMut::new();
    message.encode(&mut buffer);
    let decoded = SsdpMessage::decode(&mut buffer).unwrap().unwrap();
    match decoded {
        SsdpMessage::Notify { host, notification_type, unique_service_name, availability, location, server } => {
            assert_eq!(host, "239.255.255.250");
            assert_eq!(notification_type, "upnp:rootdevice");
            assert_eq!(unique_service_name, "uuid:x::upnp:rootdevice");
            assert_eq!(availability, "ssdp:alive");
            assert_eq!(location.as_deref(), Some("http://10.0.0.2:1980/upnp/device.xml"));
            assert_eq!(server, "linux/0.0 UPnP/1.1 FlickSync/1.0");
        }
        _ => panic!("wrong message"),
    }
    assert!(buffer.is_empty());
}

#[test]
fn search_response_decodes_to_no_message() {
    let message = SsdpMessage::SearchResponse {
        location: "http://10.0.0.2:1980/upnp/device.xml".to_string(),
        server: "linux".to_string(),
        search_target: "upnp:rootdevice".to_string(),
        unique_service_name: "uuid:x".to_string(),
    };
    let mut buffer = BytesMut::new();
    message.encode(&mut buffer);
    let encoded = buffer.clone();
    assert!(encoded.starts_with(b"HTTP/1.1 200 OK\r\nCACHE-CONTROL: max-age = 120\r\nEXT:\r\n"));
    assert!(SsdpMessage::decode(&mut buffer).unwrap().is_none());
    assert!(buffer.is_empty());
}

#[test]
fn incomplete_packet_is_kept() {
    let mut buffer = BytesMut::new();
    buffer.extend_from_slice(b"M-SEARCH * HTTP/1.1\r\nHOST: a");
    assert!(SsdpMessage::decode(&mut buffer).unwrap().is_none());
    assert_eq!(buffer.len(), 28);
}

#[test]
fn packet_ending_after_a_header_is_complete() {
    let mut buffer = BytesMut::new();
    buffer.extend_from_slice(b"M-SEARCH * HTTP/1.1\r\nHOST: a\r\n");
    assert!(SsdpMessage::decode(&mut buffer).unwrap().is_none());
    assert!(buffer.is_empty());
}

#[test]
fn invalid_text_is_an_error() {
    let mut buffer = BytesMut::new();
    buffer.extend_from_slice(b"\xff\xfe\r\n\r\n");
    assert_eq!(SsdpMessage::decode(&mut buffer).unwrap_err(), SsdpError::InvalidText);
    assert_eq!(buffer.len(), 6);
}

#[test]
fn header_names_are_lower_cased_and_quotes_removed() {
    let mut buffer = BytesMut::new();
    buffer.extend_from_slice(b"m-search * HTTP/1.1\r\nHost: h\r\nSt: \"ssdp:all\"\r\nMx: x\r\n\r\n");
    match SsdpMessage::decode(&mut buffer).unwrap().unwrap() {
        SsdpMessage::MSearch { host, search_target, max_wait, user_agent } => {
            assert_eq!(host, "h");
            assert_eq!(search_target, "ssdp:all");
            assert_eq!(max_wait, None);
            assert_eq!(user_agent, None);
        }
        _ => panic!("wrong message"),
    }
}

#[test]
fn request_line_without_text_before_protocol_would_panic() {
    let mut buffer = BytesMut::new();
    buffer.extend_from_slice(b"HTTP/1.1\r\n\r\n");
    assert!(SsdpMessage::decode_would_panic(&buffer));
    let mut fine = BytesMut::new();
    fine.extend_from_slice(b"NOTIFY * HTTP/1.1\r\n\r\n");
    assert!(!SsdpMessage::decode_would_panic(&fine));
}

#[test]
fn decodes_one_line() {
    let line = decode_line(b"  hello \r\nrest", 0).unwrap().unwrap();
    assert_eq!(line.0, "hello");
    assert_eq!(line.1, 10);
    assert!(decode_line(b"partial\r", 0).unwrap().is_none());
}

#[test]
fn parses_methods() {
    assert_eq!(parse_method("M-SEARCH * HTTP/1.1").unwrap(), "M-SEARCH");
    assert_eq!(parse_method("NOTIFY * HTTP/1.0"), Err(SsdpError::InvalidProtocol));
    assert_eq!(parse_method("NOTIFY HTTP/1.1"), Err(SsdpError::MissingMethodSeparator));
}

#[test]
fn parses_header_lines() {
    let (name, value) = parse_header(&chars("Cache-Control : max-age=5 ")).unwrap();
    assert_eq!(text(&name), "cache-control");
    assert_eq!(text(&value), "max-age=5");
    assert_eq!(parse_header(&chars("no separator")), Err(SsdpError::MissingSeparator));
    assert_eq!(parse_header(&chars("bad name: x")), Err(SsdpError::InvalidHeaderName));
    assert_eq!(parse_header(&chars("x: a\u{7f}b")), Err(SsdpError::InvalidHeaderValue));
}

#[test]
fn later_headers_replace_earlier_ones() {
    let mut headers = HeaderList::new();
    headers.insert(chars("st"), chars("one"));
    headers.insert(chars("st"), chars("two"));
    assert_eq!(text(&headers.get(&chars("st")).unwrap()), "two");
    assert!(headers.get(&chars("host")).is_none());
}
