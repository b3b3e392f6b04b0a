use bytes::BytesMut;
use flick_sync::ssdp::{SsdpError, SsdpMessage};
use flick_sync::ssdp_task::{decode_step, find_interface, usn_base, DecodeStep, Interface, SsdpTask};

const UUID: u128 = 0xa1a2a3a4b1b2c1c2d1d2d3d4d5d6d7d8;

fn task() -> SsdpTask {
    SsdpTask::new(UUID, "linux", "FlickSync/1.2", 1980)
}

fn iface() -> Interface {
    Interface::V4 { address: "10.0.0.2".to_string(), index: 2, multicast: true }
}

fn usn_of(m: &SsdpMessage) -> String {
    match m {
        SsdpMessage::Notify { unique_service_name, .. } => unique_service_name.clone(),
        SsdpMessage::SearchResponse { unique_service_name, .. } => unique_service_name.clone(),
        _ => panic!("unexpected"),
    }
}

#[test]
fn device_name_is_the_hyphenated_uuid() {
    assert_eq!(usn_base(UUID), "uuid:a1a2a3a4-b1b2-c1c2-d1d2-d3d4d5d6d7d8");
}

#[test]
fn server_header_names_the_system_and_version() {
    assert_eq!(task().server, "linux/0.0 UPnP/1.1 FlickSync/1.2");
}

#[test]
fn announces_device_and_services() {
    let messages = task().announcements(&iface());
    assert_eq!(messages.len(), 4);
    let base = "uuid:a1a2a3a4-b1b2-c1c2-d1d2-d3d4d5d6d7d8";
    assert_eq!(usn_of(&messages[0]), base);
    assert_eq!(usn_of(&messages[1]), format!("{base}::upnp:rootdevice"));
    assert_eq!(usn_of(&messages[3]), format!("{base}::urn:schemas-upnp-org:service:ContentDirectory:1"));
    match &messages[2] {
        SsdpMessage::Notify { host, notification_type, location, availability, .. } => {
            assert_eq!(host, "239.255.255.250");
            assert_eq!(notification_type, "urn:schemas-upnp-org:device:MediaServer:1");
            assert_eq!(location.as_deref(), Some("http://10.0.0.2:1980/upnp/device.xml"));
            assert_eq!(availability, "ssdp:alive");
        }
        _ => panic!("expected an announcement"),
    }
}

#[test]
fn ipv6_announcements_use_the_ipv6_group() {
    let v6 = Interface::V6 { address: "fe80::1".to_string(), index: 3, multicast: true };
    match &task().announcements(&v6)[0] {
        SsdpMessage::Notify { host, location, .. } => {
            assert_eq!(host, "ff02::c");
            assert_eq!(location.as_deref(), Some("http://fe80::1:1980/upnp/device.xml"));
        }
        _ => panic!("expected an announcement"),
    }
}

#[test]
fn own_announcements_are_ignored() {
    let t = task();
    for message in t.announcements(&iface()) {
        assert!(message.is_uuid(UUID));
        assert!(t.handle_message(&message).is_none());
    }
    let other = SsdpMessage::Notify {
        host: "h".to_string(),
        notification_type: "t".to_string(),
        unique_service_name: "uuid:other".to_string(),
        availability: "ssdp:alive".to_string(),
        location: None,
        server: String::new(),
    };
    assert!(!other.is_uuid(UUID));
    assert!(t.handle_message(&other).is_none());
}

#[test]
fn searches_are_answered_for_their_target() {
    let search = SsdpMessage::MSearch {
        host: "h".to_string(),
        search_target: "ssdp:all".to_string(),
        max_wait: None,
        user_agent: None,
    };
    assert_eq!(task().handle_message(&search).as_deref(), Some("ssdp:all"));
}

#[test]
fn root_device_search_gets_every_service() {
    let responses = task().search_responses(&iface(), "upnp:rootdevice");
    assert_eq!(responses.len(), 4);
    match &responses[1] {
        SsdpMessage::SearchResponse { search_target, location, .. } => {
            assert_eq!(search_target, "upnp:rootdevice");
            assert_eq!(location, "http://10.0.0.2:1980/upnp/device.xml");
        }
        _ => panic!("expected a response"),
    }
}

#[test]
fn service_search_gets_one_answer() {
    let responses = task().search_responses(&iface(), "urn:schemas-upnp-org:device:MediaServer:1");
    assert_eq!(responses.len(), 1);
    assert_eq!(
        usn_of(&responses[0]),
        "uuid:a1a2a3a4-b1b2-c1c2-d1d2-d3d4d5d6d7d8::urn:schemas-upnp-org:device:MediaServer:1"
    );
}

#[test]
fn device_search_matches_in_any_case() {
    let responses = task().search_responses(&iface(), "UUID:A1A2A3A4-B1B2-C1C2-D1D2-D3D4D5D6D7D8");
    assert_eq!(responses.len(), 1);
    assert_eq!(usn_of(&responses[0]), "uuid:a1a2a3a4-b1b2-c1c2-d1d2-d3d4d5d6d7d8");
    assert!(task().search_responses(&iface(), "ssdp:all").is_empty());
}

#[test]
fn finds_the_receiving_interface() {
    let interfaces = vec![
        Interface::V6 { address: "fe80::1".to_string(), index: 2, multicast: true },
        iface(),
    ];
    assert_eq!(find_interface(&interfaces, true, 2), Some(1));
    assert_eq!(find_interface(&interfaces, false, 2), Some(0));
    assert_eq!(find_interface(&interfaces, true, 7), None);
}

#[test]
fn decoding_steps_through_a_buffer() {
    let mut buffer = BytesMut::new();
    assert!(matches!(decode_step(&mut buffer), DecodeStep::Empty));

    buffer.extend_from_slice(b"M-SEARCH * HTTP/1.1\r\nHOST: 239.255.255.250:1900\r\nMAN: \"ssdp:discover\"\r\nST: ssdp:all\r\nMX: 2\r\n\r\nM-SEARCH * HTTP/1.1\r\nHOST: a");
    let step = decode_step(&mut buffer);
    assert!(step.keeps_reading());
    match step {
        DecodeStep::Message(SsdpMessage::MSearch { search_target, max_wait, .. }) => {
            assert_eq!(search_target, "ssdp:all");
            assert_eq!(max_wait, Some(2));
        }
        _ => panic!("expected a search"),
    }
    let step = decode_step(&mut buffer);
    assert!(!step.keeps_reading());
    assert!(matches!(step, DecodeStep::Wait));
    assert_eq!(&buffer[..], b"M-SEARCH * HTTP/1.1\r\nHOST: a");

    let mut bad = BytesMut::new();
    bad.extend_from_slice(b"\xff\xfe\r\n\r\n");
    assert!(matches!(decode_step(&mut bad), DecodeStep::Failed(SsdpError::InvalidText)));
    assert_eq!(bad.len(), 6);

    let mut unreadable = BytesMut::new();
    unreadable.extend_from_slice(b"HTTP/1.1\r\n\r\n");
    assert!(matches!(decode_step(&mut unreadable), DecodeStep::Unreadable));
}
