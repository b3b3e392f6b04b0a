//! What the SSDP service says and to whom: the announcements it multicasts, the
//! answers it gives to searches and which received messages it answers.
use vstd::arithmetic::power::pow;
use vstd::prelude::*;

use crate::buffer::buffer_contents;
use crate::ssdp::{buffer_unchanged, decode_safe, decode_spec, Decoded, MessageView, SsdpError, SsdpMessage};
use crate::text::{
    chars_eq, decimal, digit_char, lowercase_spec, push_decimal, push_str, starts_with,
    starts_with_chars, to_chars, to_lowercase,
};

verus! {

// ---------------------------------------------------------------------------
// The device's identity
// ---------------------------------------------------------------------------

/// A lower case hexadecimal digit.
pub open spec fn hex_digit(d: int) -> char {
    if d < 10 {
        digit_char(d as nat)
    } else {
        ((d - 10) + 97) as char
    }
}

/// The 32 hexadecimal digits of a 128 bit value, most significant first.
pub open spec fn hex_text(id: u128) -> Seq<char> {
    Seq::new(32, |i: int| hex_digit(((id as int) / pow(16, (31 - i) as nat)) % 16))
}

/// The hyphenated form of a UUID: its digits in groups of 8, 4, 4, 4 and 12.
pub open spec fn hyphenated(id: u128) -> Seq<char> {
    let h = hex_text(id);
    h.subrange(0, 8) + seq!['-'] + h.subrange(8, 12) + seq!['-'] + h.subrange(12, 16) + seq![
        '-',
    ] + h.subrange(16, 20) + seq!['-'] + h.subrange(20, 32)
}

/// Calls `uuid::Uuid::from_u128` and formats the UUID with `as_hyphenated`. The
/// crate documents that the value is read most significant byte first and that the
/// hyphenated form is the 32 lower case hexadecimal digits in groups of 8, 4, 4, 4
/// and 12 joined by hyphens.
#[verifier::external_body]
pub(crate) fn uuid_hyphenated(id: u128) -> (r: String)
    ensures
        r@ == hyphenated(id),
{
    uuid::Uuid::from_u128(id).as_hyphenated().to_string()
}

/// The unique service name of the device: `uuid:` and its UUID.
pub open spec fn usn_base_spec(uuid: u128) -> Seq<char> {
    "uuid:"@ + hyphenated(uuid)
}

/// The unique service name of the device.
pub fn usn_base(uuid: u128) -> (r: String)
    ensures
        r@ == usn_base_spec(uuid),
{
    let mut s = String::new();
    push_str(&mut s, "uuid:");
    let h = uuid_hyphenated(uuid);
    push_str(&mut s, h.as_str());
    proof {
        assert(s@ =~= usn_base_spec(uuid));
    }
    s
}

/// The unique service name of one of the device's services: the device's name,
/// `::` and the service type.
pub open spec fn service_usn(uuid: u128, service: Seq<char>) -> Seq<char> {
    usn_base_spec(uuid) + "::"@ + service
}

pub open spec fn upnp_root() -> Seq<char> {
    "upnp:rootdevice"@
}

pub open spec fn upnp_mediaserver() -> Seq<char> {
    "urn:schemas-upnp-org:device:MediaServer:1"@
}

pub open spec fn upnp_contentdirectory() -> Seq<char> {
    "urn:schemas-upnp-org:service:ContentDirectory:1"@
}

fn service_usn_string(base: &String, service: &str) -> (r: String)
    ensures
        r@ == base@ + "::"@ + service@,
{
    let mut s = base.clone();
    push_str(&mut s, "::");
    push_str(&mut s, service);
    s
}

impl SsdpMessage {
    /// Whether this is an announcement made by the device with this UUID: one whose
    /// unique service name starts with the device's name.
    pub open spec fn is_uuid_spec(m: MessageView, uuid: u128) -> bool {
        match m {
            MessageView::Notify { unique_service_name, .. } => starts_with(
                unique_service_name,
                usn_base_spec(uuid),
            ),
            _ => false,
        }
    }

    pub fn is_uuid(&self, uuid: u128) -> (r: bool)
        ensures
            r == SsdpMessage::is_uuid_spec(self@, uuid),
    {
        match self {
            SsdpMessage::Notify { unique_service_name, .. } => {
                let own = usn_base(uuid);
                let usn = to_chars(unique_service_name.as_str());
                let own_chars = to_chars(own.as_str());
                starts_with_chars(usn.as_slice(), own_chars.as_slice())
            },
            _ => false,
        }
    }
}

// ---------------------------------------------------------------------------
// Network interfaces
// ---------------------------------------------------------------------------

/// A local network interface: its address as text, its index and whether it
/// supports multicast.
pub enum Interface {
    V4 { address: String, index: u32, multicast: bool },
    V6 { address: String, index: u32, multicast: bool },
}

impl Interface {
    pub open spec fn address_spec(&self) -> Seq<char> {
        match self {
            Interface::V4 { address, .. } => address@,
            Interface::V6 { address, .. } => address@,
        }
    }

    pub open spec fn index_spec(&self) -> u32 {
        match self {
            Interface::V4 { index, .. } => *index,
            Interface::V6 { index, .. } => *index,
        }
    }

    pub fn is_ipv4(&self) -> (r: bool)
        ensures
            r == self is V4,
    {
        match self {
            Interface::V4 { .. } => true,
            Interface::V6 { .. } => false,
        }
    }

    pub fn index(&self) -> (r: u32)
        ensures
            r == self.index_spec(),
    {
        match self {
            Interface::V4 { index, .. } => *index,
            Interface::V6 { index, .. } => *index,
        }
    }

    pub fn multicast(&self) -> (r: bool)
        ensures
            r == match self {
                Interface::V4 { multicast, .. } => *multicast,
                Interface::V6 { multicast, .. } => *multicast,
            },
    {
        match self {
            Interface::V4 { multicast, .. } => *multicast,
            Interface::V6 { multicast, .. } => *multicast,
        }
    }

    pub fn address(&self) -> (r: &String)
        ensures
            r@ == self.address_spec(),
    {
        match self {
            Interface::V4 { address, .. } => address,
            Interface::V6 { address, .. } => address,
        }
    }

    /// Whether a packet received from an address of this family on the interface
    /// with this index arrived on this interface.
    pub open spec fn receives(&self, is_ipv4: bool, if_index: u64) -> bool {
        (self is V4) == is_ipv4 && self.index_spec() as u64 == if_index
    }
}

/// The position of the first interface that a packet from an address of this
/// family, received on the interface with this index, arrived on.
pub fn find_interface(interfaces: &Vec<Interface>, is_ipv4: bool, if_index: u64) -> (r: Option<
    usize,
>)
    ensures
        match r {
            Some(i) => i < interfaces.len() && interfaces@[i as int].receives(is_ipv4, if_index)
                && forall|j: int|
                0 <= j < i ==> !(#[trigger] interfaces@[j]).receives(is_ipv4, if_index),
            None => forall|j: int|
                0 <= j < interfaces.len() ==> !(#[trigger] interfaces@[j]).receives(
                    is_ipv4,
                    if_index,
                ),
        },
{
    let mut i: usize = 0;
    while i < interfaces.len()
        invariant
            i <= interfaces.len(),
            forall|j: int|
                0 <= j < i ==> !(#[trigger] interfaces@[j]).receives(is_ipv4, if_index),
        decreases interfaces.len() - i,
    {
        let iface = &interfaces[i];
        if iface.is_ipv4() == is_ipv4 && iface.index() as u64 == if_index {
            return Some(i);
        }
        i = i + 1;
    }
    None
}

// ---------------------------------------------------------------------------
// The messages the device sends
// ---------------------------------------------------------------------------

/// The SSDP multicast group of an address family, as text.
pub open spec fn multicast_host(is_ipv4: bool) -> Seq<char> {
    if is_ipv4 {
        "239.255.255.250"@
    } else {
        "ff02::c"@
    }
}

/// Where the device description is served.
pub open spec fn location_spec(address: Seq<char>, http_port: u16) -> Seq<char> {
    "http://"@ + address + ":"@ + decimal(http_port as nat) + "/upnp/device.xml"@
}

fn location(address: &String, http_port: u16) -> (r: String)
    ensures
        r@ == location_spec(address@, http_port),
{
    let mut s = String::new();
    push_str(&mut s, "http://");
    push_str(&mut s, address.as_str());
    push_str(&mut s, ":");
    push_decimal(&mut s, http_port as u64);
    push_str(&mut s, "/upnp/device.xml");
    proof {
        assert(s@ =~= location_spec(address@, http_port));
    }
    s
}

/// The state the SSDP tasks share: the device's UUID, the text of its `SERVER`
/// header and the port of its HTTP server.
pub struct SsdpTask {
    pub uuid: u128,
    pub server: String,
    pub http_port: u16,
}

impl SsdpTask {
    /// `server` is `<os>/0.0 UPnP/1.1 <server_version>`.
    pub fn new(uuid: u128, os: &str, server_version: &str, http_port: u16) -> (r: SsdpTask)
        ensures
            r.uuid == uuid,
            r.server@ == os@ + "/0.0 UPnP/1.1 "@ + server_version@,
            r.http_port == http_port,
    {
        let mut server = String::new();
        push_str(&mut server, os);
        push_str(&mut server, "/0.0 UPnP/1.1 ");
        push_str(&mut server, server_version);
        proof {
            assert(server@ =~= os@ + "/0.0 UPnP/1.1 "@ + server_version@);
        }
        SsdpTask { uuid, server, http_port }
    }

    pub open spec fn notify_spec(
        &self,
        interface: Interface,
        usn: Seq<char>,
        notification_type: Seq<char>,
    ) -> MessageView {
        MessageView::Notify {
            host: multicast_host(interface is V4),
            notification_type,
            unique_service_name: usn,
            availability: "ssdp:alive"@,
            location: Some(location_spec(interface.address_spec(), self.http_port)),
            server: self.server@,
        }
    }

    /// The announcement that a service of the device is alive.
    pub fn notify_message(&self, interface: &Interface, usn: &str, notification_type: &str) -> (r:
        SsdpMessage)
        ensures
            r@ == self.notify_spec(*interface, usn@, notification_type@),
    {
        let host = if interface.is_ipv4() {
            "239.255.255.250".to_owned()
        } else {
            "ff02::c".to_owned()
        };
        SsdpMessage::Notify {
            host,
            notification_type: notification_type.to_owned(),
            unique_service_name: usn.to_owned(),
            availability: "ssdp:alive".to_owned(),
            location: Some(location(interface.address(), self.http_port)),
            server: self.server.clone(),
        }
    }

    /// The announcements made on an interface: the device itself, then the root
    /// device, the media server and the content directory service.
    pub open spec fn announcements_spec(&self, interface: Interface) -> Seq<MessageView> {
        let base = usn_base_spec(self.uuid);
        seq![
            self.notify_spec(interface, base, base),
            self.notify_spec(interface, service_usn(self.uuid, upnp_root()), upnp_root()),
            self.notify_spec(
                interface,
                service_usn(self.uuid, upnp_mediaserver()),
                upnp_mediaserver(),
            ),
            self.notify_spec(
                interface,
                service_usn(self.uuid, upnp_contentdirectory()),
                upnp_contentdirectory(),
            ),
        ]
    }

    pub fn announcements(&self, interface: &Interface) -> (r: Vec<SsdpMessage>)
        ensures
            r.len() == 4,
            forall|i: int| 0 <= i < 4 ==> (#[trigger] r@[i])@ == self.announcements_spec(
                *interface,
            )[i],
    {
        let base = usn_base(self.uuid);
        let root_usn = service_usn_string(&base, "upnp:rootdevice");
        let media_usn = service_usn_string(&base, "urn:schemas-upnp-org:device:MediaServer:1");
        let cd_usn = service_usn_string(
            &base,
            "urn:schemas-upnp-org:service:ContentDirectory:1",
        );
        let mut messages = Vec::new();
        messages.push(self.notify_message(interface, base.as_str(), base.as_str()));
        messages.push(self.notify_message(interface, root_usn.as_str(), "upnp:rootdevice"));
        messages.push(
            self.notify_message(
                interface,
                media_usn.as_str(),
                "urn:schemas-upnp-org:device:MediaServer:1",
            ),
        );
        messages.push(
            self.notify_message(
                interface,
                cd_usn.as_str(),
                "urn:schemas-upnp-org:service:ContentDirectory:1",
            ),
        );
        messages
    }

    pub open spec fn response_spec(
        &self,
        interface: Interface,
        usn: Seq<char>,
        search_target: Seq<char>,
    ) -> MessageView {
        MessageView::SearchResponse {
            location: location_spec(interface.address_spec(), self.http_port),
            server: self.server@,
            search_target,
            unique_service_name: usn,
        }
    }

    /// The answer to a search, for one service.
    pub fn response_message(&self, local_interface: &Interface, usn: &str, search_target: &str) -> (r:
        SsdpMessage)
        ensures
            r@ == self.response_spec(*local_interface, usn@, search_target@),
    {
        SsdpMessage::SearchResponse {
            location: location(local_interface.address(), self.http_port),
            server: self.server.clone(),
            search_target: search_target.to_owned(),
            unique_service_name: usn.to_owned(),
        }
    }

    /// The answers to a search for `search_target`: every service for the root
    /// device, the one service searched for the media server or the content
    /// directory, and the device itself when its name is searched for in any case.
    pub open spec fn search_responses_spec(
        &self,
        interface: Interface,
        search_target: Seq<char>,
    ) -> Seq<MessageView> {
        let base = usn_base_spec(self.uuid);
        let by_type = if search_target == upnp_root() {
            seq![
                self.response_spec(interface, base, base),
                self.response_spec(interface, service_usn(self.uuid, upnp_root()), upnp_root()),
                self.response_spec(
                    interface,
                    service_usn(self.uuid, upnp_mediaserver()),
                    upnp_mediaserver(),
                ),
                self.response_spec(
                    interface,
                    service_usn(self.uuid, upnp_contentdirectory()),
                    upnp_contentdirectory(),
                ),
            ]
        } else if search_target == upnp_mediaserver() || search_target == upnp_contentdirectory() {
            seq![
                self.response_spec(
                    interface,
                    service_usn(self.uuid, search_target),
                    search_target,
                ),
            ]
        } else {
            Seq::empty()
        };
        if lowercase_spec(search_target) == base {
            by_type.push(self.response_spec(interface, base, base))
        } else {
            by_type
        }
    }

    pub fn search_responses(&self, local_interface: &Interface, search_target: &str) -> (r: Vec<
        SsdpMessage,
    >)
        ensures
            r.len() == self.search_responses_spec(*local_interface, search_target@).len(),
            forall|i: int|
                0 <= i < r.len() ==> (#[trigger] r@[i])@ == self.search_responses_spec(
                    *local_interface,
                    search_target@,
                )[i],
    {
        proof {
            reveal_strlit("upnp:rootdevice");
            reveal_strlit("urn:schemas-upnp-org:device:MediaServer:1");
            reveal_strlit("urn:schemas-upnp-org:service:ContentDirectory:1");
        }
        let ghost spec = self.search_responses_spec(*local_interface, search_target@);
        let base = usn_base(self.uuid);
        let target = to_chars(search_target);
        let root = to_chars("upnp:rootdevice");
        let media = to_chars("urn:schemas-upnp-org:device:MediaServer:1");
        let cd = to_chars("urn:schemas-upnp-org:service:ContentDirectory:1");
        let mut messages: Vec<SsdpMessage> = Vec::new();
        if chars_eq(target.as_slice(), root.as_slice()) {
            let root_usn = service_usn_string(&base, "upnp:rootdevice");
            let media_usn = service_usn_string(&base, "urn:schemas-upnp-org:device:MediaServer:1");
            let cd_usn = service_usn_string(
                &base,
                "urn:schemas-upnp-org:service:ContentDirectory:1",
            );
            messages.push(self.response_message(local_interface, base.as_str(), base.as_str()));
            messages.push(
                self.response_message(local_interface, root_usn.as_str(), "upnp:rootdevice"),
            );
            messages.push(
                self.response_message(
                    local_interface,
                    media_usn.as_str(),
                    "urn:schemas-upnp-org:device:MediaServer:1",
                ),
            );
            messages.push(
                self.response_message(
                    local_interface,
                    cd_usn.as_str(),
                    "urn:schemas-upnp-org:service:ContentDirectory:1",
                ),
            );
        } else if chars_eq(target.as_slice(), media.as_slice()) || chars_eq(
            target.as_slice(),
            cd.as_slice(),
        ) {
            let usn = service_usn_string(&base, search_target);
            messages.push(self.response_message(local_interface, usn.as_str(), search_target));
        }
        let lower = to_lowercase(search_target);
        let lower_chars = to_chars(lower.as_str());
        let base_chars = to_chars(base.as_str());
        if chars_eq(lower_chars.as_slice(), base_chars.as_slice()) {
            messages.push(self.response_message(local_interface, base.as_str(), base.as_str()));
        }
        proof {
            assert(messages.len() == spec.len());
        }
        messages
    }

    /// What the device does with a message it received: a search is answered for
    /// its search target; its own announcements and everything else are ignored.
    pub open spec fn handle_spec(&self, m: MessageView) -> Option<Seq<char>> {
        if SsdpMessage::is_uuid_spec(m, self.uuid) {
            None
        } else {
            match m {
                MessageView::MSearch { search_target, .. } => Some(search_target),
                _ => None,
            }
        }
    }

    /// The search target to answer for a received message, if it is to be answered.
    pub fn handle_message(&self, message: &SsdpMessage) -> (r: Option<String>)
        ensures
            match self.handle_spec(message@) {
                Some(t) => r matches Some(s) && s@ == t,
                None => r is None,
            },
    {
        if message.is_uuid(self.uuid) {
            return None;
        }
        match message {
            SsdpMessage::MSearch { search_target, .. } => Some(search_target.clone()),
            _ => None,
        }
    }
}

// ---------------------------------------------------------------------------
// Reading what a source sent
// ---------------------------------------------------------------------------

/// What reading the next packet of a source's buffer gives.
pub enum DecodeStep {
    /// Nothing is buffered.
    Empty,
    /// The next packet's request line cannot be read.
    Unreadable,
    /// Nothing to act on yet: the packet is incomplete, or it was read and holds no
    /// search or announcement.
    Wait,
    /// A message, taken from the buffer.
    Message(SsdpMessage),
    /// The packet is not valid text.
    Failed(SsdpError),
}

impl DecodeStep {
    /// Whether the buffer is read again: only after a message.
    pub fn keeps_reading(&self) -> (r: bool)
        ensures
            r == (self is Message),
    {
        match self {
            DecodeStep::Message(_) => true,
            _ => false,
        }
    }
}

/// Reads the next packet of a source's buffer. A packet that was read leaves the
/// buffer; an incomplete or unusable one stays.
pub fn decode_step(buffer: &mut bytes::BytesMut) -> (r: DecodeStep)
    ensures
        buffer_contents(*old(buffer)).len() == 0 ==> r is Empty && buffer_unchanged(*old(buffer), *final(buffer)),
        buffer_contents(*old(buffer)).len() > 0 && !decode_safe(buffer_contents(*old(buffer))) ==> r is Unreadable
            && buffer_unchanged(*old(buffer), *final(buffer)),
        buffer_contents(*old(buffer)).len() > 0 && decode_safe(buffer_contents(*old(buffer))) ==> match decode_spec(
            buffer_contents(*old(buffer)),
        ) {
            Decoded::Incomplete => r is Wait && buffer_unchanged(*old(buffer), *final(buffer)),
            Decoded::BadText => r matches DecodeStep::Failed(e) && e == SsdpError::InvalidText && buffer_unchanged(
                *old(buffer),
                *final(buffer),
            ),
            Decoded::Done { message, consumed } => buffer_contents(*final(buffer)) == buffer_contents(
                *old(buffer),
            ).skip(consumed) && match message {
                Some(mv) => r matches DecodeStep::Message(m) && m@ == mv,
                None => r is Wait,
            },
        },
{
    if buffer.is_empty() {
        return DecodeStep::Empty;
    }
    if SsdpMessage::decode_would_panic(buffer) {
        return DecodeStep::Unreadable;
    }
    match SsdpMessage::decode(buffer) {
        Ok(Some(m)) => DecodeStep::Message(m),
        Ok(None) => DecodeStep::Wait,
        Err(e) => DecodeStep::Failed(e),
    }
}

} // verus!
