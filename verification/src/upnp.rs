//! The UPnP control protocol: its errors, the SOAP actions the media server offers,
//! how a control request is routed to one of them and how a browse is paged.
use vstd::prelude::*;

use crate::text::{chars_eq, push_str, to_chars, trim_quotes, trim_quotes_spec};

verus! {

// ---------------------------------------------------------------------------
// Errors
// ---------------------------------------------------------------------------

/// The errors a UPnP action can answer with.
#[derive(Debug, Clone, Copy, PartialEq, Eq, Structural)]
pub enum UpnpError {
    InvalidAction,
    InvalidArgs,
    ActionFailed,
    ArgumentInvalid,
}

impl UpnpError {
    pub open spec fn status_spec(self) -> u16 {
        match self {
            UpnpError::InvalidAction => 401,
            UpnpError::InvalidArgs => 402,
            UpnpError::ActionFailed => 501,
            UpnpError::ArgumentInvalid => 600,
        }
    }

    /// The HTTP status of the response that carries the error.
    pub fn status_code(&self) -> (r: u16)
        ensures
            r == (if *self == UpnpError::ActionFailed {
                500u16
            } else {
                400u16
            }),
    {
        match self {
            UpnpError::ActionFailed => 500,
            _ => 400,
        }
    }

    /// The UPnP error code.
    pub fn status(&self) -> (r: u16)
        ensures
            r == self.status_spec(),
    {
        match self {
            UpnpError::InvalidAction => 401,
            UpnpError::InvalidArgs => 402,
            UpnpError::ActionFailed => 501,
            UpnpError::ArgumentInvalid => 600,
        }
    }

    /// The HTTP status a resource or icon request fails with: not found when the
    /// error's own status is a client error, bad request otherwise.
    pub fn resource_failure_status(&self) -> (r: u16)
        ensures
            r == (if *self == UpnpError::ActionFailed {
                400u16
            } else {
                404u16
            }),
    {
        let status = self.status_code();
        if 400 <= status && status < 500 {
            404
        } else {
            400
        }
    }

    /// The error for an object that does not exist.
    pub fn unknown_object() -> (r: UpnpError)
        ensures
            r == UpnpError::ArgumentInvalid,
    {
        UpnpError::ArgumentInvalid
    }

    /// Whose fault the error is in a SOAP fault: the client's for error codes from
    /// 400 to 499, the server's otherwise.
    pub fn fault_code(&self) -> (r: &'static str)
        ensures
            r@ == (if 400 <= self.status_spec() < 500 {
                "Client"@
            } else {
                "Server"@
            }),
    {
        let status = self.status();
        if 400 <= status && status < 500 {
            "Client"
        } else {
            "Server"
        }
    }
}

// ---------------------------------------------------------------------------
// SOAP actions
// ---------------------------------------------------------------------------

/// Whether an action argument is passed to or returned from the action.
#[derive(Debug, Clone, Copy, PartialEq, Eq, Structural)]
pub enum ArgDirection {
    In,
    Out,
}

impl ArgDirection {
    /// The direction as it is written in a service description.
    pub fn as_str(&self) -> (r: &'static str)
        ensures
            r@ == (match self {
                ArgDirection::In => "in"@,
                ArgDirection::Out => "out"@,
            }),
    {
        match self {
            ArgDirection::In => "in",
            ArgDirection::Out => "out",
        }
    }
}

pub open spec fn connection_manager() -> Seq<char> {
    "urn:schemas-upnp-org:service:ConnectionManager:1"@
}

pub open spec fn content_directory() -> Seq<char> {
    "urn:schemas-upnp-org:service:ContentDirectory:1"@
}

/// The actions of the connection manager and content directory services.
#[derive(Debug, Clone, Copy, PartialEq, Eq, Structural)]
pub enum SoapActionKind {
    GetProtocolInfo,
    GetCurrentConnectionIDs,
    GetCurrentConnectionInfo,
    Browse,
    GetSortCapabilities,
    GetSearchCapabilities,
    GetSystemUpdateID,
    Search,
}

/// The actions in the order requests are matched against them.
pub open spec fn all_actions() -> Seq<SoapActionKind> {
    seq![
        SoapActionKind::GetProtocolInfo,
        SoapActionKind::GetCurrentConnectionIDs,
        SoapActionKind::GetCurrentConnectionInfo,
        SoapActionKind::Browse,
        SoapActionKind::GetSortCapabilities,
        SoapActionKind::GetSearchCapabilities,
        SoapActionKind::GetSystemUpdateID,
        SoapActionKind::Search,
    ]
}

impl SoapActionKind {
    pub open spec fn schema_spec(self) -> Seq<char> {
        match self {
            SoapActionKind::GetProtocolInfo => connection_manager(),
            SoapActionKind::GetCurrentConnectionIDs => connection_manager(),
            SoapActionKind::GetCurrentConnectionInfo => connection_manager(),
            _ => content_directory(),
        }
    }

    pub open spec fn name_spec(self) -> Seq<char> {
        match self {
            SoapActionKind::GetProtocolInfo => "GetProtocolInfo"@,
            SoapActionKind::GetCurrentConnectionIDs => "GetCurrentConnectionIDs"@,
            SoapActionKind::GetCurrentConnectionInfo => "GetCurrentConnectionInfo"@,
            SoapActionKind::Browse => "Browse"@,
            SoapActionKind::GetSortCapabilities => "GetSortCapabilities"@,
            SoapActionKind::GetSearchCapabilities => "GetSearchCapabilities"@,
            SoapActionKind::GetSystemUpdateID => "GetSystemUpdateID"@,
            SoapActionKind::Search => "Search"@,
        }
    }

    /// The value of the `SOAPAction` header that calls the action: `<schema>#<name>`.
    pub open spec fn soap_action_spec(self) -> Seq<char> {
        self.schema_spec() + "#"@ + self.name_spec()
    }

    /// The service the action belongs to.
    pub fn schema(&self) -> (r: &'static str)
        ensures
            r@ == self.schema_spec(),
    {
        match self {
            SoapActionKind::GetProtocolInfo => "urn:schemas-upnp-org:service:ConnectionManager:1",
            SoapActionKind::GetCurrentConnectionIDs =>
                "urn:schemas-upnp-org:service:ConnectionManager:1",
            SoapActionKind::GetCurrentConnectionInfo =>
                "urn:schemas-upnp-org:service:ConnectionManager:1",
            _ => "urn:schemas-upnp-org:service:ContentDirectory:1",
        }
    }

    /// The action's name.
    pub fn name(&self) -> (r: &'static str)
        ensures
            r@ == self.name_spec(),
    {
        match self {
            SoapActionKind::GetProtocolInfo => "GetProtocolInfo",
            SoapActionKind::GetCurrentConnectionIDs => "GetCurrentConnectionIDs",
            SoapActionKind::GetCurrentConnectionInfo => "GetCurrentConnectionInfo",
            SoapActionKind::Browse => "Browse",
            SoapActionKind::GetSortCapabilities => "GetSortCapabilities",
            SoapActionKind::GetSearchCapabilities => "GetSearchCapabilities",
            SoapActionKind::GetSystemUpdateID => "GetSystemUpdateID",
            SoapActionKind::Search => "Search",
        }
    }

    pub fn soap_action(&self) -> (r: String)
        ensures
            r@ == self.soap_action_spec(),
    {
        let mut s = String::new();
        push_str(&mut s, self.schema());
        push_str(&mut s, "#");
        push_str(&mut s, self.name());
        proof {
            assert(s@ =~= self.soap_action_spec());
        }
        s
    }

    pub open spec fn arguments_spec(self) -> Seq<(Seq<char>, ArgDirection)> {
        match self {
            SoapActionKind::GetProtocolInfo => seq![
                ("Source"@, ArgDirection::Out),
                ("Sink"@, ArgDirection::Out),
            ],
            SoapActionKind::GetCurrentConnectionIDs => seq![("ConnectionIDs"@, ArgDirection::Out)],
            SoapActionKind::GetCurrentConnectionInfo => seq![
                ("ConnectionID"@, ArgDirection::In),
                ("RcsID"@, ArgDirection::Out),
                ("AVTransportID"@, ArgDirection::Out),
                ("ProtocolInfo"@, ArgDirection::Out),
                ("PeerConnectionManager"@, ArgDirection::Out),
                ("PeerConnectionID"@, ArgDirection::Out),
                ("Direction"@, ArgDirection::Out),
                ("Status"@, ArgDirection::Out),
            ],
            SoapActionKind::Browse => seq![
                ("ObjectID"@, ArgDirection::In),
                ("BrowseFlag"@, ArgDirection::In),
                ("Filter"@, ArgDirection::In),
                ("StartingIndex"@, ArgDirection::In),
                ("RequestedCount"@, ArgDirection::In),
                ("SortCriteria"@, ArgDirection::In),
                ("Result"@, ArgDirection::Out),
                ("NumberReturned"@, ArgDirection::Out),
                ("TotalMatches"@, ArgDirection::Out),
                ("UpdateID"@, ArgDirection::Out),
            ],
            SoapActionKind::GetSortCapabilities => seq![("SortCaps"@, ArgDirection::Out)],
            SoapActionKind::GetSearchCapabilities => seq![("SearchCaps"@, ArgDirection::Out)],
            SoapActionKind::GetSystemUpdateID => seq![("Id"@, ArgDirection::Out)],
            SoapActionKind::Search => seq![
                ("ContainerID"@, ArgDirection::In),
                ("SearchCriteria"@, ArgDirection::In),
                ("Filter"@, ArgDirection::In),
                ("StartingIndex"@, ArgDirection::In),
                ("RequestedCount"@, ArgDirection::In),
                ("SortCriteria"@, ArgDirection::In),
                ("Result"@, ArgDirection::Out),
                ("NumberReturned"@, ArgDirection::Out),
                ("TotalMatches"@, ArgDirection::Out),
                ("UpdateID"@, ArgDirection::Out),
            ],
        }
    }

    /// The arguments of the action as a service description lists them.
    pub fn arguments(&self) -> (r: Vec<(&'static str, ArgDirection)>)
        ensures
            r@.len() == self.arguments_spec().len(),
            forall|i: int|
                0 <= i < r@.len() ==> (#[trigger] r@[i]).0@ == self.arguments_spec()[i].0
                    && r@[i].1 == self.arguments_spec()[i].1,
    {
        match self {
            SoapActionKind::GetProtocolInfo => vec![
                ("Source", ArgDirection::Out),
                ("Sink", ArgDirection::Out),
            ],
            SoapActionKind::GetCurrentConnectionIDs => vec![("ConnectionIDs", ArgDirection::Out)],
            SoapActionKind::GetCurrentConnectionInfo => vec![
                ("ConnectionID", ArgDirection::In),
                ("RcsID", ArgDirection::Out),
                ("AVTransportID", ArgDirection::Out),
                ("ProtocolInfo", ArgDirection::Out),
                ("PeerConnectionManager", ArgDirection::Out),
                ("PeerConnectionID", ArgDirection::Out),
                ("Direction", ArgDirection::Out),
                ("Status", ArgDirection::Out),
            ],
            SoapActionKind::Browse => vec![
                ("ObjectID", ArgDirection::In),
                ("BrowseFlag", ArgDirection::In),
                ("Filter", ArgDirection::In),
                ("StartingIndex", ArgDirection::In),
                ("RequestedCount", ArgDirection::In),
                ("SortCriteria", ArgDirection::In),
                ("Result", ArgDirection::Out),
                ("NumberReturned", ArgDirection::Out),
                ("TotalMatches", ArgDirection::Out),
                ("UpdateID", ArgDirection::Out),
            ],
            SoapActionKind::GetSortCapabilities => vec![("SortCaps", ArgDirection::Out)],
            SoapActionKind::GetSearchCapabilities => vec![("SearchCaps", ArgDirection::Out)],
            SoapActionKind::GetSystemUpdateID => vec![("Id", ArgDirection::Out)],
            SoapActionKind::Search => vec![
                ("ContainerID", ArgDirection::In),
                ("SearchCriteria", ArgDirection::In),
                ("Filter", ArgDirection::In),
                ("StartingIndex", ArgDirection::In),
                ("RequestedCount", ArgDirection::In),
                ("SortCriteria", ArgDirection::In),
                ("Result", ArgDirection::Out),
                ("NumberReturned", ArgDirection::Out),
                ("TotalMatches", ArgDirection::Out),
                ("UpdateID", ArgDirection::Out),
            ],
        }
    }
}

/// The first action, in matching order, whose `SOAPAction` value is `value`.
pub open spec fn find_action(value: Seq<char>, i: nat) -> Option<SoapActionKind>
    decreases 8 - i,
{
    if i >= 8 {
        None
    } else if all_actions()[i as int].soap_action_spec() == value {
        Some(all_actions()[i as int])
    } else {
        find_action(value, i + 1)
    }
}

/// The action a `SOAPAction` header value names, surrounding double quotes
/// removed.
pub fn action_for(soap_action: &str) -> (r: Option<SoapActionKind>)
    ensures
        r == find_action(trim_quotes_spec(soap_action@), 0),
{
    let raw = to_chars(soap_action);
    let value = trim_quotes(raw.as_slice());
    let actions = [
        SoapActionKind::GetProtocolInfo,
        SoapActionKind::GetCurrentConnectionIDs,
        SoapActionKind::GetCurrentConnectionInfo,
        SoapActionKind::Browse,
        SoapActionKind::GetSortCapabilities,
        SoapActionKind::GetSearchCapabilities,
        SoapActionKind::GetSystemUpdateID,
        SoapActionKind::Search,
    ];
    let mut i: usize = 0;
    while i < 8
        invariant
            i <= 8,
            actions@ == all_actions(),
            value@ == trim_quotes_spec(soap_action@),
            find_action(value@, 0) == find_action(value@, i as nat),
        decreases 8 - i,
    {
        let candidate = actions[i].soap_action();
        let candidate_chars = to_chars(candidate.as_str());
        if chars_eq(value.as_slice(), candidate_chars.as_slice()) {
            return Some(actions[i]);
        }
        i = i + 1;
    }
    None
}

// ---------------------------------------------------------------------------
// Routing a control request
// ---------------------------------------------------------------------------

/// The type and subtype of a media type, as `mime::Mime`'s parser reads them.
pub uninterp spec fn mime_parts(s: Seq<char>) -> Option<(Seq<char>, Seq<char>)>;

/// Parses a media type with `mime::Mime::from_str` and hands back the text of its
/// type and subtype; `None` when the parser refuses the text. What the parser
/// accepts is left to the name `mime_parts`.
#[verifier::external_body]
fn parse_mime(s: &str) -> (r: Option<(String, String)>)
    ensures
        match r {
            Some((t, st)) => mime_parts(s@) == Some((t@, st@)),
            None => mime_parts(s@) is None,
        },
{
    match <mime::Mime as core::str::FromStr>::from_str(s) {
        Ok(m) => Some((m.type_().as_str().to_owned(), m.subtype().as_str().to_owned())),
        Err(_) => None,
    }
}

/// Where a control request goes.
#[derive(Debug, Clone, Copy, PartialEq, Eq, Structural)]
pub enum SoapRoute {
    /// The request is not an XML SOAP request: `400 Bad Request`.
    BadRequest,
    /// The request names no known action.
    InvalidAction,
    /// The request calls this action.
    Action(SoapActionKind),
}

/// Whether a parsed media type is XML: subtype `xml`, type `application` or `text`.
pub open spec fn is_xml_parts(parts: Option<(Seq<char>, Seq<char>)>) -> bool {
    match parts {
        Some((t, st)) => st == "xml"@ && (t == "application"@ || t == "text"@),
        None => false,
    }
}

pub open spec fn route_spec(
    content_type: Option<(Seq<char>, Seq<char>)>,
    soap_action: Option<Seq<char>>,
) -> SoapRoute {
    if !is_xml_parts(content_type) {
        SoapRoute::BadRequest
    } else {
        match soap_action {
            None => SoapRoute::BadRequest,
            Some(a) => match find_action(trim_quotes_spec(a), 0) {
                Some(k) => SoapRoute::Action(k),
                None => SoapRoute::InvalidAction,
            },
        }
    }
}

/// Routes a control request from the parsed `Content-Type` header and the text of
/// the `SOAPAction` header.
pub fn route_parsed(content_type: Option<(String, String)>, soap_action: Option<&str>) -> (r:
    SoapRoute)
    ensures
        r == route_spec(
            match content_type {
                Some((t, st)) => Some((t@, st@)),
                None => None,
            },
            match soap_action {
                Some(a) => Some(a@),
                None => None,
            },
        ),
{
    let xml = match &content_type {
        Some((t, st)) => {
            proof {
                reveal_strlit("xml");
                reveal_strlit("application");
                reveal_strlit("text");
            }
            let tc = to_chars(t.as_str());
            let sc = to_chars(st.as_str());
            let xml_chars = to_chars("xml");
            let app_chars = to_chars("application");
            let text_chars = to_chars("text");
            chars_eq(sc.as_slice(), xml_chars.as_slice()) && (chars_eq(
                tc.as_slice(),
                app_chars.as_slice(),
            ) || chars_eq(tc.as_slice(), text_chars.as_slice()))
        },
        None => false,
    };
    if !xml {
        return SoapRoute::BadRequest;
    }
    match soap_action {
        None => SoapRoute::BadRequest,
        Some(a) => match action_for(a) {
            Some(k) => SoapRoute::Action(k),
            None => SoapRoute::InvalidAction,
        },
    }
}

/// Routes a control request from the text of its `Content-Type` and `SOAPAction`
/// headers, `None` for a header that is missing or not text.
pub fn route_soap_request(content_type: Option<&str>, soap_action: Option<&str>) -> (r: SoapRoute)
    ensures
        r == route_spec(
            match content_type {
                Some(c) => mime_parts(c@),
                None => None,
            },
            match soap_action {
                Some(a) => Some(a@),
                None => None,
            },
        ),
{
    let parts = match content_type {
        Some(c) => parse_mime(c),
        None => None,
    };
    route_parsed(parts, soap_action)
}

// ---------------------------------------------------------------------------
// Browsing
// ---------------------------------------------------------------------------

/// A sort criterion of a browse or search request.
#[derive(Debug, Clone, PartialEq, Eq)]
pub enum Sort {
    Ascending(String),
    Descending(String),
}

impl Sort {
    /// `+property` sorts up, `-property` sorts down, a bare property sorts up.
    pub fn parse(s: &str) -> (r: Sort)
        ensures
            s@.len() > 0 && s@[0] == '+' ==> (r matches Sort::Ascending(p) && p@
                == s@.drop_first()),
            s@.len() > 0 && s@[0] == '-' ==> (r matches Sort::Descending(p) && p@
                == s@.drop_first()),
            !(s@.len() > 0 && (s@[0] == '+' || s@[0] == '-')) ==> (r matches Sort::Ascending(p)
                && p@ == s@),
    {
        let chars = to_chars(s);
        if chars.len() > 0 && chars[0] == '+' {
            let rest = crate::text::slice_chars(chars.as_slice(), 1, chars.len());
            Sort::Ascending(crate::text::from_chars(rest.as_slice()))
        } else if chars.len() > 0 && chars[0] == '-' {
            let rest = crate::text::slice_chars(chars.as_slice(), 1, chars.len());
            Sort::Descending(crate::text::from_chars(rest.as_slice()))
        } else {
            Sort::Ascending(s.to_owned())
        }
    }
}

/// The number of objects a browse returns: those from the starting index on, at
/// most as many as requested.
pub open spec fn page_len(total: nat, starting_index: nat, requested_count: nat) -> nat {
    let available = (total - starting_index) as nat;
    if requested_count < available {
        requested_count
    } else {
        available
    }
}

/// The page of a browse result: the objects from `starting_index` on, cut to
/// `requested_count`, with the number of objects there were in all.
pub fn browse_page<T>(objects: Vec<T>, starting_index: usize, requested_count: usize) -> (r: (
    Vec<T>,
    usize,
))
    requires
        starting_index <= objects.len(),
    ensures
        r.1 == objects.len(),
        r.0@ == objects@.subrange(
            starting_index as int,
            starting_index + page_len(
                objects.len() as nat,
                starting_index as nat,
                requested_count as nat,
            ),
        ),
{
    let mut objects = objects;
    let total_matches = objects.len();
    if starting_index > 0 {
        objects = objects.split_off(starting_index);
    }
    if requested_count < objects.len() {
        objects.truncate(requested_count);
    }
    (objects, total_matches)
}

/// The fields of a browse response other than its DIDL document.
pub struct BrowseCounts {
    pub number_returned: usize,
    pub total_matches: usize,
    pub update_id: u32,
}

/// A browse answers with the number of objects in the page, the number of objects
/// there were in all and update 1.
pub fn browse_counts(page_len: usize, total_matches: usize) -> (r: BrowseCounts)
    ensures
        r.number_returned == page_len,
        r.total_matches == total_matches,
        r.update_id == 1,
{
    BrowseCounts { number_returned: page_len, total_matches, update_id: 1 }
}

// ---------------------------------------------------------------------------
// Plain data
// ---------------------------------------------------------------------------

/// A container on the server. The value `"0"` of `id` is the root container and
/// `"-1"` its parent.
pub struct Container {
    pub id: String,
    pub parent_id: String,
    pub child_count: Option<usize>,
    pub title: String,
}

/// A way to fetch a media item: its resource identifier, its MIME type as text,
/// its size in bytes and its length in milliseconds when known, and whether it
/// can be read from any position.
pub struct Resource {
    pub id: String,
    pub mime_type: String,
    pub size: Option<u64>,
    pub seekable: bool,
    pub duration: Option<u64>,
}

/// A media item on the server, with the ways to fetch it.
pub struct Item {
    pub id: String,
    pub parent_id: String,
    pub title: String,
    pub resources: Vec<Resource>,
}

/// What a container lists.
pub enum Object {
    Item(Item),
    Container(Container),
}

/// The range included in a stream.
#[derive(Debug, Clone, Copy, PartialEq, Eq, Structural)]
pub struct Range {
    pub start: u64,
    pub length: u64,
}

/// A custom service to advertise.
pub struct CustomService {
    pub service_type: String,
    pub location: String,
}

} // verus!
