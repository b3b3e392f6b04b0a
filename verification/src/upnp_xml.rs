//! The XML documents of the media server: its device description, the
//! descriptions of its services and the DIDL-Lite listings of its content.
use vstd::prelude::*;

use crate::ssdp_task::{hyphenated, uuid_hyphenated};
use crate::text::{decimal, decimal_string, push_str};
use crate::upnp::{ArgDirection, Container, Item, Object, Resource, SoapActionKind, UpnpError};
use crate::xml::{default_of, name_order, has_default, is_default_in, lemma_default_unique, name_key, XmlName};
use crate::xml_read::SOAP_ENVELOPE;
use crate::xml_write::{
    document_bytes, document_events, open_default, open_plain, plain_attrs, plain_declared, ElementBuilder, NameV,
    Written, WriterError, XmlWriter,
};
use crate::profile::{text_order, Rank};

verus! {

/// The namespace of UPnP device descriptions.
pub const UPNP_DEVICE: &'static str = "urn:schemas-upnp-org:device-1-0";

/// The namespace of UPnP service descriptions.
pub const UPNP_SERVICE: &'static str = "urn:schemas-upnp-org:service-1-0";

/// An element of the default namespace `ns` with no attributes opens.
pub open spec fn open_in(ns: Seq<char>, local: Seq<char>) -> Written {
    open_default(ns, local)
}

/// An element of the default namespace `ns` holding only text.
pub open spec fn text_in(ns: Seq<char>, local: Seq<char>, text: Seq<char>) -> Seq<Written> {
    seq![open_in(ns, local), Written::Text(text), Written::Close]
}

/// An element of namespace `ns`, written with a prefix in scope, holding only
/// text.
pub open spec fn text_prefixed(prefix: Seq<char>, ns: Seq<char>, local: Seq<char>, text: Seq<char>) -> Seq<Written> {
    seq![
        Written::Open { name: (Some(prefix), Some(ns), local), attributes: Seq::empty(), declared: Map::empty() },
        Written::Text(text),
        Written::Close,
    ]
}

/// The prefixes in scope inside a document element of namespace `ns` that
/// declares nothing else.
pub open spec fn only_default(ns: Seq<char>) -> Map<Seq<char>, Seq<char>> {
    Map::empty().insert(ns, Seq::empty())
}

/// With only one namespace in scope, and that the default one, the default
/// namespace is that one.
proof fn lemma_only_default(ns: Seq<char>)
    ensures
        has_default(only_default(ns)),
        is_default_in(only_default(ns), ns),
        default_of(only_default(ns)) == ns,
        plain_declared(only_default(ns), Some(ns)) == Map::<Seq<char>, Seq<char>>::empty(),
        only_default(ns).union_prefer_right(Map::<Seq<char>, Seq<char>>::empty()) == only_default(ns),
{
    let m = only_default(ns);
    assert(m.contains_key(ns) && m[ns].len() == 0);
    crate::profile::lemma_text_order_reflexive(ns);
    assert(is_default_in(m, ns));
    let d = default_of(m);
    lemma_default_unique(m, d, ns);
    assert(plain_declared(m, Some(ns)) =~= Map::<Seq<char>, Seq<char>>::empty());
    assert(m.union_prefer_right(Map::<Seq<char>, Seq<char>>::empty()) =~= m);
}

/// `<specVersion><major>1</major><minor>1</minor></specVersion>`.
pub open spec fn spec_version_events(ns: Seq<char>) -> Seq<Written> {
    seq![open_in(ns, "specVersion"@)] + text_in(ns, "major"@, "1"@) + text_in(ns, "minor"@, "1"@) + seq![
        Written::Close,
    ]
}

/// Writes the version of the UPnP architecture a description follows.
fn write_spec_version(w: &mut XmlWriter, Ghost(ns): Ghost<Seq<char>>) -> (r: Result<(), WriterError>)
    requires
        old(w).wf(),
        old(w).known() == only_default(ns),
    ensures
        final(w).wf(),
        r is Ok,
        final(w).known() == old(w).known(),
        final(w).depth() == old(w).depth(),
        final(w).log() == old(w).log() + spec_version_events(ns),
{
    proof {
        lemma_only_default(ns);
    }
    let previous = w.open_child("specVersion")?;
    w.text_child("major", "1")?;
    w.text_child("minor", "1")?;
    let r = w.end(previous);
    proof {
        if r is Ok {
            assert(w.log() =~= old(w).log() + spec_version_events(ns));
        }
    }
    r
}


// ---------------------------------------------------------------------------
// The device description
// ---------------------------------------------------------------------------

/// A service of the device: its type, its identifier, where its description is
/// and where its actions are called.
pub open spec fn service_events(d: Seq<char>, kind: Seq<char>, id: Seq<char>, scpd: Seq<char>, events: bool) -> Seq<Written> {
    seq![open_in(d, "service"@)] + text_in(d, "serviceType"@, kind) + text_in(d, "serviceId"@, id)
        + text_in(d, "SCPDURL"@, scpd) + text_in(d, "controlURL"@, "/soap"@) + if events {
        seq![open_in(d, "eventSubURL"@), Written::Close]
    } else {
        Seq::empty()
    } + seq![Written::Close]
}

/// The connection manager and the content directory.
pub open spec fn service_list_events(d: Seq<char>) -> Seq<Written> {
    seq![open_in(d, "serviceList"@)] + service_events(
        d,
        "urn:schemas-upnp-org:service:ConnectionManager:1"@,
        "urn:upnp-org:serviceId:ConnectionManager"@,
        "/service/ConnectionManager.xml"@,
        false,
    ) + service_events(
        d,
        "urn:schemas-upnp-org:service:ContentDirectory:1"@,
        "urn:upnp-org:serviceId:ContentDirectory"@,
        "/service/ContentDirectory.xml"@,
        true,
    ) + seq![Written::Close]
}

/// The device: its unique name, how it presents itself, and its services.
pub open spec fn device_events(d: Seq<char>, uuid: u128) -> Seq<Written> {
    seq![open_in(d, "device"@)] + text_in(d, "UDN"@, "uuid:"@ + hyphenated(uuid)) + text_in(
        d,
        "friendlyName"@,
        "Synced Flicks"@,
    ) + text_in(d, "deviceType"@, "urn:schemas-upnp-org:device:MediaServer:1"@) + text_in(
        d,
        "manufacturer"@,
        "Dave Townsend"@,
    ) + text_in(d, "manufacturerURL"@, "https://github.com/Mossop/flick-sync"@) + text_in(
        d,
        "modelName"@,
        "Synced Flicks"@,
    ) + text_in(d, "modelDescription"@, "Synced Flicks Media Server"@) + service_list_events(d)
        + seq![Written::Close]
}

/// The device description of a media server with a UUID, as a document's root
/// element.
pub open spec fn root_events(uuid: u128) -> Seq<Written> {
    let d = "urn:schemas-upnp-org:device-1-0"@;
    seq![Written::Open { name: (None, Some(d), "root"@), attributes: Seq::empty(), declared: only_default(d) }]
        + spec_version_events(d) + device_events(d, uuid) + seq![Written::Close]
}

fn write_service(
    w: &mut XmlWriter,
    Ghost(d): Ghost<Seq<char>>,
    kind: &str,
    id: &str,
    scpd: &str,
    events: bool,
) -> (r: Result<(), WriterError>)
    requires
        old(w).wf(),
        old(w).known() == only_default(d),
    ensures
        final(w).wf(),
        r is Ok,
        final(w).known() == old(w).known(),
        final(w).depth() == old(w).depth(),
        final(w).log() == old(w).log() + service_events(d, kind@, id@, scpd@, events),
{
    proof {
        lemma_only_default(d);
    }
    let previous = w.open_child("service")?;
    w.text_child("serviceType", kind)?;
    w.text_child("serviceId", id)?;
    w.text_child("SCPDURL", scpd)?;
    w.text_child("controlURL", "/soap")?;
    if events {
        let b = w.element("eventSubURL");
        proof {
            crate::xml_write::lemma_open_plain(w.known(), b);
            assert(plain_attrs(b.attributes@) =~= Seq::empty());
        }
        w.empty_element(b)?;
    }
    let r = w.end(previous);
    proof {
        if r is Ok {
            assert(w.log() =~= old(w).log() + service_events(d, kind@, id@, scpd@, events));
        }
    }
    r
}

fn write_service_list(w: &mut XmlWriter, Ghost(d): Ghost<Seq<char>>) -> (r: Result<(), WriterError>)
    requires
        old(w).wf(),
        old(w).known() == only_default(d),
    ensures
        final(w).wf(),
        r is Ok,
        final(w).known() == old(w).known(),
        final(w).depth() == old(w).depth(),
        final(w).log() == old(w).log() + service_list_events(d),
{
    proof {
        lemma_only_default(d);
    }
    let previous = w.open_child("serviceList")?;
    write_service(
        w,
        Ghost(d),
        "urn:schemas-upnp-org:service:ConnectionManager:1",
        "urn:upnp-org:serviceId:ConnectionManager",
        "/service/ConnectionManager.xml",
        false,
    )?;
    write_service(
        w,
        Ghost(d),
        "urn:schemas-upnp-org:service:ContentDirectory:1",
        "urn:upnp-org:serviceId:ContentDirectory",
        "/service/ContentDirectory.xml",
        true,
    )?;
    let r = w.end(previous);
    proof {
        if r is Ok {
            assert(w.log() =~= old(w).log() + service_list_events(d));
        }
    }
    r
}

fn write_device(w: &mut XmlWriter, Ghost(d): Ghost<Seq<char>>, uuid: u128) -> (r: Result<(), WriterError>)
    requires
        old(w).wf(),
        old(w).known() == only_default(d),
    ensures
        final(w).wf(),
        r is Ok,
        final(w).known() == old(w).known(),
        final(w).depth() == old(w).depth(),
        final(w).log() == old(w).log() + device_events(d, uuid),
{
    proof {
        lemma_only_default(d);
        reveal_strlit("uuid:");
    }
    let previous = w.open_child("device")?;
    let mut udn = String::new();
    push_str(&mut udn, "uuid:");
    let h = uuid_hyphenated(uuid);
    push_str(&mut udn, h.as_str());
    w.text_child("UDN", udn.as_str())?;
    w.text_child("friendlyName", "Synced Flicks")?;
    w.text_child("deviceType", "urn:schemas-upnp-org:device:MediaServer:1")?;
    w.text_child("manufacturer", "Dave Townsend")?;
    w.text_child("manufacturerURL", "https://github.com/Mossop/flick-sync")?;
    w.text_child("modelName", "Synced Flicks")?;
    w.text_child("modelDescription", "Synced Flicks Media Server")?;
    write_service_list(w, Ghost(d))?;
    let r = w.end(previous);
    proof {
        if r is Ok {
            assert(w.log() =~= old(w).log() + device_events(d, uuid));
        }
    }
    r
}

/// Writes the device description of the media server with a UUID as the root
/// element of a document.
pub fn write_root(w: &mut XmlWriter, uuid: u128) -> (r: Result<(), WriterError>)
    requires
        old(w).wf(),
        old(w).known() == Map::<Seq<char>, Seq<char>>::empty(),
    ensures
        final(w).wf(),
        r is Ok,
        final(w).known() == old(w).known(),
        final(w).depth() == old(w).depth(),
        final(w).log() == old(w).log() + root_events(uuid),
{
    let ghost d = "urn:schemas-upnp-org:device-1-0"@;
    let b = w.element_ns(XmlName::qualified(UPNP_DEVICE, "root"));
    proof {
        crate::xml_write::lemma_open_plain(w.known(), b);
        assert(plain_attrs(b.attributes@) =~= Seq::empty());
        assert(plain_declared(w.known(), Some(d)) =~= only_default(d));
        assert(Map::<Seq<char>, Seq<char>>::empty().union_prefer_right(only_default(d)) =~= only_default(d));
    }
    let previous = w.start(b)?;
    write_spec_version(w, Ghost(d))?;
    write_device(w, Ghost(d), uuid)?;
    let r = w.end(previous);
    proof {
        if r is Ok {
            assert(w.log() =~= old(w).log() + root_events(uuid));
        }
    }
    r
}


// ---------------------------------------------------------------------------
// Service descriptions
// ---------------------------------------------------------------------------

pub open spec fn direction_text(d: ArgDirection) -> Seq<char> {
    match d {
        ArgDirection::In => "in"@,
        ArgDirection::Out => "out"@,
    }
}

/// An argument: its name and direction.
pub open spec fn argument_events(s: Seq<char>, arg: (Seq<char>, ArgDirection)) -> Seq<Written> {
    seq![open_in(s, "argument"@)] + text_in(s, "name"@, arg.0) + text_in(
        s,
        "direction"@,
        direction_text(arg.1),
    ) + seq![Written::Close]
}

/// The arguments, in order.
pub open spec fn arguments_events(s: Seq<char>, args: Seq<(Seq<char>, ArgDirection)>) -> Seq<Written>
    decreases args.len(),
{
    if args.len() == 0 {
        Seq::empty()
    } else {
        arguments_events(s, args.drop_last()) + argument_events(s, args.last())
    }
}

/// An action: its name and, when it has any, its arguments.
pub open spec fn action_events(s: Seq<char>, a: SoapActionKind) -> Seq<Written> {
    seq![open_in(s, "action"@)] + text_in(s, "name"@, a.name_spec()) + if a.arguments_spec().len() == 0 {
        Seq::empty()
    } else {
        seq![open_in(s, "argumentList"@)] + arguments_events(s, a.arguments_spec()) + seq![Written::Close]
    } + seq![Written::Close]
}

/// The actions, in order.
pub open spec fn actions_events(s: Seq<char>, actions: Seq<SoapActionKind>) -> Seq<Written>
    decreases actions.len(),
{
    if actions.len() == 0 {
        Seq::empty()
    } else {
        actions_events(s, actions.drop_last()) + action_events(s, actions.last())
    }
}

/// The description of a service offering some actions, as a document's root
/// element.
pub open spec fn scpd_events(actions: Seq<SoapActionKind>) -> Seq<Written> {
    let s = "urn:schemas-upnp-org:service-1-0"@;
    seq![Written::Open { name: (None, Some(s), "scpd"@), attributes: Seq::empty(), declared: only_default(s) }]
        + spec_version_events(s) + seq![open_in(s, "actionList"@)] + actions_events(s, actions) + seq![
        Written::Close,
        open_in(s, "serviceStateTable"@),
        Written::Close,
        Written::Close,
    ]
}

fn write_argument(w: &mut XmlWriter, Ghost(s): Ghost<Seq<char>>, name: &str, direction: ArgDirection) -> (r: Result<(), WriterError>)
    requires
        old(w).wf(),
        old(w).known() == only_default(s),
        s == UPNP_SERVICE@,
    ensures
        final(w).wf(),
        r is Ok,
        final(w).known() == old(w).known(),
        final(w).depth() == old(w).depth(),
        final(w).log() == old(w).log() + argument_events(s, (name@, direction)),
{
    proof {
        lemma_only_default(s);
    }
    let b = w.element_ns(XmlName::qualified(UPNP_SERVICE, "argument"));
    proof {
        crate::xml_write::lemma_open_plain(w.known(), b);
        assert(plain_attrs(b.attributes@) =~= Seq::empty());
    }
    let previous = w.start(b)?;
    w.text_child_ns(UPNP_SERVICE, "name", name)?;
    w.text_child_ns(UPNP_SERVICE, "direction", direction.as_str())?;
    let r = w.end(previous);
    proof {
        if r is Ok {
            assert(w.log() =~= old(w).log() + argument_events(s, (name@, direction)));
        }
    }
    r
}

fn write_action(w: &mut XmlWriter, Ghost(s): Ghost<Seq<char>>, a: SoapActionKind) -> (r: Result<(), WriterError>)
    requires
        old(w).wf(),
        old(w).known() == only_default(s),
        s == UPNP_SERVICE@,
    ensures
        final(w).wf(),
        r is Ok,
        final(w).known() == old(w).known(),
        final(w).depth() == old(w).depth(),
        final(w).log() == old(w).log() + action_events(s, a),
{
    proof {
        lemma_only_default(s);
    }
    let b = w.element_ns(XmlName::qualified(UPNP_SERVICE, "action"));
    proof {
        crate::xml_write::lemma_open_plain(w.known(), b);
        assert(plain_attrs(b.attributes@) =~= Seq::empty());
    }
    let previous = w.start(b)?;
    w.text_child_ns(UPNP_SERVICE, "name", a.name())?;
    let args = a.arguments();
    let ghost before_args = w.log();
    if args.len() > 0 {
        let lb = w.element_ns(XmlName::qualified(UPNP_SERVICE, "argumentList"));
        proof {
            crate::xml_write::lemma_open_plain(w.known(), lb);
            assert(plain_attrs(lb.attributes@) =~= Seq::empty());
        }
        let list_previous = w.start(lb)?;
        let ghost start_log = w.log();
        let ghost d0 = w.depth();
        let ghost spec_args = a.arguments_spec();
        let mut i: usize = 0;
        while i < args.len()
            invariant
                i <= args.len(),
                w.wf(),
                w.known() == only_default(s),
                s == UPNP_SERVICE@,
                args@.len() == spec_args.len(),
                spec_args == a.arguments_spec(),
                forall|k: int|
                    0 <= k < args@.len() ==> (#[trigger] args@[k]).0@ == spec_args[k].0 && args@[k].1
                        == spec_args[k].1,
                w.log() == start_log + arguments_events(s, spec_args.take(i as int)),
                w.depth() == d0,
            decreases args.len() - i,
        {
            let ghost l0 = w.log();
            write_argument(w, Ghost(s), args[i].0, args[i].1)?;
            proof {
                assert(spec_args.take(i + 1).drop_last() =~= spec_args.take(i as int));
                assert(spec_args.take(i + 1).last() == (args@[i as int].0@, args@[i as int].1));
                assert(w.log() =~= start_log + arguments_events(s, spec_args.take(i + 1)));
            }
            i = i + 1;
        }
        proof {
            assert(spec_args.take(i as int) =~= spec_args);
        }
        w.end(list_previous)?;
    }
    let r = w.end(previous);
    proof {
        if r is Ok {
            assert(w.log() =~= old(w).log() + action_events(s, a));
        }
    }
    r
}

/// Writes the description of a service offering some actions as the root
/// element of a document.
pub fn write_service_description(w: &mut XmlWriter, actions: &Vec<SoapActionKind>) -> (r: Result<(), WriterError>)
    requires
        old(w).wf(),
        old(w).known() == Map::<Seq<char>, Seq<char>>::empty(),
    ensures
        final(w).wf(),
        r is Ok,
        final(w).known() == old(w).known(),
        final(w).depth() == old(w).depth(),
        final(w).log() == old(w).log() + scpd_events(actions@),
{
    let ghost s = "urn:schemas-upnp-org:service-1-0"@;
    let b = w.element_ns(XmlName::qualified(UPNP_SERVICE, "scpd"));
    proof {
        crate::xml_write::lemma_open_plain(w.known(), b);
        assert(plain_attrs(b.attributes@) =~= Seq::empty());
        assert(plain_declared(w.known(), Some(s)) =~= only_default(s));
        assert(Map::<Seq<char>, Seq<char>>::empty().union_prefer_right(only_default(s)) =~= only_default(s));
        lemma_only_default(s);
    }
    let previous = w.start(b)?;
    write_spec_version(w, Ghost(s))?;
    let list_previous = w.open_child("actionList")?;
    let ghost start_log = w.log();
    let ghost d0 = w.depth();
    let mut i: usize = 0;
    while i < actions.len()
        invariant
            i <= actions.len(),
            w.wf(),
            w.known() == only_default(s),
            s == UPNP_SERVICE@,
            w.log() == start_log + actions_events(s, actions@.take(i as int)),
            w.depth() == d0,
        decreases actions.len() - i,
    {
        write_action(w, Ghost(s), actions[i])?;
        proof {
            assert(actions@.take(i + 1).drop_last() =~= actions@.take(i as int));
            assert(w.log() =~= start_log + actions_events(s, actions@.take(i + 1)));
        }
        i = i + 1;
    }
    proof {
        assert(actions@.take(i as int) =~= actions@);
    }
    w.end(list_previous)?;
    let sb = w.element("serviceStateTable");
    proof {
        crate::xml_write::lemma_open_plain(w.known(), sb);
        assert(plain_attrs(sb.attributes@) =~= Seq::empty());
    }
    w.empty_element(sb)?;
    let r = w.end(previous);
    proof {
        if r is Ok {
            assert(w.log() =~= old(w).log() + scpd_events(actions@));
        }
    }
    r
}


// ---------------------------------------------------------------------------
// DIDL-Lite listings
// ---------------------------------------------------------------------------

/// The namespace of DIDL-Lite listings.
pub const DIDL: &'static str = "urn:schemas-upnp-org:metadata-1-0/DIDL-Lite/";

/// The Dublin Core namespace.
pub const DC: &'static str = "http://purl.org/dc/elements/1.1/";

/// The namespace of UPnP metadata.
pub const UPNP: &'static str = "urn:schemas-upnp-org:metadata-1-0/upnp/";

/// The namespace of DLNA metadata.
pub const DLNA: &'static str = "urn:schemas-dlna-org:metadata-1-0/";

/// The address a URL reference resolves to against a base URL, as the `url`
/// crate serialises it: `None` when the base does not parse or the reference
/// cannot be resolved against it.
pub uninterp spec fn url_join(base: Seq<char>, reference: Seq<char>) -> Option<Seq<char>>;

/// Parses the base with `url::Url::parse`, resolves the reference with
/// `Url::join` and serialises the result (`to_string`). Which results these give
/// is left to the name `url_join`.
#[verifier::external_body]
fn join_url(base: &str, reference: &str) -> (r: Option<String>)
    ensures
        match r {
            Some(u) => url_join(base@, reference@) == Some(u@),
            None => url_join(base@, reference@) is None,
        },
{
    url::Url::parse(base).and_then(|b| b.join(reference)).ok().map(|u| u.to_string())
}

/// Where a resource is fetched from, relative to the server.
pub open spec fn resource_path(id: Seq<char>) -> Seq<char> {
    "/resource/"@ + id
}

/// Where a resource is fetched from, resolved against the address of the
/// request; `None` when that cannot be done.
pub fn resource_url(base: &str, id: &str) -> (r: Option<String>)
    ensures
        match r {
            Some(u) => url_join(base@, resource_path(id@)) == Some(u@),
            None => url_join(base@, resource_path(id@)) is None,
        },
{
    proof {
        reveal_strlit("/resource/");
    }
    let mut path = String::new();
    push_str(&mut path, "/resource/");
    push_str(&mut path, id);
    proof {
        assert(path@ =~= resource_path(id@));
    }
    join_url(base, path.as_str())
}

/// A name without a namespace, as written.
pub open spec fn local(n: Seq<char>) -> NameV {
    (None, None, n)
}

/// The attributes of a resource, in name order: how it is fetched and, when
/// known, its size.
pub open spec fn resource_attrs(r: Resource) -> Seq<(NameV, Seq<char>)> {
    let size = match r.size {
        Some(n) => seq![(local("size"@), decimal(n as nat))],
        None => Seq::empty(),
    };
    seq![(local("protocolInfo"@), "http-get:*:"@ + r.mime_type@ + ":*"@)] + size
}

/// A resource, within a listing: its address is the text.
pub open spec fn resource_events(r: Resource, uri: Seq<char>) -> Seq<Written> {
    let d = "urn:schemas-upnp-org:metadata-1-0/DIDL-Lite/"@;
    seq![
        Written::Open { name: (None, Some(d), "res"@), attributes: resource_attrs(r), declared: Map::empty() },
        Written::Text(uri),
        Written::Close,
    ]
}

/// The attributes of a container, in name order.
pub open spec fn container_attrs(c: Container) -> Seq<(NameV, Seq<char>)> {
    let count = match c.child_count {
        Some(n) => seq![(local("childCount"@), decimal(n as nat))],
        None => Seq::empty(),
    };
    count + seq![
        (local("id"@), c.id@),
        (local("parentID"@), c.parent_id@),
        (local("restricted"@), "1"@),
        (local("searchable"@), "0"@),
    ]
}

/// A container, within a listing: its title and class.
pub open spec fn container_events(c: Container) -> Seq<Written> {
    let d = "urn:schemas-upnp-org:metadata-1-0/DIDL-Lite/"@;
    seq![Written::Open { name: (None, Some(d), "container"@), attributes: container_attrs(c), declared: Map::empty() }]
        + text_prefixed("dc"@, "http://purl.org/dc/elements/1.1/"@, "title"@, c.title@) + text_prefixed(
        "upnp"@,
        "urn:schemas-upnp-org:metadata-1-0/upnp/"@,
        "class"@,
        "object.container"@,
    ) + seq![Written::Close]
}

/// The prefixes in scope within a listing.
pub open spec fn didl_known() -> Map<Seq<char>, Seq<char>> {
    Map::empty().insert("http://purl.org/dc/elements/1.1/"@, "dc"@).insert(
        "urn:schemas-dlna-org:metadata-1-0/"@,
        "dlna"@,
    ).insert("urn:schemas-upnp-org:metadata-1-0/upnp/"@, "upnp"@).insert(
        "urn:schemas-upnp-org:metadata-1-0/DIDL-Lite/"@,
        Seq::empty(),
    )
}

/// The attribute names of a listing in name order.
proof fn lemma_names_ordered()
    ensures
        text_order("childCount"@, "id"@) == Rank::Less,
        text_order("childCount"@, "parentID"@) == Rank::Less,
        text_order("childCount"@, "restricted"@) == Rank::Less,
        text_order("childCount"@, "searchable"@) == Rank::Less,
        text_order("id"@, "parentID"@) == Rank::Less,
        text_order("id"@, "restricted"@) == Rank::Less,
        text_order("id"@, "searchable"@) == Rank::Less,
        text_order("parentID"@, "restricted"@) == Rank::Less,
        text_order("parentID"@, "searchable"@) == Rank::Less,
        text_order("restricted"@, "searchable"@) == Rank::Less,
        text_order("protocolInfo"@, "size"@) == Rank::Less,
{
    reveal_strlit("childCount");
    reveal_strlit("id");
    reveal_strlit("parentID");
    reveal_strlit("restricted");
    reveal_strlit("searchable");
    reveal_strlit("protocolInfo");
    reveal_strlit("size");
}

/// Within a listing the metadata namespaces have their prefixes and the
/// listing's namespace is the default one.
proof fn lemma_didl_known()
    ensures
        didl_known().contains_key(DC@) && didl_known()[DC@] == "dc"@,
        didl_known().contains_key(UPNP@) && didl_known()[UPNP@] == "upnp"@,
        didl_known().contains_key(DIDL@) && didl_known()[DIDL@].len() == 0,
        "dc"@.len() != 0,
        "upnp"@.len() != 0,
        plain_declared(didl_known(), Some(DC@)) == Map::<Seq<char>, Seq<char>>::empty(),
        plain_declared(didl_known(), Some(UPNP@)) == Map::<Seq<char>, Seq<char>>::empty(),
        plain_declared(didl_known(), Some(DIDL@)) == Map::<Seq<char>, Seq<char>>::empty(),
        didl_known().union_prefer_right(Map::<Seq<char>, Seq<char>>::empty()) == didl_known(),
{
    reveal_strlit("dc");
    reveal_strlit("upnp");
    reveal_strlit("dlna");
    reveal_strlit("urn:schemas-upnp-org:metadata-1-0/DIDL-Lite/");
    reveal_strlit("http://purl.org/dc/elements/1.1/");
    reveal_strlit("urn:schemas-upnp-org:metadata-1-0/upnp/");
    reveal_strlit("urn:schemas-dlna-org:metadata-1-0/");
    assert(DC@.len() != DIDL@.len() && DC@.len() != UPNP@.len() && DC@.len() != DLNA@.len());
    assert(UPNP@.len() != DIDL@.len() && UPNP@.len() != DLNA@.len());
    assert(plain_declared(didl_known(), Some(DC@)) =~= Map::<Seq<char>, Seq<char>>::empty());
    assert(plain_declared(didl_known(), Some(UPNP@)) =~= Map::<Seq<char>, Seq<char>>::empty());
    assert(plain_declared(didl_known(), Some(DIDL@)) =~= Map::<Seq<char>, Seq<char>>::empty());
    assert(didl_known().union_prefer_right(Map::<Seq<char>, Seq<char>>::empty()) =~= didl_known());
}

/// Writes a container within a listing.
pub fn write_container(w: &mut XmlWriter, c: &Container) -> (r: Result<(), WriterError>)
    requires
        old(w).wf(),
        old(w).known() == didl_known(),
    ensures
        final(w).wf(),
        r is Ok,
        final(w).known() == old(w).known(),
        final(w).depth() == old(w).depth(),
        final(w).log() == old(w).log() + container_events(*c),
{
    proof {
        reveal_strlit("childCount");
        reveal_strlit("id");
        reveal_strlit("parentID");
        reveal_strlit("restricted");
        reveal_strlit("searchable");
        reveal_strlit("1");
        reveal_strlit("0");
    }
    let mut b = w.element_ns(XmlName::qualified(DIDL, "container"));
    match c.child_count {
        Some(n) => {
            b = b.attr(XmlName::local("childCount"), decimal_string(n as u64));
        },
        None => {},
    }
    let ghost a1 = b.attributes@;
    proof {
        lemma_names_ordered();
    }
    let n = XmlName::local("id");
    proof {
        assert forall|j: int| 0 <= j < a1.len() implies name_order(name_key(#[trigger] a1[j].0), name_key(n))
            == Rank::Less by {
            assert(name_key(a1[j].0) == (None::<Seq<char>>, "childCount"@));
        }
    }
    b = b.attr(n, c.id.clone());
    let ghost a2 = b.attributes@;
    let n = XmlName::local("parentID");
    proof {
        assert forall|j: int| 0 <= j < a2.len() implies name_order(name_key(#[trigger] a2[j].0), name_key(n))
            == Rank::Less by {
            if j < a1.len() {
                assert(name_key(a2[j].0) == (None::<Seq<char>>, "childCount"@));
            } else {
                assert(name_key(a2[j].0) == (None::<Seq<char>>, "id"@));
            }
        }
    }
    b = b.attr(n, c.parent_id.clone());
    let ghost a3 = b.attributes@;
    let n = XmlName::local("restricted");
    proof {
        assert forall|j: int| 0 <= j < a3.len() implies name_order(name_key(#[trigger] a3[j].0), name_key(n))
            == Rank::Less by {
            if j < a1.len() {
                assert(name_key(a3[j].0) == (None::<Seq<char>>, "childCount"@));
            } else if j < a2.len() {
                assert(name_key(a3[j].0) == (None::<Seq<char>>, "id"@));
            } else {
                assert(name_key(a3[j].0) == (None::<Seq<char>>, "parentID"@));
            }
        }
    }
    b = b.attr(n, "1".to_owned());
    let ghost a4 = b.attributes@;
    let n = XmlName::local("searchable");
    proof {
        assert forall|j: int| 0 <= j < a4.len() implies name_order(name_key(#[trigger] a4[j].0), name_key(n))
            == Rank::Less by {
            if j < a1.len() {
                assert(name_key(a4[j].0) == (None::<Seq<char>>, "childCount"@));
            } else if j < a2.len() {
                assert(name_key(a4[j].0) == (None::<Seq<char>>, "id"@));
            } else if j < a3.len() {
                assert(name_key(a4[j].0) == (None::<Seq<char>>, "parentID"@));
            } else {
                assert(name_key(a4[j].0) == (None::<Seq<char>>, "restricted"@));
            }
        }
    }
    b = b.attr(n, "0".to_owned());
    proof {
        assert(plain_attrs(b.attributes@) =~= container_attrs(*c));
        assert(crate::xml_write::attrs_plain(b.attributes@));
        crate::xml_write::lemma_open_plain(w.known(), b);
        lemma_didl_known();
    }
    let previous = w.start(b)?;
    w.text_child_ns(DC, "title", c.title.as_str())?;
    w.text_child_ns(UPNP, "class", "object.container")?;
    let r = w.end(previous);
    proof {
        if r is Ok {
            assert(w.log() =~= old(w).log() + container_events(*c));
        }
    }
    r
}


/// Each resource can be given an address against the base.
pub open spec fn resources_joinable(base: Seq<char>, rs: Seq<Resource>) -> bool {
    forall|i: int| 0 <= i < rs.len() ==> (#[trigger] url_join(base, resource_path(rs[i].id@))) is Some
}

/// The resources of an item, in order.
pub open spec fn resources_events(base: Seq<char>, rs: Seq<Resource>) -> Seq<Written>
    decreases rs.len(),
{
    if rs.len() == 0 {
        Seq::empty()
    } else {
        resources_events(base, rs.drop_last()) + resource_events(
            rs.last(),
            url_join(base, resource_path(rs.last().id@))->Some_0,
        )
    }
}

/// The attributes of an item, in name order.
pub open spec fn item_attrs(it: Item) -> Seq<(NameV, Seq<char>)> {
    seq![(local("id"@), it.id@), (local("parentID"@), it.parent_id@), (local("restricted"@), "1"@)]
}

/// An item, within a listing: its title, class and resources.
pub open spec fn item_events(base: Seq<char>, it: Item) -> Seq<Written> {
    let d = "urn:schemas-upnp-org:metadata-1-0/DIDL-Lite/"@;
    seq![Written::Open { name: (None, Some(d), "item"@), attributes: item_attrs(it), declared: Map::empty() }]
        + text_prefixed("dc"@, "http://purl.org/dc/elements/1.1/"@, "title"@, it.title@) + text_prefixed(
        "upnp"@,
        "urn:schemas-upnp-org:metadata-1-0/upnp/"@,
        "class"@,
        "object.item.videoItem"@,
    ) + resources_events(base, it.resources@) + seq![Written::Close]
}

/// Writes a resource within a listing; its address must resolve.
pub fn write_resource(w: &mut XmlWriter, base: &str, res: &Resource) -> (r: Result<(), WriterError>)
    requires
        old(w).wf(),
        old(w).known() == didl_known(),
        url_join(base@, resource_path(res.id@)) is Some,
    ensures
        final(w).wf(),
        r is Ok,
        final(w).known() == old(w).known(),
        final(w).depth() == old(w).depth(),
        final(w).log() == old(w).log() + resource_events(
            *res,
            url_join(base@, resource_path(res.id@))->Some_0,
        ),
{
    proof {
        reveal_strlit("protocolInfo");
        reveal_strlit("size");
        reveal_strlit("http-get:*:");
        reveal_strlit(":*");
    }
    let uri = match resource_url(base, res.id.as_str()) {
        Some(u) => u,
        None => String::new(),
    };
    let mut info = String::new();
    push_str(&mut info, "http-get:*:");
    push_str(&mut info, res.mime_type.as_str());
    push_str(&mut info, ":*");
    let mut b = w.element_ns(XmlName::qualified(DIDL, "res"));
    b = b.attr(XmlName::local("protocolInfo"), info);
    let ghost a1 = b.attributes@;
    proof {
        lemma_names_ordered();
    }
    match res.size {
        Some(n) => {
            let name = XmlName::local("size");
            proof {
                assert forall|j: int| 0 <= j < a1.len() implies name_order(
                    name_key(#[trigger] a1[j].0),
                    name_key(name),
                ) == Rank::Less by {
                    assert(name_key(a1[j].0) == (None::<Seq<char>>, "protocolInfo"@));
                }
            }
            b = b.attr(name, decimal_string(n));
        },
        None => {},
    }
    proof {
        assert(plain_attrs(b.attributes@) =~= resource_attrs(*res));
        assert(crate::xml_write::attrs_plain(b.attributes@));
        crate::xml_write::lemma_open_plain(w.known(), b);
        lemma_didl_known();
        assert(crate::xml_write::plain_declared(w.known(), Some(DIDL@)) =~= Map::empty());
    }
    let r = w.text_element(b, uri.as_str());
    proof {
        if r is Ok {
            assert(w.log() =~= old(w).log() + resource_events(
                *res,
                url_join(base@, resource_path(res.id@))->Some_0,
            ));
        }
    }
    r
}

/// Writes an item within a listing; the addresses of its resources must
/// resolve.
pub fn write_item(w: &mut XmlWriter, base: &str, it: &Item) -> (r: Result<(), WriterError>)
    requires
        old(w).wf(),
        old(w).known() == didl_known(),
        resources_joinable(base@, it.resources@),
    ensures
        final(w).wf(),
        r is Ok,
        final(w).known() == old(w).known(),
        final(w).depth() == old(w).depth(),
        final(w).log() == old(w).log() + item_events(base@, *it),
{
    proof {
        reveal_strlit("id");
        reveal_strlit("parentID");
        reveal_strlit("restricted");
        reveal_strlit("1");
    }
    let mut b = w.element_ns(XmlName::qualified(DIDL, "item"));
    proof {
        lemma_names_ordered();
    }
    b = b.attr(XmlName::local("id"), it.id.clone());
    let ghost a1 = b.attributes@;
    let n = XmlName::local("parentID");
    proof {
        assert forall|j: int| 0 <= j < a1.len() implies name_order(name_key(#[trigger] a1[j].0), name_key(n))
            == Rank::Less by {
            assert(name_key(a1[j].0) == (None::<Seq<char>>, "id"@));
        }
    }
    b = b.attr(n, it.parent_id.clone());
    let ghost a2 = b.attributes@;
    let n = XmlName::local("restricted");
    proof {
        assert forall|j: int| 0 <= j < a2.len() implies name_order(name_key(#[trigger] a2[j].0), name_key(n))
            == Rank::Less by {
            if j < a1.len() {
                assert(name_key(a2[j].0) == (None::<Seq<char>>, "id"@));
            } else {
                assert(name_key(a2[j].0) == (None::<Seq<char>>, "parentID"@));
            }
        }
    }
    b = b.attr(n, "1".to_owned());
    proof {
        assert(plain_attrs(b.attributes@) =~= item_attrs(*it));
        assert(crate::xml_write::attrs_plain(b.attributes@));
        crate::xml_write::lemma_open_plain(w.known(), b);
        lemma_didl_known();
        assert(crate::xml_write::plain_declared(w.known(), Some(DIDL@)) =~= Map::empty());
        assert(w.known().union_prefer_right(Map::<Seq<char>, Seq<char>>::empty()) =~= w.known());
    }
    let previous = w.start(b)?;
    w.text_child_ns(DC, "title", it.title.as_str())?;
    w.text_child_ns(UPNP, "class", "object.item.videoItem")?;
    let ghost start_log = w.log();
    let ghost d0 = w.depth();
    let mut i: usize = 0;
    while i < it.resources.len()
        invariant
            i <= it.resources.len(),
            w.wf(),
            w.known() == didl_known(),
            resources_joinable(base@, it.resources@),
            w.log() == start_log + resources_events(base@, it.resources@.take(i as int)),
            w.depth() == d0,
        decreases it.resources.len() - i,
    {
        write_resource(w, base, &it.resources[i])?;
        proof {
            assert(it.resources@.take(i + 1).drop_last() =~= it.resources@.take(i as int));
            assert(w.log() =~= start_log + resources_events(base@, it.resources@.take(i + 1)));
        }
        i = i + 1;
    }
    proof {
        assert(it.resources@.take(i as int) =~= it.resources@);
    }
    let r = w.end(previous);
    proof {
        if r is Ok {
            assert(w.log() =~= old(w).log() + item_events(base@, *it));
        }
    }
    r
}

/// What an object of a listing needs: the addresses of an item's resources
/// resolve.
pub open spec fn object_joinable(base: Seq<char>, o: Object) -> bool {
    match o {
        Object::Item(it) => resources_joinable(base, it.resources@),
        Object::Container(_) => true,
    }
}

pub open spec fn object_events(base: Seq<char>, o: Object) -> Seq<Written> {
    match o {
        Object::Item(it) => item_events(base, it),
        Object::Container(c) => container_events(c),
    }
}

/// The objects of a listing, in order.
pub open spec fn objects_events(base: Seq<char>, os: Seq<Object>) -> Seq<Written>
    decreases os.len(),
{
    if os.len() == 0 {
        Seq::empty()
    } else {
        objects_events(base, os.drop_last()) + object_events(base, os.last())
    }
}

/// A listing as a document's root element: the prefixes of the metadata
/// namespaces are declared, the listing's namespace is the default one.
pub open spec fn didl_events(base: Seq<char>, os: Seq<Object>) -> Seq<Written> {
    let d = "urn:schemas-upnp-org:metadata-1-0/DIDL-Lite/"@;
    seq![Written::Open { name: (None, Some(d), "DIDL-Lite"@), attributes: Seq::empty(), declared: didl_known() }]
        + objects_events(base, os) + seq![Written::Close]
}

/// Writes an object within a listing.
pub fn write_object(w: &mut XmlWriter, base: &str, o: &Object) -> (r: Result<(), WriterError>)
    requires
        old(w).wf(),
        old(w).known() == didl_known(),
        object_joinable(base@, *o),
    ensures
        final(w).wf(),
        r is Ok,
        final(w).known() == old(w).known(),
        final(w).depth() == old(w).depth(),
        final(w).log() == old(w).log() + object_events(base@, *o),
{
    match o {
        Object::Item(it) => write_item(w, base, it),
        Object::Container(c) => write_container(w, c),
    }
}

/// Writes a listing of objects as the root element of a document; the
/// addresses of the items' resources must resolve.
pub fn write_didl(w: &mut XmlWriter, base: &str, objects: &Vec<Object>) -> (r: Result<(), WriterError>)
    requires
        old(w).wf(),
        old(w).known() == Map::<Seq<char>, Seq<char>>::empty(),
        forall|i: int| 0 <= i < objects@.len() ==> object_joinable(base@, #[trigger] objects@[i]),
    ensures
        final(w).wf(),
        r is Ok,
        final(w).known() == old(w).known(),
        final(w).depth() == old(w).depth(),
        final(w).log() == old(w).log() + didl_events(base@, objects@),
{
    proof {
        reveal_strlit("dc");
        reveal_strlit("dlna");
        reveal_strlit("upnp");
        reveal_strlit("urn:schemas-upnp-org:metadata-1-0/DIDL-Lite/");
        reveal_strlit("http://purl.org/dc/elements/1.1/");
        reveal_strlit("urn:schemas-upnp-org:metadata-1-0/upnp/");
        reveal_strlit("urn:schemas-dlna-org:metadata-1-0/");
    }
    let b = w.element_ns(XmlName::qualified(DIDL, "DIDL-Lite"));
    let b = b.prefix("dc", DC);
    let b = b.prefix("dlna", DLNA);
    let b = b.prefix("upnp", UPNP);
    proof {
        let nm = b.new_prefixes.map();
        assert(crate::xml_write::attrs_plain(b.attributes@));
        crate::xml_write::lemma_attrs_plain_declared(w.known(), b);
        assert(!nm.contains_key(DIDL@)) by {
            assert(DIDL@.len() != DC@.len());
            assert(DIDL@.len() != DLNA@.len());
            assert(DIDL@.len() != UPNP@.len());
        }
        assert(nm.insert(DIDL@, Seq::empty()) =~= didl_known());
        assert(crate::xml_write::declared_spec(w.known(), b) == Some(didl_known()));
        assert(plain_attrs(b.attributes@) =~= Seq::empty());
        assert(Map::<Seq<char>, Seq<char>>::empty().union_prefer_right(didl_known()) =~= didl_known());
        lemma_didl_known();
        let o = crate::xml_write::opened(w.known(), b);
        assert(o->Open_attributes =~= Seq::empty());
        assert(o == Written::Open {
            name: (None, Some(DIDL@), "DIDL-Lite"@),
            attributes: Seq::empty(),
            declared: didl_known(),
        });
    }
    let previous = w.start(b)?;
    let ghost start_log = w.log();
    let ghost d0 = w.depth();
    let mut i: usize = 0;
    while i < objects.len()
        invariant
            i <= objects.len(),
            w.wf(),
            w.known() == didl_known(),
            forall|k: int| 0 <= k < objects@.len() ==> object_joinable(base@, #[trigger] objects@[k]),
            w.log() == start_log + objects_events(base@, objects@.take(i as int)),
            w.depth() == d0,
        decreases objects.len() - i,
    {
        write_object(w, base, &objects[i])?;
        proof {
            assert(objects@.take(i + 1).drop_last() =~= objects@.take(i as int));
            assert(w.log() =~= start_log + objects_events(base@, objects@.take(i + 1)));
        }
        i = i + 1;
    }
    proof {
        assert(objects@.take(i as int) =~= objects@);
    }
    let r = w.end(previous);
    proof {
        if r is Ok {
            assert(w.log() =~= old(w).log() + didl_events(base@, objects@));
        }
    }
    r
}

/// Whether every resource has an address against the base.
fn resources_all_joinable(base: &str, rs: &Vec<Resource>) -> (r: bool)
    ensures
        r == resources_joinable(base@, rs@),
{
    let mut j: usize = 0;
    while j < rs.len()
        invariant
            j <= rs.len(),
            forall|k: int| 0 <= k < j ==> (#[trigger] url_join(base@, resource_path(rs@[k].id@))) is Some,
        decreases rs.len() - j,
    {
        if resource_url(base, rs[j].id.as_str()).is_none() {
            proof {
                assert(url_join(base@, resource_path(rs@[j as int].id@)) is None);
            }
            return false;
        }
        j = j + 1;
    }
    true
}

/// Whether every resource of a list of objects has an address against the base.
fn all_joinable(base: &str, objects: &Vec<Object>) -> (r: bool)
    ensures
        r == forall|i: int| 0 <= i < objects@.len() ==> object_joinable(base@, #[trigger] objects@[i]),
{
    let mut i: usize = 0;
    while i < objects.len()
        invariant
            i <= objects.len(),
            forall|k: int| 0 <= k < i ==> object_joinable(base@, #[trigger] objects@[k]),
        decreases objects.len() - i,
    {
        let ok = match &objects[i] {
            Object::Item(it) => resources_all_joinable(base, &it.resources),
            Object::Container(_) => true,
        };
        if !ok {
            proof {
                assert(!object_joinable(base@, objects@[i as int]));
            }
            return false;
        }
        i = i + 1;
    }
    true
}

/// The listing of some objects as a document, for a request at `base`; `None`
/// when the address of a resource cannot be resolved against it.
pub fn didl_document(base: &str, objects: &Vec<Object>) -> (r: Option<Result<Vec<u8>, WriterError>>)
    ensures
        r is None <==> !(forall|i: int| 0 <= i < objects@.len() ==> object_joinable(base@, #[trigger] objects@[i])),
        r is Some ==> (r matches Some(Ok(b)) && b@ == document_bytes(document_events(didl_events(base@, objects@)))),
{
    if !all_joinable(base, objects) {
        return None;
    }
    let mut w = match XmlWriter::new() {
        Ok(w) => w,
        Err(e) => {
            return Some(Err(e));
        },
    };
    match write_didl(&mut w, base, objects) {
        Ok(()) => Some(Ok(w.finish())),
        Err(e) => Some(Err(e)),
    }
}


// ---------------------------------------------------------------------------
// Whole documents and faults
// ---------------------------------------------------------------------------

/// The device description of the media server with a UUID, as a document.
pub fn device_description(uuid: u128) -> (r: Result<Vec<u8>, WriterError>)
    ensures
        r matches Ok(b) && b@ == document_bytes(document_events(root_events(uuid))),
{
    let mut w = XmlWriter::new()?;
    write_root(&mut w, uuid)?;
    Ok(w.finish())
}

/// The description of a service offering some actions, as a document.
pub fn service_description(actions: &Vec<SoapActionKind>) -> (r: Result<Vec<u8>, WriterError>)
    ensures
        r matches Ok(b) && b@ == document_bytes(document_events(scpd_events(actions@))),
{
    let mut w = XmlWriter::new()?;
    write_service_description(&mut w, actions)?;
    Ok(w.finish())
}

/// The namespace of UPnP control errors.
pub const UPNP_CONTROL: &'static str = "urn:schemas-upnp-org:control-1-0";

/// The prefixes in scope once an element of a namespace that declares nothing
/// itself has opened.
pub open spec fn inside(known: Map<Seq<char>, Seq<char>>, ns: Seq<char>) -> Map<Seq<char>, Seq<char>> {
    known.union_prefer_right(plain_declared(known, Some(ns)))
}

/// A SOAP fault for a UPnP error: who is at fault, and the error's code within
/// its detail. Its text elements are in the default namespace in scope.
pub open spec fn fault_events(known: Map<Seq<char>, Seq<char>>, e: UpnpError) -> Seq<Written> {
    let s = "http://schemas.xmlsoap.org/soap/envelope/"@;
    let c = "urn:schemas-upnp-org:control-1-0"@;
    let k1 = inside(known, s);
    let k2 = inside(k1, c);
    let code = if 400 <= e.status_spec() < 500 {
        "Client"@
    } else {
        "Server"@
    };
    seq![open_plain(known, (Some(s), "Fault"@), Seq::empty())] + seq![
        open_default(default_of(k1), "faultcode"@),
        Written::Text("s:"@ + code),
        Written::Close,
    ] + seq![
        open_default(default_of(k1), "faultstring"@),
        Written::Text("UPnPError"@),
        Written::Close,
    ] + seq![
        open_default(default_of(k1), "detail"@),
        open_plain(k1, (Some(c), "UPnPError"@), Seq::empty()),
        open_default(default_of(k2), "errorCode"@),
        Written::Text(decimal(e.status_spec() as nat)),
        Written::Close,
        Written::Close,
        Written::Close,
        Written::Close,
    ]
}

/// Writes the SOAP fault of a UPnP error. Inside the fault a default namespace
/// must be in scope.
pub fn write_fault(w: &mut XmlWriter, e: &UpnpError) -> (r: Result<(), WriterError>)
    requires
        old(w).wf(),
        has_default(inside(old(w).known(), SOAP_ENVELOPE@)),
    ensures
        final(w).wf(),
        r is Ok,
        final(w).known() == old(w).known(),
        final(w).depth() == old(w).depth(),
        final(w).log() == old(w).log() + fault_events(old(w).known(), *e),
{
    proof {
        reveal_strlit("s:");
    }
    let ghost k0 = w.known();
    let b = w.element_ns(XmlName::qualified(SOAP_ENVELOPE, "Fault"));
    proof {
        crate::xml_write::lemma_open_plain(w.known(), b);
        assert(plain_attrs(b.attributes@) =~= Seq::empty());
    }
    let previous = w.start(b)?;
    let ghost k1 = w.known();
    let mut code = String::new();
    push_str(&mut code, "s:");
    push_str(&mut code, e.fault_code());
    w.text_child("faultcode", code.as_str())?;
    w.text_child("faultstring", "UPnPError")?;
    let detail_previous = w.open_child("detail")?;
    let eb = w.element_ns(XmlName::qualified(UPNP_CONTROL, "UPnPError"));
    proof {
        crate::xml_write::lemma_open_plain(w.known(), eb);
        assert(plain_attrs(eb.attributes@) =~= Seq::empty());
    }
    let error_previous = w.start(eb)?;
    proof {
        let c = UPNP_CONTROL@;
        if !k1.contains_key(c) {
            assert(w.known().contains_key(c) && w.known()[c].len() == 0);
        } else {
            let d = default_of(k1);
            assert(k1.contains_key(d) && k1[d].len() == 0);
            assert(w.known().contains_key(d) && w.known()[d].len() == 0);
        }
    }
    let status = decimal_string(e.status() as u64);
    w.text_child("errorCode", status.as_str())?;
    w.end(error_previous)?;
    w.end(detail_previous)?;
    let r = w.end(previous);
    proof {
        if r is Ok {
            assert(w.log() =~= old(w).log() + fault_events(k0, *e));
        }
    }
    r
}

} // verus!
