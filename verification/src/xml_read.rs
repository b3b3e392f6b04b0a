//! Reading XML request bodies: elements that hold either text or child elements,
//! and the SOAP envelope around a control action.
use vstd::prelude::*;

use crate::text::{chars_eq, push_str, to_chars};
use crate::xml::{attr_map, attrs_sorted, insert_attr, name_key, XmlName};
use xml::reader::XmlEvent as PE;
use crate::xml_read::ReadEvent::{
    CData, Characters, Comment, EndDocument, EndElement, ProcessingInstruction, StartDocument,
    StartElement, Whitespace,
};

verus! {

#[verifier::external_type_specification]
#[verifier::external_body]
pub struct ExXmlEvent(xml::reader::XmlEvent);

#[verifier::external_type_specification]
#[verifier::external_body]
pub struct ExOwnedAttribute(xml::attribute::OwnedAttribute);

/// What the XML parser reads from some bytes: its events in order, ending after
/// the end of the document or with the first error, kept as its message. A start
/// tag carries its name and the name and value of each of its attributes, in the
/// order the parser gives them.
pub uninterp spec fn parsed_document(bytes: Seq<u8>) -> Seq<Result<ReadEventV, Seq<char>>>;

/// `EventReader::into_iter` on the bytes, collected, each event told apart by its
/// variant and keeping what the reader uses of it; an error is kept as its message.
#[verifier::external_body]
fn parse_events(bytes: &[u8]) -> (r: Vec<Result<ReadEvent, String>>)
    ensures
        events_view(r@) == parsed_document(bytes@),
{
    xml::reader::EventReader::new(bytes).into_iter().map(|r| r.map_err(|e| e.to_string()).map(|ev| match ev {
        PE::StartDocument { .. } => StartDocument,
        PE::EndDocument => EndDocument,
        PE::ProcessingInstruction { .. } => ProcessingInstruction,
        PE::StartElement { name, attributes, .. } => StartElement {
            name: XmlName { namespace: name.namespace, local_name: name.local_name }, attributes },
        PE::EndElement { .. } => EndElement,
        PE::CData(t) => CData(t),
        PE::Comment(_) => Comment,
        PE::Characters(t) => Characters(t),
        PE::Whitespace(t) => Whitespace(t),
    })).collect()
}

/// The name (namespace and local name) and value of a parsed attribute.
pub uninterp spec fn owned_attribute(a: xml::attribute::OwnedAttribute) -> (
    (Option<Seq<char>>, Seq<char>),
    Seq<char>,
);

/// The name and value of a parsed attribute, moved out of its fields.
#[verifier::external_body]
fn attribute_parts(a: xml::attribute::OwnedAttribute) -> (r: (XmlName, String))
    ensures
        (name_key(r.0), r.1@) == owned_attribute(a),
{
    (XmlName { namespace: a.name.namespace, local_name: a.name.local_name }, a.value)
}

/// The SOAP envelope namespace.
pub const SOAP_ENVELOPE: &'static str = "http://schemas.xmlsoap.org/soap/envelope/";

/// Why a request body could not be read.
#[derive(Debug, Clone, PartialEq, Eq)]
pub enum ClientXmlError {
    /// The XML parser refused the document.
    Xml { message: String },
    /// The document is not what was expected.
    Custom { message: String },
}

/// An event of the XML parser, with what the reader uses of it.
#[derive(Debug)]
pub enum ReadEvent {
    StartDocument,
    EndDocument,
    ProcessingInstruction,
    StartElement { name: XmlName, attributes: Vec<xml::attribute::OwnedAttribute> },
    EndElement,
    CData(String),
    Comment,
    Characters(String),
    Whitespace(String),
}

/// What the reader uses of a parser event, as a value.
pub enum ReadEventV {
    StartDocument,
    EndDocument,
    ProcessingInstruction,
    StartElement(ElementV),
    EndElement,
    CData(Seq<char>),
    Comment,
    Characters(Seq<char>),
    Whitespace(Seq<char>),
}

pub open spec fn read_event_view(e: ReadEvent) -> ReadEventV {
    match e {
        ReadEvent::StartDocument => ReadEventV::StartDocument,
        ReadEvent::EndDocument => ReadEventV::EndDocument,
        ReadEvent::ProcessingInstruction => ReadEventV::ProcessingInstruction,
        ReadEvent::StartElement { name, attributes } => ReadEventV::StartElement(
            (name_key(name), attributes@.map_values(|a: xml::attribute::OwnedAttribute| owned_attribute(a))),
        ),
        ReadEvent::EndElement => ReadEventV::EndElement,
        ReadEvent::CData(t) => ReadEventV::CData(t@),
        ReadEvent::Comment => ReadEventV::Comment,
        ReadEvent::Characters(t) => ReadEventV::Characters(t@),
        ReadEvent::Whitespace(t) => ReadEventV::Whitespace(t@),
    }
}

pub open spec fn event_result_view(r: Result<ReadEvent, String>) -> Result<ReadEventV, Seq<char>> {
    match r {
        Ok(e) => Ok(read_event_view(e)),
        Err(m) => Err(m@),
    }
}

/// The events of a document as values.
pub open spec fn events_view(s: Seq<Result<ReadEvent, String>>) -> Seq<Result<ReadEventV, Seq<char>>> {
    s.map_values(|r: Result<ReadEvent, String>| event_result_view(r))
}

/// A start tag as values: its name, and the names and values of its attributes
/// in the order they are given.
pub type ElementV = ((Option<Seq<char>>, Seq<char>), Seq<((Option<Seq<char>>, Seq<char>), Seq<char>)>);

/// An attribute as values.
pub open spec fn pair_view(p: (XmlName, String)) -> ((Option<Seq<char>>, Seq<char>), Seq<char>) {
    (name_key(p.0), p.1@)
}

/// The attributes given by a list of names and values, each name with the last
/// value it has there.
pub open spec fn attr_pairs_map(s: Seq<((Option<Seq<char>>, Seq<char>), Seq<char>)>) -> Map<
    (Option<Seq<char>>, Seq<char>),
    Seq<char>,
>
    decreases s.len(),
{
    if s.len() == 0 {
        Map::empty()
    } else {
        attr_pairs_map(s.drop_last()).insert(s.last().0, s.last().1)
    }
}

/// An element: its name and its attributes, in name order.
#[derive(Debug)]
pub struct Element {
    pub name: XmlName,
    pub attributes: Vec<(XmlName, String)>,
}

fn custom(message: &str) -> (r: ClientXmlError)
    ensures
        r matches ClientXmlError::Custom { message: m } && m@ == message@,
{
    ClientXmlError::Custom { message: message.to_owned() }
}

/// The attributes a list gives, each name with the last value it has there.
pub open spec fn attrs_given(s: Seq<(XmlName, String)>) -> Map<(Option<Seq<char>>, Seq<char>), Seq<char>>
    decreases s.len(),
{
    if s.len() == 0 {
        Map::empty()
    } else {
        attrs_given(s.drop_last()).insert(name_key(s.last().0), s.last().1@)
    }
}

proof fn lemma_attrs_given_view(s: Seq<(XmlName, String)>)
    ensures
        attrs_given(s) == attr_pairs_map(s.map_values(|p: (XmlName, String)| pair_view(p))),
    decreases s.len(),
{
    if s.len() > 0 {
        lemma_attrs_given_view(s.drop_last());
        assert(s.map_values(|p: (XmlName, String)| pair_view(p)).drop_last() =~= s.drop_last().map_values(
            |p: (XmlName, String)| pair_view(p),
        ));
    } else {
        assert(s.map_values(|p: (XmlName, String)| pair_view(p)) =~= Seq::<((Option<Seq<char>>, Seq<char>), Seq<char>)>::empty());
    }
}

/// The attributes of a start tag, in name order.
pub fn attribute_map(attributes: Vec<(XmlName, String)>) -> (r: Vec<(XmlName, String)>)
    ensures
        attrs_sorted(r@),
        attr_map(r@) == attrs_given(attributes@),
{
    let mut out: Vec<(XmlName, String)> = Vec::new();
    let mut rest = attributes;
    let ghost orig = rest@;
    proof {
        assert(attr_map(out@) =~= Map::empty());
    }
    while rest.len() > 0
        invariant
            attrs_sorted(out@),
            rest.len() <= orig.len(),
            rest@ == orig.skip(orig.len() - rest.len()),
            attr_map(out@) == attrs_given(orig.take(orig.len() - rest.len())),
        decreases rest.len(),
    {
        let ghost n = orig.len() - rest.len();
        let (name, value) = rest.remove(0);
        proof {
            assert(orig.skip(n)[0] == orig[n]);
            assert(rest@ =~= orig.skip(n + 1));
            assert(orig.take(n + 1).drop_last() =~= orig.take(n));
            assert(orig.take(n + 1).last() == orig[n]);
        }
        insert_attr(&mut out, name, value);
    }
    proof {
        assert(orig.take(orig.len() as int) =~= orig);
    }
    out
}

/// What an event means while looking for the next child element: `None` to read
/// on, else the answer.
pub fn element_step(ev: ReadEvent) -> (r: Option<Result<Option<Element>, ClientXmlError>>)
    ensures
        match ev {
            ReadEvent::EndDocument => r matches Some(Err(ClientXmlError::Custom { message: m }))
                && m@ == "Unexpected end of XML document"@,
            ReadEvent::StartElement { name, .. } => r matches Some(Ok(Some(e))) && e.name == name
                && attrs_sorted(e.attributes@),
            ReadEvent::EndElement => r matches Some(Ok(None)),
            ReadEvent::CData(_) => r matches Some(Err(ClientXmlError::Custom { message: m })) && m@
                == "Unexpected CDATA in element"@,
            ReadEvent::Characters(_) => r matches Some(Err(ClientXmlError::Custom { message: m }))
                && m@ == "Unexpected text in element"@,
            _ => r is None,
        },
        match element_step_spec(read_event_view(ev)) {
            Some(a) => r matches Some(x) && element_result_matches(x, a),
            None => r is None,
        },
{
    match ev {
        ReadEvent::EndDocument => Some(Err(custom("Unexpected end of XML document"))),
        ReadEvent::StartElement { name, attributes } => {
            let ghost all = attributes@.map_values(|a: xml::attribute::OwnedAttribute| owned_attribute(a));
            let mut parts: Vec<(XmlName, String)> = Vec::new();
            let mut rest = attributes;
            proof {
                assert(rest@.map_values(|a: xml::attribute::OwnedAttribute| owned_attribute(a)) =~= all.skip(0));
            }
            while rest.len() > 0
                invariant
                    parts@.len() + rest@.len() == all.len(),
                    parts@.map_values(|p: (XmlName, String)| pair_view(p)) == all.take(parts@.len() as int),
                    rest@.map_values(|a: xml::attribute::OwnedAttribute| owned_attribute(a)) == all.skip(
                        parts@.len() as int,
                    ),
                decreases rest.len(),
            {
                let ghost k = parts@.len() as int;
                let ghost before = rest@;
                let a = rest.remove(0);
                let part = attribute_parts(a);
                proof {
                    assert(owned_attribute(a) == before.map_values(
                        |a: xml::attribute::OwnedAttribute| owned_attribute(a),
                    )[0]);
                    assert(all.skip(k)[0] == all[k]);
                }
                let ghost pv = parts@;
                parts.push(part);
                proof {
                    assert(parts@.map_values(|p: (XmlName, String)| pair_view(p)) =~= pv.map_values(
                        |p: (XmlName, String)| pair_view(p),
                    ).push(pair_view(part)));
                    assert(all.take(k + 1) =~= all.take(k).push(all[k]));
                    let bm = before.map_values(|a: xml::attribute::OwnedAttribute| owned_attribute(a));
                    assert(rest@ =~= before.drop_first());
                    assert(rest@.map_values(|a: xml::attribute::OwnedAttribute| owned_attribute(a))
                        =~= bm.skip(1));
                    assert(bm.skip(1) =~= all.skip(k + 1));
                }
            }
            proof {
                assert(all.take(all.len() as int) =~= all);
                lemma_attrs_given_view(parts@);
            }
            Some(Ok(Some(Element { name, attributes: attribute_map(parts) })))
        },
        ReadEvent::EndElement => Some(Ok(None)),
        ReadEvent::CData(_) => Some(Err(custom("Unexpected CDATA in element"))),
        ReadEvent::Characters(_) => Some(Err(custom("Unexpected text in element"))),
        _ => None,
    }
}

/// The text read so far inside an element, and whether any of it was more than
/// whitespace.
pub struct TextSoFar {
    pub content: String,
    pub saw_text: bool,
}

/// What an event means while reading an element's text: `None` to read on, else
/// the answer: the text, or nothing when there was only whitespace.
pub fn text_step(so_far: &mut TextSoFar, ev: ReadEvent) -> (r: Option<Result<Option<String>, ClientXmlError>>)
    ensures
        match ev {
            ReadEvent::StartDocument => r matches Some(Err(ClientXmlError::Custom { message: m }))
                && m@ == "Unexpected XML state"@,
            ReadEvent::EndDocument => r matches Some(Err(ClientXmlError::Custom { message: m }))
                && m@ == "Unexpected end of XML document"@,
            ReadEvent::ProcessingInstruction => r matches Some(Err(ClientXmlError::Custom { message: m }))
                && m@ == "Unexpected processing instruction"@,
            ReadEvent::StartElement { name, .. } => r matches Some(Err(ClientXmlError::Custom { message: m }))
                && m@ == "Unexpected element "@ + name.text_spec() + " when expecting text"@,
            ReadEvent::EndElement => if old(so_far).saw_text {
                r matches Some(Ok(Some(t))) && t@ == old(so_far).content@
            } else {
                r matches Some(Ok(None))
            },
            ReadEvent::CData(t) | ReadEvent::Characters(t) => r is None && final(so_far).content@
                == old(so_far).content@ + t@ && final(so_far).saw_text,
            ReadEvent::Whitespace(t) => r is None && final(so_far).content@ == old(so_far).content@
                + t@ && final(so_far).saw_text == old(so_far).saw_text,
            ReadEvent::Comment => r is None && final(so_far).content@ == old(so_far).content@
                && final(so_far).saw_text == old(so_far).saw_text,
        },
        match text_step_spec(read_event_view(ev), old(so_far).content@, old(so_far).saw_text) {
            TextStep::Finish(a) => r matches Some(x) && text_result_matches(x, a),
            TextStep::Go(c, seen) => r is None && final(so_far).content@ == c && final(so_far).saw_text
                == seen,
        },
{
    match ev {
        ReadEvent::StartDocument => Some(Err(custom("Unexpected XML state"))),
        ReadEvent::EndDocument => Some(Err(custom("Unexpected end of XML document"))),
        ReadEvent::ProcessingInstruction => Some(Err(custom("Unexpected processing instruction"))),
        ReadEvent::StartElement { name, .. } => {
            proof {
                reveal_strlit("Unexpected element ");
                reveal_strlit(" when expecting text");
            }
            let mut m = String::new();
            push_str(&mut m, "Unexpected element ");
            let t = name.text();
            push_str(&mut m, t.as_str());
            push_str(&mut m, " when expecting text");
            proof {
                assert(m@ =~= "Unexpected element "@ + name.text_spec() + " when expecting text"@);
            }
            Some(Err(ClientXmlError::Custom { message: m }))
        },
        ReadEvent::EndElement => {
            if so_far.saw_text {
                Some(Ok(Some(so_far.content.clone())))
            } else {
                Some(Ok(None))
            }
        },
        ReadEvent::CData(t) | ReadEvent::Characters(t) => {
            push_str(&mut so_far.content, t.as_str());
            so_far.saw_text = true;
            None
        },
        ReadEvent::Whitespace(t) => {
            push_str(&mut so_far.content, t.as_str());
            None
        },
        ReadEvent::Comment => None,
    }
}


// ---------------------------------------------------------------------------
// What reading gives, as values
// ---------------------------------------------------------------------------

/// An error as a value: whether the parser refused the document, and the message.
pub open spec fn error_view(e: ClientXmlError) -> (bool, Seq<char>) {
    match e {
        ClientXmlError::Xml { message } => (true, message@),
        ClientXmlError::Custom { message } => (false, message@),
    }
}

/// How reading ends: with an error (whether the parser refused the document, and
/// the message), or with an answer.
pub enum Answer<T> {
    Failed(bool, Seq<char>),
    Done(T),
}

/// A name as text: `<namespace>#<local name>`, or the local name alone.
pub open spec fn key_text(k: (Option<Seq<char>>, Seq<char>)) -> Seq<char> {
    match k.0 {
        Some(n) => n + "#"@ + k.1,
        None => k.1,
    }
}

/// What an event means while looking for the next child element: `None` to read
/// on.
pub open spec fn element_step_spec(v: ReadEventV) -> Option<Answer<Option<ElementV>>> {
    match v {
        ReadEventV::EndDocument => Some(Answer::Failed(false, "Unexpected end of XML document"@)),
        ReadEventV::StartElement(k) => Some(Answer::Done(Some(k))),
        ReadEventV::EndElement => Some(Answer::Done(None)),
        ReadEventV::CData(_) => Some(Answer::Failed(false, "Unexpected CDATA in element"@)),
        ReadEventV::Characters(_) => Some(Answer::Failed(false, "Unexpected text in element"@)),
        _ => None,
    }
}

/// Looking for the next child element among some events: the answer and how many
/// events it takes. Past the last event the document has ended.
pub open spec fn next_element_spec(evs: Seq<Result<ReadEventV, Seq<char>>>) -> (
    Answer<Option<ElementV>>,
    nat,
)
    decreases evs.len(),
{
    if evs.len() == 0 {
        (Answer::Failed(false, "Unexpected end of XML document"@), 0)
    } else {
        match evs[0] {
            Err(m) => (Answer::Failed(true, m), 1),
            Ok(v) => match element_step_spec(v) {
                Some(a) => (a, 1),
                None => (next_element_spec(evs.drop_first()).0, next_element_spec(evs.drop_first()).1 + 1),
            },
        }
    }
}

/// The result of looking for a child element is the answer.
pub open spec fn element_result_matches(
    r: Result<Option<Element>, ClientXmlError>,
    a: Answer<Option<ElementV>>,
) -> bool {
    match a {
        Answer::Failed(x, m) => r matches Err(e) && error_view(e) == (x, m),
        Answer::Done(None) => r matches Ok(None),
        Answer::Done(Some(k)) => r matches Ok(Some(e)) && name_key(e.name) == k.0 && attrs_sorted(
            e.attributes@,
        ) && attr_map(e.attributes@) == attr_pairs_map(k.1),
    }
}

/// A step of reading an element's text: the answer, or the text so far and
/// whether any of it was more than whitespace.
pub enum TextStep {
    Finish(Answer<Option<Seq<char>>>),
    Go(Seq<char>, bool),
}

pub open spec fn text_step_spec(v: ReadEventV, content: Seq<char>, saw: bool) -> TextStep {
    match v {
        ReadEventV::StartDocument => TextStep::Finish(Answer::Failed(false, "Unexpected XML state"@)),
        ReadEventV::EndDocument => TextStep::Finish(
            Answer::Failed(false, "Unexpected end of XML document"@),
        ),
        ReadEventV::ProcessingInstruction => TextStep::Finish(
            Answer::Failed(false, "Unexpected processing instruction"@),
        ),
        ReadEventV::StartElement(k) => TextStep::Finish(
            Answer::Failed(false, "Unexpected element "@ + key_text(k.0) + " when expecting text"@),
        ),
        ReadEventV::EndElement => TextStep::Finish(
            Answer::Done(
                if saw {
                    Some(content)
                } else {
                    None
                },
            ),
        ),
        ReadEventV::CData(t) => TextStep::Go(content + t, true),
        ReadEventV::Characters(t) => TextStep::Go(content + t, true),
        ReadEventV::Whitespace(t) => TextStep::Go(content + t, saw),
        ReadEventV::Comment => TextStep::Go(content, saw),
    }
}

/// Reading an element's text among some events, with some text read already: the
/// answer and how many events it takes.
pub open spec fn text_spec(evs: Seq<Result<ReadEventV, Seq<char>>>, content: Seq<char>, saw: bool) -> (
    Answer<Option<Seq<char>>>,
    nat,
)
    decreases evs.len(),
{
    if evs.len() == 0 {
        (Answer::Failed(false, "Unexpected end of XML document"@), 0)
    } else {
        match evs[0] {
            Err(m) => (Answer::Failed(true, m), 1),
            Ok(v) => match text_step_spec(v, content, saw) {
                TextStep::Finish(a) => (a, 1),
                TextStep::Go(c, seen) => (
                    text_spec(evs.drop_first(), c, seen).0,
                    text_spec(evs.drop_first(), c, seen).1 + 1,
                ),
            },
        }
    }
}

/// The result of reading text is the answer.
pub open spec fn text_result_matches(r: Result<Option<String>, ClientXmlError>, a: Answer<Option<Seq<char>>>) -> bool {
    match a {
        Answer::Failed(x, m) => r matches Err(e) && error_view(e) == (x, m),
        Answer::Done(None) => r matches Ok(None),
        Answer::Done(Some(t)) => r matches Ok(Some(s)) && s@ == t,
    }
}

/// Reading into the body of a SOAP envelope for an action, among some events:
/// the body element must come first and hold the action's element first; the
/// answer and how many events it takes.
pub open spec fn soap_action_spec(
    evs: Seq<Result<ReadEventV, Seq<char>>>,
    schema: Seq<char>,
    action: Seq<char>,
) -> (Answer<()>, nat) {
    let (a1, n1) = next_element_spec(evs);
    match a1 {
        Answer::Failed(x, m) => (Answer::Failed(x, m), n1),
        Answer::Done(None) => (Answer::Failed(false, "Missing body element"@), n1),
        Answer::Done(Some(k)) => if k.0 != (Some(SOAP_ENVELOPE@), "Body"@) {
            (Answer::Failed(false, "Missing body element"@), n1)
        } else {
            let (a2, n2) = next_element_spec(evs.skip(n1 as int));
            match a2 {
                Answer::Failed(x, m) => (Answer::Failed(x, m), n1 + n2),
                Answer::Done(None) => (Answer::Failed(false, "Missing SOAP request element"@), n1 + n2),
                Answer::Done(Some(k2)) => if k2.0 == (Some(schema), action) {
                    (Answer::Done(()), n1 + n2)
                } else {
                    (Answer::Failed(false, "Unexpected body element"@), n1 + n2)
                },
            }
        },
    }
}

proof fn lemma_next_element_len(evs: Seq<Result<ReadEventV, Seq<char>>>)
    ensures
        next_element_spec(evs).1 <= evs.len(),
    decreases evs.len(),
{
    if evs.len() > 0 {
        lemma_next_element_len(evs.drop_first());
    }
}

// ---------------------------------------------------------------------------
// The reader
// ---------------------------------------------------------------------------

/// A document being read, as the events of the XML parser still to come.
pub struct XmlReader {
    events: Vec<Result<ReadEvent, String>>,
}

impl XmlReader {
    /// Parses a document.
    pub fn new(bytes: &[u8]) -> (r: XmlReader)
        ensures
            r.events() == parsed_document(bytes@),
    {
        XmlReader { events: parse_events(bytes) }
    }

    /// The events still to come, as values.
    pub closed spec fn events(&self) -> Seq<Result<ReadEventV, Seq<char>>> {
        events_view(self.events@)
    }

    /// The number of events still to come.
    pub closed spec fn remaining(&self) -> nat {
        self.events@.len()
    }

    /// The next event. Past the last one the document has ended.
    fn next_event(&mut self) -> (r: Result<ReadEvent, ClientXmlError>)
        ensures
            old(self).events().len() == 0 ==> (r matches Ok(e) && read_event_view(e)
                == ReadEventV::EndDocument && final(self).events() == old(self).events()),
            old(self).events().len() > 0 ==> final(self).events() == old(self).events().drop_first()
                && match old(self).events()[0] {
                Err(m) => r matches Err(e) && error_view(e) == (true, m),
                Ok(v) => r matches Ok(e) && read_event_view(e) == v,
            },
            final(self).remaining() == final(self).events().len(),
            old(self).remaining() == old(self).events().len(),
    {
        if self.events.len() == 0 {
            return Ok(ReadEvent::EndDocument);
        }
        let ghost before = self.events@;
        let first = self.events.remove(0);
        proof {
            assert(events_view(self.events@) =~= events_view(before).drop_first());
            assert(events_view(before)[0] == event_result_view(first));
        }
        match first {
            Ok(ev) => Ok(ev),
            Err(message) => Err(ClientXmlError::Xml { message }),
        }
    }

    /// The next child element of the current element, or `None` when the current
    /// element closes. Text between elements is refused.
    pub fn next_element(&mut self) -> (r: Result<Option<Element>, ClientXmlError>)
        ensures
            element_result_matches(r, next_element_spec(old(self).events()).0),
            final(self).events() == old(self).events().skip(next_element_spec(old(self).events()).1 as int),
    {
        let ghost orig = self.events();
        let ghost mut k: int = 0;
        proof {
            assert(orig.skip(0) =~= orig);
        }
        loop
            invariant
                0 <= k <= orig.len(),
                orig == old(self).events(),
                self.events() == orig.skip(k),
                self.remaining() == self.events().len(),
                next_element_spec(orig).0 == next_element_spec(self.events()).0,
                next_element_spec(orig).1 == next_element_spec(self.events()).1 + k,
            decreases self.remaining(),
        {
            let ghost cur = self.events();
            let ev = match self.next_event() {
                Ok(ev) => ev,
                Err(e) => {
                    proof {
                        assert(cur.len() > 0);
                        assert(cur[0] is Err);
                        assert(next_element_spec(cur).1 == 1);
                        assert(orig.skip(k + 1) =~= cur.drop_first());
                    }
                    return Err(e);
                },
            };
            match element_step(ev) {
                Some(r) => {
                    proof {
                        if cur.len() == 0 {
                            assert(orig.skip(k) =~= orig.skip(k + 0));
                        } else {
                            assert(orig.skip(k + 1) =~= cur.drop_first());
                        }
                    }
                    return r;
                },
                None => {},
            }
            proof {
                assert(cur.len() > 0);
                assert(orig.skip(k + 1) =~= cur.drop_first());
                k = k + 1;
            }
        }
    }

    /// The text of the current element, or `None` when it holds only whitespace;
    /// the element is read to its end. Child elements are refused.
    pub fn text(&mut self) -> (r: Result<Option<String>, ClientXmlError>)
        ensures
            text_result_matches(r, text_spec(old(self).events(), Seq::empty(), false).0),
            final(self).events() == old(self).events().skip(
                text_spec(old(self).events(), Seq::empty(), false).1 as int,
            ),
    {
        let mut so_far = TextSoFar { content: String::new(), saw_text: false };
        let ghost orig = self.events();
        let ghost mut k: int = 0;
        proof {
            assert(orig.skip(0) =~= orig);
        }
        loop
            invariant
                0 <= k <= orig.len(),
                orig == old(self).events(),
                self.events() == orig.skip(k),
                self.remaining() == self.events().len(),
                text_spec(orig, Seq::empty(), false).0 == text_spec(
                    self.events(),
                    so_far.content@,
                    so_far.saw_text,
                ).0,
                text_spec(orig, Seq::empty(), false).1 == text_spec(
                    self.events(),
                    so_far.content@,
                    so_far.saw_text,
                ).1 + k,
            decreases self.remaining(),
        {
            let ghost cur = self.events();
            let ev = match self.next_event() {
                Ok(ev) => ev,
                Err(e) => {
                    proof {
                        assert(cur.len() > 0);
                        assert(cur[0] is Err);
                        assert(orig.skip(k + 1) =~= cur.drop_first());
                    }
                    return Err(e);
                },
            };
            match text_step(&mut so_far, ev) {
                Some(r) => {
                    proof {
                        if cur.len() > 0 {
                            assert(orig.skip(k + 1) =~= cur.drop_first());
                        }
                    }
                    return r;
                },
                None => {},
            }
            proof {
                assert(cur.len() > 0);
                assert(orig.skip(k + 1) =~= cur.drop_first());
                k = k + 1;
            }
        }
    }
}

/// `text/xml` and `application/xml` bodies are read.
pub open spec fn is_xml_type(content_type: Seq<char>) -> bool {
    content_type == "application/xml"@ || content_type == "text/xml"@
}

/// Starts reading a request body of a content type: its document element must
/// have the expected name. The reader is left inside that element.
pub fn read_document(content_type: &str, body: &[u8], expected: &XmlName) -> (r: Result<(Element, XmlReader), ClientXmlError>)
    ensures
        !is_xml_type(content_type@) ==> (r matches Err(ClientXmlError::Custom { message: m }) && m@
            == "Unexpected content-type: "@ + content_type@),
        r matches Ok((e, _)) ==> (is_xml_type(content_type@) && name_key(e.name) == name_key(*expected)),
{
    proof {
        reveal_strlit("application/xml");
        reveal_strlit("text/xml");
        reveal_strlit("Unexpected content-type: ");
        reveal_strlit("Unexpected document element ");
    }
    let ct = to_chars(content_type);
    let a = to_chars("application/xml");
    let t = to_chars("text/xml");
    if !chars_eq(ct.as_slice(), a.as_slice()) && !chars_eq(ct.as_slice(), t.as_slice()) {
        let mut m = String::new();
        push_str(&mut m, "Unexpected content-type: ");
        push_str(&mut m, content_type);
        return Err(ClientXmlError::Custom { message: m });
    }
    let mut reader = XmlReader::new(body);
    match reader.next_element() {
        Err(e) => Err(e),
        Ok(None) => Err(custom("Unexpected end of XML document")),
        Ok(Some(element)) => {
            if same_name(&element.name, expected) {
                Ok((element, reader))
            } else {
                let mut m = String::new();
                push_str(&mut m, "Unexpected document element ");
                let n = element.name.text();
                push_str(&mut m, n.as_str());
                Err(ClientXmlError::Custom { message: m })
            }
        },
    }
}

/// Whether two names are the same.
pub fn same_name(a: &XmlName, b: &XmlName) -> (r: bool)
    ensures
        r == (name_key(*a) == name_key(*b)),
{
    let la = to_chars(a.local_name.as_str());
    let lb = to_chars(b.local_name.as_str());
    let same_local = chars_eq(la.as_slice(), lb.as_slice());
    match (&a.namespace, &b.namespace) {
        (Some(x), Some(y)) => {
            let xs = to_chars(x.as_str());
            let ys = to_chars(y.as_str());
            chars_eq(xs.as_slice(), ys.as_slice()) && same_local
        },
        (None, None) => same_local,
        _ => false,
    }
}

/// Reads into the body of a SOAP envelope, whose element has been read: the body
/// must hold the element of the expected action, which is returned with the
/// reader left inside it.
pub fn read_soap_action(reader: &mut XmlReader, schema: &str, action: &str) -> (r: Result<Element, ClientXmlError>)
    ensures
        r matches Ok(e) ==> (name_key(e.name) == (Some(schema@), action@)),
        match soap_action_spec(old(reader).events(), schema@, action@).0 {
            Answer::Failed(x, m) => r matches Err(e) && error_view(e) == (x, m),
            Answer::Done(_) => r matches Ok(e) && name_key(e.name) == (Some(schema@), action@)
                && attrs_sorted(e.attributes@),
        },
        final(reader).events() == old(reader).events().skip(
            soap_action_spec(old(reader).events(), schema@, action@).1 as int,
        ),
{
    proof {
        reveal_strlit("Body");
    }
    let body_name = XmlName::qualified(SOAP_ENVELOPE, "Body");
    let body = match reader.next_element() {
        Err(e) => {
            return Err(e);
        },
        Ok(None) => {
            return Err(custom("Missing body element"));
        },
        Ok(Some(b)) => b,
    };
    if !same_name(&body.name, &body_name) {
        return Err(custom("Missing body element"));
    }
    let expected = XmlName::qualified(schema, action);
    proof {
        let evs = old(reader).events();
        let n1 = next_element_spec(evs).1;
        lemma_next_element_len(evs);
        let n2 = next_element_spec(evs.skip(n1 as int)).1;
        lemma_next_element_len(evs.skip(n1 as int));
        assert(evs.skip(n1 as int).skip(n2 as int) =~= evs.skip((n1 + n2) as int));
    }
    match reader.next_element() {
        Err(e) => Err(e),
        Ok(None) => Err(custom("Missing SOAP request element")),
        Ok(Some(element)) => {
            if same_name(&element.name, &expected) {
                Ok(element)
            } else {
                Err(custom("Unexpected body element"))
            }
        },
    }
}

} // verus!
