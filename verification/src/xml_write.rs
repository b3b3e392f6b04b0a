//! Writing XML documents: elements with attributes in name order, namespace
//! prefixes declared where a namespace is first used, and what a writer has been
//! asked to write so far.
use vstd::prelude::*;

use crate::profile::{
    lemma_text_order_antisymmetric, lemma_text_order_reflexive, lemma_text_order_transitive,
    text_order, text_rank, Rank,
};
use crate::text::to_chars;
use crate::xml::{
    attr_map, attrs_sorted, default_namespace, default_of, ensure_prefix, ensure_spec,
    entries_map, has_default, insert_attr, is_default_in, lemma_default_unique, lemma_entries_map,
    name_key, name_order, Prefixes, XmlName,
};

verus! {

#[verifier::external_type_specification]
#[verifier::external_body]
#[verifier::reject_recursive_types(W)]
pub struct ExEventWriter<W>(xml::writer::EventWriter<W>);

#[verifier::external_type_specification]
#[verifier::external_body]
pub struct ExWriterEvent<'a>(xml::writer::XmlEvent<'a>);

/// The elements an XML writer has open, innermost last; each stands for the name
/// of one open element.
pub uninterp spec fn open_elements(w: xml::writer::EventWriter<Vec<u8>>) -> Seq<Seq<char>>;

/// Whether an XML writer has written the declaration that starts a document.
pub uninterp spec fn document_started(w: xml::writer::EventWriter<Vec<u8>>) -> bool;

/// The events an XML writer has written, in order.
pub uninterp spec fn emitted_events(w: xml::writer::EventWriter<Vec<u8>>) -> Seq<EmittedV>;

/// The bytes an XML writer made as `new_event_writer` makes it writes for a
/// sequence of events. The writer keeps no other state that shapes its output, so
/// these are a function of the events alone.
pub uninterp spec fn document_bytes(events: Seq<EmittedV>) -> Seq<u8>;

/// A writer that indents, writing into memory (`EmitterConfig::new`,
/// `perform_indent(true)`, `create_writer`). The emitter starts with no element
/// open and no declaration written.
#[verifier::external_body]
fn new_event_writer() -> (r: xml::writer::EventWriter<Vec<u8>>)
    ensures
        open_elements(r) == Seq::<Seq<char>>::empty(),
        !document_started(r),
        emitted_events(r) == Seq::<EmittedV>::empty(),
{
    xml::writer::EmitterConfig::new().perform_indent(true).create_writer(Vec::new())
}

/// The start tag of an element, ready to be written, with what it was made of.
pub struct StartTag<'a> {
    event: xml::writer::XmlEvent<'a>,
    name: &'a WrittenName,
    declarations: &'a Vec<(String, String)>,
    attributes: &'a Vec<(WrittenName, String)>,
}

/// A start tag: the element's name, the namespaces it declares by prefix and its
/// attributes, each name with its prefix.
#[verifier::external_body]
fn start_event<'a>(
    name: &'a WrittenName,
    declarations: &'a Vec<(String, String)>,
    attributes: &'a Vec<(WrittenName, String)>,
) -> (r: StartTag<'a>)
    ensures
        r.name == name,
        r.declarations == declarations,
        r.attributes == attributes,
{
    let as_xml = |n: &'a WrittenName| xml::name::Name {
        local_name: &n.local_name,
        namespace: n.namespace.as_deref(),
        prefix: n.prefix.as_deref(),
    };
    let attrs = attributes.iter().map(|(n, v)| xml::attribute::Attribute { name: as_xml(n), value: v });
    let namespace = xml::namespace::Namespace(declarations.iter().cloned().collect());
    let event = xml::writer::XmlEvent::StartElement {
        name: as_xml(name),
        attributes: attrs.collect(),
        namespace: std::borrow::Cow::Owned(namespace),
    };
    StartTag { event, name, declarations, attributes }
}

/// An event to write.
enum Emitted<'a> {
    /// The XML 1.0 declaration of a document in UTF-8.
    DocumentStart,
    /// A start tag.
    Start(StartTag<'a>),
    /// Text.
    Text(&'a str),
    /// The end tag of the innermost open element.
    End,
}

/// `EventWriter::write` into memory; a failure is kept as its message. Writing
/// into memory cannot fail, so the emitter refuses only a second declaration
/// (`DocumentStartAlreadyEmitted`) and an end tag with no element open
/// (`LastElementNameNotAvailable`, element names being kept by default). A start
/// tag or text first writes the declaration when none was; a start tag opens an
/// element and an end tag closes the innermost one. An event that is written
/// joins the events written; what bytes they make is left to the name
/// `document_bytes`.
#[verifier::external_body]
fn emit(w: &mut xml::writer::EventWriter<Vec<u8>>, event: Emitted<'_>) -> (r: Result<(), String>)
    ensures
        match event {
            Emitted::DocumentStart => (r is Ok <==> !document_started(*old(w))) && document_started(
                *final(w),
            ) && open_elements(*final(w)) == open_elements(*old(w)),
            Emitted::Start(_) => r is Ok && document_started(*final(w)) && open_elements(
                *final(w),
            ).len() == open_elements(*old(w)).len() + 1 && open_elements(*final(w)).drop_last()
                == open_elements(*old(w)),
            Emitted::Text(_) => r is Ok && document_started(*final(w)) && open_elements(*final(w))
                == open_elements(*old(w)),
            Emitted::End => (r is Ok <==> open_elements(*old(w)).len() > 0) && document_started(
                *final(w),
            ) == document_started(*old(w)) && if open_elements(*old(w)).len() > 0 {
                open_elements(*final(w)) == open_elements(*old(w)).drop_last()
            } else {
                open_elements(*final(w)) == open_elements(*old(w))
            },
        },
        r is Ok ==> emitted_events(*final(w)) == emitted_events(*old(w)).push(emitted_view(event)),
        r is Err ==> emitted_events(*final(w)) == emitted_events(*old(w)),
{
    let event = match event {
        Emitted::DocumentStart => xml::writer::XmlEvent::StartDocument {
            version: xml::common::XmlVersion::Version10,
            encoding: Some("UTF-8"),
            standalone: None,
        },
        Emitted::Start(tag) => tag.event,
        Emitted::Text(text) => xml::writer::XmlEvent::Characters(text),
        Emitted::End => xml::writer::XmlEvent::EndElement { name: None },
    };
    w.write(event).map_err(|e| e.to_string())
}

/// `EventWriter::into_inner`: what was written.
#[verifier::external_body]
fn written_bytes(w: xml::writer::EventWriter<Vec<u8>>) -> (r: Vec<u8>)
    ensures
        r@ == document_bytes(emitted_events(w)),
{
    w.into_inner()
}

/// A name as written: its prefix (none for the default namespace or no
/// namespace), its namespace and its local name.
#[derive(Debug, Clone, PartialEq, Eq)]
pub struct WrittenName {
    pub prefix: Option<String>,
    pub namespace: Option<String>,
    pub local_name: String,
}

/// Why a document could not be written.
#[derive(Debug, Clone, PartialEq, Eq)]
pub enum WriterError {
    /// The XML writer refused an event.
    Xml { message: String },
    /// Something else went wrong.
    Custom { message: String },
}

/// A name as written, as values: its prefix, its namespace and its local name.
pub type NameV = (Option<Seq<char>>, Option<Seq<char>>, Seq<char>);

/// What a writer has been asked to write.
pub enum Written {
    /// An element opens: its name and attributes as written, and the prefixes it
    /// declares for namespaces.
    Open { name: NameV, attributes: Seq<(NameV, Seq<char>)>, declared: Map<Seq<char>, Seq<char>> },
    /// Text.
    Text(Seq<char>),
    /// The open element closes.
    Close,
}

/// An event the XML writer is given, as values; a start tag declares namespaces
/// by prefix.
pub enum EmittedV {
    DocumentStart,
    Start { name: NameV, declarations: Map<Seq<char>, Seq<char>>, attributes: Seq<(NameV, Seq<char>)> },
    Text(Seq<char>),
    End,
}

/// A written name as values.
pub open spec fn wn_view(w: WrittenName) -> NameV {
    (
        match w.prefix {
            Some(p) => Some(p@),
            None => None,
        },
        match w.namespace {
            Some(n) => Some(n@),
            None => None,
        },
        w.local_name@,
    )
}

/// The name a namespace and local name are written with: the prefix the
/// namespace has, none for the default namespace or no namespace.
pub open spec fn written_view(known: Map<Seq<char>, Seq<char>>, key: (Option<Seq<char>>, Seq<char>)) -> NameV {
    match key.0 {
        Some(ns) => (
            if known[ns].len() == 0 {
                None
            } else {
                Some(known[ns])
            },
            Some(ns),
            key.1,
        ),
        None => (None, None, key.1),
    }
}

/// Declarations by prefix, as a list of prefixes and namespaces makes them when
/// collected into a map: a later prefix replaces an earlier one.
pub open spec fn decls_map(s: Seq<(String, String)>) -> Map<Seq<char>, Seq<char>>
    decreases s.len(),
{
    if s.len() == 0 {
        Map::empty()
    } else {
        decls_map(s.drop_last()).insert(s.last().0@, s.last().1@)
    }
}

/// The declarations by prefix of prefixes given by namespace: each prefix with the
/// namespace first in text order among those given it.
pub open spec fn decl_map_of(declared: Map<Seq<char>, Seq<char>>) -> Map<Seq<char>, Seq<char>> {
    Map::new(
        |p: Seq<char>| exists|u: Seq<char>| declared.contains_key(u) && declared[u] == p,
        |p: Seq<char>|
            choose|u: Seq<char>|
                declared.contains_key(u) && declared[u] == p && forall|u2: Seq<char>|
                    declared.contains_key(u2) && declared[u2] == p ==> text_order(u, u2) != Rank::Greater,
    )
}

/// What is given to the XML writer for what a writer was asked to write.
pub open spec fn emitted_of(w: Written) -> EmittedV {
    match w {
        Written::Open { name, attributes, declared } => EmittedV::Start {
            name,
            declarations: decl_map_of(declared),
            attributes,
        },
        Written::Text(t) => EmittedV::Text(t),
        Written::Close => EmittedV::End,
    }
}

/// The events of a document: its declaration, then what was written.
pub open spec fn document_events(log: Seq<Written>) -> Seq<EmittedV> {
    seq![EmittedV::DocumentStart] + log.map_values(|w: Written| emitted_of(w))
}

/// Writing one more thing adds its event to the document's events.
proof fn lemma_document_events_push(log: Seq<Written>, w: Written)
    ensures
        document_events(log.push(w)) == document_events(log).push(emitted_of(w)),
{
    assert(log.push(w).map_values(|x: Written| emitted_of(x)) =~= log.map_values(|x: Written| emitted_of(x)).push(
        emitted_of(w),
    ));
    assert(document_events(log.push(w)) =~= document_events(log).push(emitted_of(w)));
}

/// A name with the prefix its namespace has is written as `written_view` says.
proof fn lemma_written_name(known: Map<Seq<char>, Seq<char>>, n: XmlName, w: WrittenName)
    requires
        written_name_spec(known, n, w),
    ensures
        wn_view(w) == written_view(known, name_key(n)),
{
}

/// What a list of declarations with distinct prefixes collects into.
proof fn lemma_decls_map(s: Seq<(String, String)>)
    requires
        forall|i: int, j: int| 0 <= i < j < s.len() ==> s[i].0@ != s[j].0@,
    ensures
        forall|p: Seq<char>|
            #[trigger] decls_map(s).contains_key(p) <==> exists|i: int| 0 <= i < s.len() && s[i].0@ == p,
        forall|i: int| 0 <= i < s.len() ==> decls_map(s)[#[trigger] s[i].0@] == s[i].1@,
    decreases s.len(),
{
    if s.len() > 0 {
        let t = s.drop_last();
        lemma_decls_map(t);
        assert forall|p: Seq<char>|
            #[trigger] decls_map(s).contains_key(p) <==> exists|i: int| 0 <= i < s.len() && s[i].0@ == p by {
            if decls_map(s).contains_key(p) && p != s.last().0@ {
                assert(decls_map(t).contains_key(p));
                let i = choose|i: int| 0 <= i < t.len() && t[i].0@ == p;
                assert(s[i] == t[i]);
            }
            if decls_map(s).contains_key(p) && p == s.last().0@ {
                assert(s[s.len() - 1].0@ == p);
            }
            if exists|i: int| 0 <= i < s.len() && s[i].0@ == p {
                let i = choose|i: int| 0 <= i < s.len() && s[i].0@ == p;
                if i < s.len() - 1 {
                    assert(t[i] == s[i]);
                    assert(decls_map(t).contains_key(p));
                }
            }
        }
        assert forall|i: int| 0 <= i < s.len() implies decls_map(s)[#[trigger] s[i].0@] == s[i].1@ by {
            if i < s.len() - 1 {
                assert(t[i] == s[i]);
                assert(s[i].0@ != s[s.len() - 1].0@);
            }
        }
    }
}

/// The declarations of a start tag, collected by prefix, are those its prefixes
/// by namespace make.
proof fn lemma_declarations(m: Map<Seq<char>, Seq<char>>, r: Seq<(String, String)>)
    requires
        forall|i: int, j: int| 0 <= i < j < r.len() ==> r[i].0@ != r[j].0@,
        forall|i: int| 0 <= i < r.len() ==> m.contains_key(#[trigger] r[i].1@) && m[r[i].1@] == r[i].0@,
        forall|u: Seq<char>|
            #[trigger] m.contains_key(u) ==> exists|i: int|
                0 <= i < r.len() && r[i].0@ == m[u] && text_order(r[i].1@, u) != Rank::Greater,
    ensures
        decls_map(r) == decl_map_of(m),
{
    lemma_decls_map(r);
    let dm = decl_map_of(m);
    assert forall|p: Seq<char>| #[trigger] decls_map(r).contains_key(p) <==> dm.contains_key(p) by {
        if decls_map(r).contains_key(p) {
            let i = choose|i: int| 0 <= i < r.len() && r[i].0@ == p;
            assert(m.contains_key(r[i].1@) && m[r[i].1@] == p);
        }
        if dm.contains_key(p) {
            let u = choose|u: Seq<char>| m.contains_key(u) && m[u] == p;
            assert(m.contains_key(u));
        }
    }
    assert forall|p: Seq<char>| #[trigger] decls_map(r).contains_key(p) implies decls_map(r)[p] == dm[p] by {
        let i = choose|i: int| 0 <= i < r.len() && r[i].0@ == p;
        let u0 = r[i].1@;
        assert(decls_map(r)[r[i].0@] == u0);
        assert forall|u2: Seq<char>| m.contains_key(u2) && m[u2] == p implies text_order(u0, u2) != Rank::Greater by {
            assert(m.contains_key(u2));
            let j = choose|j: int| 0 <= j < r.len() && r[j].0@ == m[u2] && text_order(r[j].1@, u2) != Rank::Greater;
            if j != i {
                if j < i {
                    assert(r[j].0@ != r[i].0@);
                } else {
                    assert(r[i].0@ != r[j].0@);
                }
            }
        }
        let c = choose|u: Seq<char>|
            m.contains_key(u) && m[u] == p && forall|u2: Seq<char>|
                m.contains_key(u2) && m[u2] == p ==> text_order(u, u2) != Rank::Greater;
        assert(m.contains_key(c) && m[c] == p && forall|u2: Seq<char>|
            m.contains_key(u2) && m[u2] == p ==> text_order(c, u2) != Rank::Greater);
        assert(text_order(c, u0) != Rank::Greater);
        assert(text_order(u0, c) != Rank::Greater);
        lemma_text_order_antisymmetric(c, u0);
        assert(dm[p] == c);
    }
    assert(decls_map(r) =~= dm);
}

spec fn emitted_view(e: Emitted) -> EmittedV {
    match e {
        Emitted::DocumentStart => EmittedV::DocumentStart,
        Emitted::Start(tag) => EmittedV::Start {
            name: wn_view(*tag.name),
            declarations: decls_map(tag.declarations@),
            attributes: tag.attributes@.map_values(|p: (WrittenName, String)| (wn_view(p.0), p.1@)),
        },
        Emitted::Text(t) => EmittedV::Text(t@),
        Emitted::End => EmittedV::End,
    }
}

// ---------------------------------------------------------------------------
// Elements
// ---------------------------------------------------------------------------

/// An element to be written: its name, its attributes in name order and the
/// prefixes it declares.
pub struct ElementBuilder {
    pub tag_name: XmlName,
    pub attributes: Vec<(XmlName, String)>,
    pub new_prefixes: Prefixes,
}

impl ElementBuilder {
    pub open spec fn wf(&self) -> bool {
        attrs_sorted(self.attributes@) && self.new_prefixes.wf()
    }

    /// An element with a name, no attributes and no declarations.
    pub fn new(tag_name: XmlName) -> (r: ElementBuilder)
        ensures
            r.wf(),
            r.tag_name == tag_name,
            r.attributes@.len() == 0,
            r.new_prefixes.map() == Map::<Seq<char>, Seq<char>>::empty(),
    {
        ElementBuilder { tag_name, attributes: Vec::new(), new_prefixes: Prefixes::new() }
    }

    /// Sets an attribute.
    pub fn attr(self, name: XmlName, value: String) -> (r: ElementBuilder)
        requires
            self.wf(),
        ensures
            r.wf(),
            r.tag_name == self.tag_name,
            attr_map(r.attributes@) == attr_map(self.attributes@).insert(name_key(name), value@),
            r.new_prefixes == self.new_prefixes,
            (forall|j: int|
                0 <= j < self.attributes@.len() ==> name_order(name_key(#[trigger] self.attributes@[j].0), name_key(name))
                    == Rank::Less) ==> r.attributes@ == self.attributes@.push((name, value)),
    {
        let mut b = self;
        insert_attr(&mut b.attributes, name, value);
        b
    }

    /// Declares a prefix for a namespace.
    pub fn prefix(self, prefix: &str, uri: &str) -> (r: ElementBuilder)
        requires
            self.wf(),
        ensures
            r.wf(),
            r.tag_name == self.tag_name,
            r.attributes == self.attributes,
            r.new_prefixes.map() == self.new_prefixes.map().insert(uri@, prefix@),
    {
        let mut b = self;
        b.new_prefixes.insert(uri, prefix);
        b
    }
}

/// The prefixes an element declares once the namespaces of its attributes, in
/// order, have prefixes; `None` when one of them cannot get one.
pub open spec fn attrs_declared(
    previous: Map<Seq<char>, Seq<char>>,
    new: Map<Seq<char>, Seq<char>>,
    attrs: Seq<(XmlName, String)>,
) -> Option<Map<Seq<char>, Seq<char>>>
    decreases attrs.len(),
{
    if attrs.len() == 0 {
        Some(new)
    } else {
        match attrs[0].0.namespace {
            Some(ns) => match ensure_spec(previous, new, ns@, false) {
                Some(n) => attrs_declared(previous, n, attrs.drop_first()),
                None => None,
            },
            None => attrs_declared(previous, new, attrs.drop_first()),
        }
    }
}

/// The prefixes an element declares: those it was given, its own namespace as the
/// default one unless it has a prefix, and a letter for each namespace of its
/// attributes that has none. `None` when the letters run out.
pub open spec fn declared_spec(known: Map<Seq<char>, Seq<char>>, b: ElementBuilder) -> Option<Map<Seq<char>, Seq<char>>> {
    let after_tag = match b.tag_name.namespace {
        Some(ns) => ensure_spec(known, b.new_prefixes.map(), ns@, true),
        None => Some(b.new_prefixes.map()),
    };
    match after_tag {
        Some(n) => attrs_declared(known, n, b.attributes@),
        None => None,
    }
}

/// A name with the prefix its namespace has; the default namespace has none.
pub open spec fn written_name_spec(known: Map<Seq<char>, Seq<char>>, n: XmlName, w: WrittenName) -> bool {
    &&& w.local_name@ == n.local_name@
    &&& match n.namespace {
        Some(ns) => w.namespace matches Some(wn) && wn@ == ns@ && if known[ns@].len() == 0 {
            w.prefix is None
        } else {
            w.prefix matches Some(p) && p@ == known[ns@]
        },
        None => w.namespace is None && w.prefix is None,
    }
}

/// The name of an element or attribute as written.
fn to_name(known: &Prefixes, n: &XmlName) -> (r: WrittenName)
    requires
        known.wf(),
        n.namespace matches Some(ns) ==> known.map().contains_key(ns@),
    ensures
        written_name_spec(known.map(), *n, r),
{
    match &n.namespace {
        Some(ns) => {
            let p = known.get(ns.as_str());
            let prefix = match p {
                Some(p) => if p.as_str().is_empty() {
                    None
                } else {
                    Some(p)
                },
                None => None,
            };
            WrittenName { prefix, namespace: Some(ns.clone()), local_name: n.local_name.clone() }
        },
        None => WrittenName { prefix: None, namespace: None, local_name: n.local_name.clone() },
    }
}

/// The namespace declarations of a start tag by prefix: where two namespaces
/// have the same prefix, the first in text order.
fn declarations(new: &Prefixes) -> (r: Vec<(String, String)>)
    requires
        new.wf(),
    ensures
        forall|i: int, j: int| 0 <= i < j < r@.len() ==> r@[i].0@ != r@[j].0@,
        forall|i: int|
            0 <= i < r@.len() ==> new.map().contains_key(#[trigger] r@[i].1@) && new.map()[r@[i].1@]
                == r@[i].0@,
        forall|u: Seq<char>|
            #[trigger] new.map().contains_key(u) ==> exists|i: int|
                0 <= i < r@.len() && r@[i].0@ == new.map()[u] && text_order(r@[i].1@, u)
                    != Rank::Greater,
{
    proof {
        lemma_entries_map(*new);
    }
    let mut out: Vec<(String, String)> = Vec::new();
    let mut i: usize = 0;
    while i < new.entries.len()
        invariant
            i <= new.entries.len(),
            new.wf(),
            forall|a: int, b: int| 0 <= a < b < out@.len() ==> out@[a].0@ != out@[b].0@,
            forall|a: int|
                0 <= a < out@.len() ==> new.map().contains_key(#[trigger] out@[a].1@) && new.map()[out@[a].1@]
                    == out@[a].0@,
            forall|j: int|
                0 <= j < i ==> exists|a: int|
                    0 <= a < out@.len() && out@[a].0@ == (#[trigger] new.entries@[j]).1@ && text_order(
                        out@[a].1@,
                        new.entries@[j].0@,
                    ) != Rank::Greater,
        decreases new.entries.len() - i,
    {
        let uri = &new.entries[i].0;
        let prefix = &new.entries[i].1;
        proof {
            assert(new.has_ns(uri@));
            let c = choose|j: int| 0 <= j < new.entries.len() && new.entries@[j].0@ == uri@;
            if c < i {
                assert(new.entries@[c].0@ != new.entries@[i as int].0@);
            } else if c > i {
                assert(new.entries@[i as int].0@ != new.entries@[c].0@);
            }
        }
        let pc = to_chars(prefix.as_str());
        let mut j: usize = 0;
        let mut found: Option<usize> = None;
        while j < out.len()
            invariant
                j <= out.len(),
                pc@ == prefix@,
                found matches Some(k) ==> k < out.len() && out@[k as int].0@ == prefix@,
                found is None ==> forall|a: int| 0 <= a < j ==> out@[a].0@ != prefix@,
            decreases out.len() - j,
        {
            let oc = to_chars(out[j].0.as_str());
            if found.is_none() && crate::text::chars_eq(oc.as_slice(), pc.as_slice()) {
                found = Some(j);
            }
            j = j + 1;
        }
        let ghost before = out@;
        let ghost ei = new.entries@[i as int];
        proof {
            lemma_text_order_reflexive(uri@);
        }
        match found {
            Some(k) => {
                let a = to_chars(uri.as_str());
                let b = to_chars(out[k].1.as_str());
                if text_rank(a.as_slice(), b.as_slice()) == Rank::Less {
                    out.set(k, (prefix.clone(), uri.clone()));
                    proof {
                        assert forall|x: int, y: int| 0 <= x < y < out@.len() implies out@[x].0@ != out@[y].0@ by {
                            assert(before[x].0@ == out@[x].0@);
                            assert(before[y].0@ == out@[y].0@);
                        }
                        assert forall|j: int| 0 <= j < i + 1 implies exists|a: int|
                            0 <= a < out@.len() && out@[a].0@ == (#[trigger] new.entries@[j]).1@ && text_order(
                                out@[a].1@,
                                new.entries@[j].0@,
                            ) != Rank::Greater by {
                            if j == i {
                                assert(out@[k as int].0@ == new.entries@[j].1@);
                            } else {
                                let w = choose|a: int|
                                    0 <= a < before.len() && before[a].0@ == new.entries@[j].1@
                                        && text_order(before[a].1@, new.entries@[j].0@) != Rank::Greater;
                                if w == k {
                                    lemma_text_order_transitive(uri@, before[w].1@, new.entries@[j].0@);
                                    assert(out@[w].0@ == new.entries@[j].1@);
                                } else {
                                    assert(out@[w] == before[w]);
                                }
                            }
                        }
                    }
                } else {
                    proof {
                        lemma_text_order_antisymmetric(uri@, before[k as int].1@);
                        assert forall|j: int| 0 <= j < i + 1 implies exists|a: int|
                            0 <= a < out@.len() && out@[a].0@ == (#[trigger] new.entries@[j]).1@ && text_order(
                                out@[a].1@,
                                new.entries@[j].0@,
                            ) != Rank::Greater by {
                            if j == i {
                                assert(out@[k as int].0@ == new.entries@[j].1@);
                            }
                        }
                    }
                }
            },
            None => {
                out.push((prefix.clone(), uri.clone()));
                proof {
                    assert forall|j: int| 0 <= j < i + 1 implies exists|a: int|
                        0 <= a < out@.len() && out@[a].0@ == (#[trigger] new.entries@[j]).1@ && text_order(
                            out@[a].1@,
                            new.entries@[j].0@,
                        ) != Rank::Greater by {
                        if j == i {
                            assert(out@[before.len() as int].0@ == new.entries@[j].1@);
                        } else {
                            let w = choose|a: int|
                                0 <= a < before.len() && before[a].0@ == new.entries@[j].1@
                                    && text_order(before[a].1@, new.entries@[j].0@) != Rank::Greater;
                            assert(out@[w] == before[w]);
                        }
                    }
                }
            },
        }
        i = i + 1;
    }
    out
}


/// Making sure a namespace has a prefix keeps the declarations made, and leaves
/// the namespace with a prefix in scope or declared.
proof fn lemma_ensure_spec(previous: Map<Seq<char>, Seq<char>>, new: Map<Seq<char>, Seq<char>>, ns: Seq<char>, is_element: bool)
    requires
        ensure_spec(previous, new, ns, is_element) is Some,
    ensures
        ({
            let m = ensure_spec(previous, new, ns, is_element)->Some_0;
            &&& forall|k: Seq<char>| new.contains_key(k) ==> #[trigger] m.contains_key(k)
            &&& previous.contains_key(ns) || m.contains_key(ns)
        }),
{
}

/// The declarations made for an element's attributes keep those made before,
/// and leave each attribute's namespace with a prefix in scope or declared.
proof fn lemma_attrs_declared(previous: Map<Seq<char>, Seq<char>>, new: Map<Seq<char>, Seq<char>>, attrs: Seq<(XmlName, String)>)
    requires
        attrs_declared(previous, new, attrs) is Some,
    ensures
        ({
            let d = attrs_declared(previous, new, attrs)->Some_0;
            &&& forall|k: Seq<char>| new.contains_key(k) ==> #[trigger] d.contains_key(k)
            &&& forall|a: int|
                0 <= a < attrs.len() ==> ((#[trigger] attrs[a]).0.namespace matches Some(ns) ==> (
                previous.contains_key(ns@) || d.contains_key(ns@)))
        }),
    decreases attrs.len(),
{
    if attrs.len() > 0 {
        let rest = attrs.drop_first();
        let next = match attrs[0].0.namespace {
            Some(ns) => ensure_spec(previous, new, ns@, false)->Some_0,
            None => new,
        };
        if let Some(ns) = attrs[0].0.namespace {
            lemma_ensure_spec(previous, new, ns@, false);
        }
        lemma_attrs_declared(previous, next, rest);
        let d = attrs_declared(previous, new, attrs)->Some_0;
        assert forall|a: int|
            0 <= a < attrs.len() implies ((#[trigger] attrs[a]).0.namespace matches Some(ns) ==> (
            previous.contains_key(ns@) || d.contains_key(ns@))) by {
            if a > 0 {
                assert(rest[a - 1] == attrs[a]);
            }
        }
    }
}

// ---------------------------------------------------------------------------
// The writer
// ---------------------------------------------------------------------------

/// A document being written: the XML writer, the prefixes in scope, and what it
/// has been asked to write.
pub struct XmlWriter {
    sink: xml::writer::EventWriter<Vec<u8>>,
    known: Prefixes,
    written: Ghost<Seq<Written>>,
}

impl XmlWriter {
    pub closed spec fn wf(&self) -> bool {
        &&& self.known.wf()
        &&& document_started(self.sink)
        &&& emitted_events(self.sink) == document_events(self.written@)
    }

    /// How many elements are open.
    pub closed spec fn depth(&self) -> nat {
        open_elements(self.sink).len()
    }

    /// The prefix of each namespace in scope.
    pub closed spec fn known(&self) -> Map<Seq<char>, Seq<char>> {
        self.known.map()
    }

    /// What the writer has been asked to write.
    pub closed spec fn log(&self) -> Seq<Written> {
        self.written@
    }

    /// Starts a document: the XML declaration is written, no prefix is in scope.
    pub fn new() -> (r: Result<XmlWriter, WriterError>)
        ensures
            r matches Ok(w) && w.wf() && w.known() == Map::<Seq<char>, Seq<char>>::empty()
                && w.log().len() == 0 && w.depth() == 0,
    {
        let mut sink = new_event_writer();
        match emit(&mut sink, Emitted::DocumentStart) {
            Ok(()) => {
                proof {
                    assert(document_events(Seq::empty()) =~= seq![EmittedV::DocumentStart]);
                    assert(emitted_events(sink) =~= seq![EmittedV::DocumentStart]);
                }
                Ok(XmlWriter { sink, known: Prefixes::new(), written: Ghost(Seq::empty()) })
            },
            Err(message) => Err(WriterError::Xml { message }),
        }
    }

    /// The document: the bytes the XML writer makes of its declaration and of what
    /// this writer was asked to write.
    pub fn finish(self) -> (r: Vec<u8>)
        requires
            self.wf(),
        ensures
            r@ == document_bytes(document_events(self.log())),
    {
        written_bytes(self.sink)
    }

    /// An element in a namespace.
    pub fn element_ns(&self, tag_name: XmlName) -> (r: ElementBuilder)
        ensures
            r.wf(),
            r.tag_name == tag_name,
            r.attributes@.len() == 0,
            r.new_prefixes.map() == Map::<Seq<char>, Seq<char>>::empty(),
    {
        ElementBuilder::new(tag_name)
    }

    /// An element in the default namespace, which there must be.
    pub fn element(&self, local_name: &str) -> (r: ElementBuilder)
        requires
            self.wf(),
            has_default(self.known()),
        ensures
            r.wf(),
            name_key(r.tag_name) == (Some(default_of(self.known())), local_name@),
            is_default_in(self.known(), default_of(self.known())),
            r.attributes@.len() == 0,
            r.new_prefixes.map() == Map::<Seq<char>, Seq<char>>::empty(),
    {
        let ns = default_namespace(&self.known);
        proof {
            if ns is None {
                assert(false);
            }
        }
        let ns = match ns {
            Some(n) => n,
            None => String::new(),
        };
        proof {
            let d = default_of(self.known());
            assert(is_default_in(self.known(), ns@));
            assert(is_default_in(self.known(), d));
            lemma_default_unique(self.known(), ns@, d);
        }
        ElementBuilder::new(XmlName { namespace: Some(ns), local_name: local_name.to_owned() })
    }

    /// Opens an element: its namespaces get prefixes, which come into scope, and
    /// its start tag is written. The prefixes in scope before are returned, to be
    /// given back when it closes.
    pub fn start(&mut self, b: ElementBuilder) -> (r: Result<Prefixes, WriterError>)
        requires
            old(self).wf(),
            b.wf(),
            declared_spec(old(self).known(), b) is Some,
        ensures
            final(self).wf(),
            final(self).known() == old(self).known().union_prefer_right(
                declared_spec(old(self).known(), b)->Some_0,
            ),
            final(self).depth() == old(self).depth() + 1,
            r matches Ok(previous) && previous.wf() && previous.map() == old(self).known()
                && final(self).log() == old(self).log().push(opened(old(self).known(), b)),
    {
        let previous = self.known.copied();
        let ghost known0 = self.known.map();
        let ghost d = declared_spec(known0, b);
        let ElementBuilder { tag_name, attributes, new_prefixes } = b;
        let mut new_prefixes = new_prefixes;
        match &tag_name.namespace {
            Some(ns) => ensure_prefix(&previous, &mut new_prefixes, ns.as_str(), true),
            None => {},
        }
        let mut i: usize = 0;
        proof {
            assert(attributes@.skip(0) =~= attributes@);
        }
        while i < attributes.len()
            invariant
                i <= attributes.len(),
                new_prefixes.wf(),
                previous.wf(),
                previous.map() == known0,
                attrs_declared(known0, new_prefixes.map(), attributes@.skip(i as int)) == d,
                d is Some,
            decreases attributes.len() - i,
        {
            proof {
                assert(attributes@.skip(i as int)[0] == attributes@[i as int]);
                assert(attributes@.skip(i as int).drop_first() =~= attributes@.skip(i + 1));
            }
            match &attributes[i].0.namespace {
                Some(ns) => ensure_prefix(&previous, &mut new_prefixes, ns.as_str(), false),
                None => {},
            }
            i = i + 1;
        }
        proof {
            assert(attributes@.skip(i as int) =~= Seq::<(XmlName, String)>::empty());
            lemma_entries_map(new_prefixes);
            assert(new_prefixes.map() == d->Some_0);
        }
        let mut k: usize = 0;
        while k < new_prefixes.entries.len()
            invariant
                k <= new_prefixes.entries.len(),
                self.known.wf(),
                self.written@ == old(self).written@,
                self.sink == old(self).sink,
                self.known.map() == known0.union_prefer_right(entries_map(new_prefixes.entries@.take(k as int))),
            decreases new_prefixes.entries.len() - k,
        {
            proof {
                assert(new_prefixes.entries@.take(k + 1).drop_last() =~= new_prefixes.entries@.take(k as int));
                assert(new_prefixes.entries@.take(k + 1).last() == new_prefixes.entries@[k as int]);
            }
            self.known.insert(new_prefixes.entries[k].0.as_str(), new_prefixes.entries[k].1.as_str());
            proof {
                assert(self.known.map() =~= known0.union_prefer_right(
                    entries_map(new_prefixes.entries@.take(k + 1)),
                ));
            }
            k = k + 1;
        }
        proof {
            assert(new_prefixes.entries@.take(k as int) =~= new_prefixes.entries@);
        }
        proof {
            let dd = d->Some_0;
            let after_tag = match &tag_name.namespace {
                Some(ns) => ensure_spec(known0, b.new_prefixes.map(), ns@, true),
                None => Some(b.new_prefixes.map()),
            };
            lemma_attrs_declared(known0, after_tag->Some_0, attributes@);
            if let Some(ns) = &tag_name.namespace {
                lemma_ensure_spec(known0, b.new_prefixes.map(), ns@, true);
            }
            assert(self.known.map() == known0.union_prefer_right(dd));
        }
        let name = to_name(&self.known, &tag_name);
        let decls = declarations(&new_prefixes);
        let ghost ka = self.known.map();
        let mut names: Vec<(WrittenName, String)> = Vec::new();
        let mut j: usize = 0;
        while j < attributes.len()
            invariant
                j <= attributes.len(),
                self.known.wf(),
                self.known.map() == ka,
                names@.len() == j,
                forall|a: int|
                    0 <= a < attributes@.len() ==> ((#[trigger] attributes@[a]).0.namespace matches Some(ns)
                        ==> self.known.map().contains_key(ns@)),
                forall|a: int|
                    0 <= a < j ==> wn_view((#[trigger] names@[a]).0) == written_view(ka, name_key(attributes@[a].0))
                        && names@[a].1@ == attributes@[a].1@,
            decreases attributes.len() - j,
        {
            let n = to_name(&self.known, &attributes[j].0);
            proof {
                lemma_written_name(ka, attributes@[j as int].0, n);
            }
            names.push((n, attributes[j].1.clone()));
            j = j + 1;
        }
        proof {
            lemma_written_name(ka, tag_name, name);
            lemma_declarations(new_prefixes.map(), decls@);
            assert(names@.map_values(|p: (WrittenName, String)| (wn_view(p.0), p.1@)) =~= attributes@.map_values(
                |p: (XmlName, String)| (written_view(ka, name_key(p.0)), p.1@),
            ));
        }
        let event = start_event(&name, &decls, &names);
        match emit(&mut self.sink, Emitted::Start(event)) {
            Ok(()) => {
                let ghost w = Written::Open {
                    name: written_view(ka, name_key(tag_name)),
                    attributes: attributes@.map_values(|p: (XmlName, String)| (written_view(ka, name_key(p.0)), p.1@)),
                    declared: new_prefixes.map(),
                };
                proof {
                    lemma_document_events_push(self.written@, w);
                }
                self.written = Ghost(self.written@.push(w));
                Ok(previous)
            },
            Err(message) => Err(WriterError::Xml { message }),
        }
    }
}


impl XmlWriter {
    /// Closes the open element: its end tag is written and the prefixes in scope
    /// before it opened come back.
    pub fn end(&mut self, previous: Prefixes) -> (r: Result<(), WriterError>)
        requires
            old(self).wf(),
            previous.wf(),
        ensures
            final(self).wf(),
            final(self).known() == previous.map(),
            r is Ok <==> old(self).depth() > 0,
            r is Ok ==> final(self).log() == old(self).log().push(Written::Close)
                && final(self).depth() == old(self).depth() - 1,
            r is Err ==> final(self).log() == old(self).log() && final(self).depth() == old(self).depth(),
    {
        let result = emit(&mut self.sink, Emitted::End);
        self.known = previous;
        match result {
            Ok(()) => {
                proof {
                    lemma_document_events_push(self.written@, Written::Close);
                }
                self.written = Ghost(self.written@.push(Written::Close));
                Ok(())
            },
            Err(message) => Err(WriterError::Xml { message }),
        }
    }

    /// Writes text.
    pub fn text(&mut self, text: &str) -> (r: Result<(), WriterError>)
        requires
            old(self).wf(),
        ensures
            final(self).wf(),
            final(self).known() == old(self).known(),
            final(self).depth() == old(self).depth(),
            r is Ok,
            final(self).log() == old(self).log().push(Written::Text(text@)),
    {
        match emit(&mut self.sink, Emitted::Text(text)) {
            Ok(()) => {
                proof {
                    lemma_document_events_push(self.written@, Written::Text(text@));
                }
                self.written = Ghost(self.written@.push(Written::Text(text@)));
                Ok(())
            },
            Err(message) => Err(WriterError::Xml { message }),
        }
    }

    /// Writes an element holding only text.
    pub fn text_element(&mut self, b: ElementBuilder, text: &str) -> (r: Result<(), WriterError>)
        requires
            old(self).wf(),
            b.wf(),
            declared_spec(old(self).known(), b) is Some,
        ensures
            final(self).wf(),
            r is Ok,
            final(self).known() == old(self).known(),
            final(self).depth() == old(self).depth(),
            final(self).log() == old(self).log() + seq![
                opened(old(self).known(), b),
                Written::Text(text@),
                Written::Close,
            ],
    {
        let previous = match self.start(b) {
            Ok(p) => p,
            Err(e) => {
                return Err(e);
            },
        };
        match self.text(text) {
            Ok(()) => {},
            Err(e) => {
                return Err(e);
            },
        }
        let r = self.end(previous);
        proof {
            if r is Ok {
                assert(self.log() =~= old(self).log() + seq![
                    opened(old(self).known(), b),
                    Written::Text(text@),
                    Written::Close,
                ]);
            }
        }
        r
    }

    /// Writes an empty element.
    pub fn empty_element(&mut self, b: ElementBuilder) -> (r: Result<(), WriterError>)
        requires
            old(self).wf(),
            b.wf(),
            declared_spec(old(self).known(), b) is Some,
        ensures
            final(self).wf(),
            r is Ok,
            final(self).known() == old(self).known(),
            final(self).depth() == old(self).depth(),
            final(self).log() == old(self).log() + seq![opened(old(self).known(), b), Written::Close],
    {
        let previous = match self.start(b) {
            Ok(p) => p,
            Err(e) => {
                return Err(e);
            },
        };
        let r = self.end(previous);
        proof {
            if r is Ok {
                assert(self.log() =~= old(self).log() + seq![opened(old(self).known(), b), Written::Close]);
            }
        }
        r
    }
}

/// What opening an element with some prefixes in scope writes.
pub open spec fn opened(known: Map<Seq<char>, Seq<char>>, b: ElementBuilder) -> Written {
    let d = declared_spec(known, b)->Some_0;
    let ka = known.union_prefer_right(d);
    Written::Open {
        name: written_view(ka, name_key(b.tag_name)),
        attributes: b.attributes@.map_values(|p: (XmlName, String)| (written_view(ka, name_key(p.0)), p.1@)),
        declared: d,
    }
}


// ---------------------------------------------------------------------------
// Elements without attribute namespaces or declared prefixes
// ---------------------------------------------------------------------------

/// What an element declares when it declares nothing itself and its attributes
/// have no namespace: its own namespace as the default one, unless it has a
/// prefix in scope.
pub open spec fn plain_declared(known: Map<Seq<char>, Seq<char>>, ns: Option<Seq<char>>) -> Map<Seq<char>, Seq<char>> {
    match ns {
        Some(n) => if known.contains_key(n) {
            Map::empty()
        } else {
            Map::empty().insert(n, Seq::empty())
        },
        None => Map::empty(),
    }
}

/// Opening such an element, with its attributes as written.
pub open spec fn open_plain(
    known: Map<Seq<char>, Seq<char>>,
    name: (Option<Seq<char>>, Seq<char>),
    attributes: Seq<(NameV, Seq<char>)>,
) -> Written {
    let d = plain_declared(known, name.0);
    Written::Open { name: written_view(known.union_prefer_right(d), name), attributes, declared: d }
}

/// Attributes without a namespace as written.
pub open spec fn plain_attrs(attrs: Seq<(XmlName, String)>) -> Seq<(NameV, Seq<char>)> {
    attrs.map_values(|p: (XmlName, String)| ((None, None, p.0.local_name@), p.1@))
}

/// An element of the default namespace with no attributes, declaring nothing.
pub open spec fn open_default(ns: Seq<char>, local: Seq<char>) -> Written {
    Written::Open { name: (None, Some(ns), local), attributes: Seq::empty(), declared: Map::empty() }
}

/// No attribute has a namespace.
pub open spec fn attrs_plain(attrs: Seq<(XmlName, String)>) -> bool {
    forall|i: int| 0 <= i < attrs.len() ==> (#[trigger] attrs[i]).0.namespace is None
}

proof fn lemma_attrs_plain(previous: Map<Seq<char>, Seq<char>>, new: Map<Seq<char>, Seq<char>>, attrs: Seq<(XmlName, String)>)
    requires
        attrs_plain(attrs),
    ensures
        attrs_declared(previous, new, attrs) == Some(new),
    decreases attrs.len(),
{
    if attrs.len() > 0 {
        assert(attrs[0].0.namespace is None);
        let rest = attrs.drop_first();
        assert forall|i: int| 0 <= i < rest.len() implies (#[trigger] rest[i]).0.namespace is None by {
            assert(rest[i] == attrs[i + 1]);
        }
        lemma_attrs_plain(previous, new, rest);
    }
}

/// An element whose attributes have no namespace declares what it was given and
/// its own namespace as the default one, unless that has a prefix.
pub proof fn lemma_attrs_plain_declared(known: Map<Seq<char>, Seq<char>>, b: ElementBuilder)
    requires
        attrs_plain(b.attributes@),
    ensures
        declared_spec(known, b) == match b.tag_name.namespace {
            Some(ns) => ensure_spec(known, b.new_prefixes.map(), ns@, true),
            None => Some(b.new_prefixes.map()),
        },
{
    let after = match b.tag_name.namespace {
        Some(ns) => ensure_spec(known, b.new_prefixes.map(), ns@, true),
        None => Some(b.new_prefixes.map()),
    };
    lemma_attrs_plain(known, after->Some_0, b.attributes@);
}

/// An element that declares nothing itself and whose attributes have no
/// namespace is opened as `open_plain` says.
pub proof fn lemma_open_plain(known: Map<Seq<char>, Seq<char>>, b: ElementBuilder)
    requires
        b.new_prefixes.map() == Map::<Seq<char>, Seq<char>>::empty(),
        attrs_plain(b.attributes@),
    ensures
        declared_spec(known, b) == Some(plain_declared(known, name_key(b.tag_name).0)),
        opened(known, b) == open_plain(known, name_key(b.tag_name), plain_attrs(b.attributes@)),
        known.union_prefer_right(plain_declared(known, name_key(b.tag_name).0)) == match name_key(b.tag_name).0 {
            Some(n) => if known.contains_key(n) {
                known
            } else {
                known.insert(n, Seq::empty())
            },
            None => known,
        },
{
    let after = match b.tag_name.namespace {
        Some(ns) => ensure_spec(known, b.new_prefixes.map(), ns@, true),
        None => Some(b.new_prefixes.map()),
    };
    lemma_attrs_plain(known, after->Some_0, b.attributes@);
    let ka = known.union_prefer_right(plain_declared(known, name_key(b.tag_name).0));
    assert(b.attributes@.map_values(|p: (XmlName, String)| (written_view(ka, name_key(p.0)), p.1@)) =~= plain_attrs(
        b.attributes@,
    )) by {
        assert forall|i: int| 0 <= i < b.attributes@.len() implies (#[trigger] b.attributes@[i]).0.namespace is None by {
        }
    }
    let n = name_key(b.tag_name).0;
    if let Some(x) = n {
        if known.contains_key(x) {
            assert(known.union_prefer_right(plain_declared(known, n)) =~= known);
        } else {
            assert(known.union_prefer_right(plain_declared(known, n)) =~= known.insert(x, Seq::empty()));
        }
    } else {
        assert(known.union_prefer_right(plain_declared(known, n)) =~= known);
    }
}

/// A child of the default namespace with no attributes is written without a
/// prefix and declares nothing.
proof fn lemma_open_default(known: Map<Seq<char>, Seq<char>>, b: ElementBuilder)
    requires
        is_default_in(known, default_of(known)),
        name_key(b.tag_name) == (Some(default_of(known)), b.tag_name.local_name@),
        b.attributes@.len() == 0,
    ensures
        open_plain(known, name_key(b.tag_name), plain_attrs(b.attributes@)) == open_default(
            default_of(known),
            b.tag_name.local_name@,
        ),
{
    let d = default_of(known);
    assert(plain_declared(known, Some(d)) =~= Map::<Seq<char>, Seq<char>>::empty());
    assert(known.union_prefer_right(Map::<Seq<char>, Seq<char>>::empty()) =~= known);
    assert(plain_attrs(b.attributes@) =~= Seq::empty());
}

impl XmlWriter {
    /// Writes a child element in the default namespace holding only text.
    pub fn text_child(&mut self, local_name: &str, text: &str) -> (r: Result<(), WriterError>)
        requires
            old(self).wf(),
            has_default(old(self).known()),
        ensures
            final(self).wf(),
            is_default_in(old(self).known(), default_of(old(self).known())),
            r is Ok,
            final(self).known() == old(self).known(),
            final(self).depth() == old(self).depth(),
            final(self).log() == old(self).log() + seq![
                open_default(default_of(old(self).known()), local_name@),
                Written::Text(text@),
                Written::Close,
            ],
    {
        let b = self.element(local_name);
        proof {
            lemma_open_plain(self.known(), b);
            lemma_open_default(self.known(), b);
        }
        self.text_element(b, text)
    }

    /// Writes a child element in a namespace holding only text.
    pub fn text_child_ns(&mut self, namespace: &str, local_name: &str, text: &str) -> (r: Result<(), WriterError>)
        requires
            old(self).wf(),
        ensures
            final(self).wf(),
            r is Ok,
            final(self).known() == old(self).known(),
            final(self).depth() == old(self).depth(),
            final(self).log() == old(self).log() + seq![
                open_plain(old(self).known(), (Some(namespace@), local_name@), Seq::empty()),
                Written::Text(text@),
                Written::Close,
            ],
    {
        let b = self.element_ns(XmlName::qualified(namespace, local_name));
        proof {
            lemma_open_plain(self.known(), b);
            assert(plain_attrs(b.attributes@) =~= Seq::empty());
        }
        self.text_element(b, text)
    }

    /// Opens a child element in the default namespace.
    pub fn open_child(&mut self, local_name: &str) -> (r: Result<Prefixes, WriterError>)
        requires
            old(self).wf(),
            has_default(old(self).known()),
        ensures
            final(self).wf(),
            final(self).known() == old(self).known(),
            final(self).depth() == old(self).depth() + 1,
            r matches Ok(previous) && previous.wf() && previous.map() == old(self).known() && final(self).log()
                == old(self).log().push(open_default(default_of(old(self).known()), local_name@)),
    {
        let b = self.element(local_name);
        proof {
            lemma_open_plain(self.known(), b);
            lemma_open_default(self.known(), b);
        }
        self.start(b)
    }
}

} // verus!
