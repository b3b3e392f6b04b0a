//! XML names and the namespace prefixes an XML writer declares: which prefix an
//! element or attribute namespace gets, and which namespace is the default.
use vstd::prelude::*;

use crate::profile::{
    flipped, lemma_text_order_antisymmetric, lemma_text_order_reflexive,
    lemma_text_order_transitive, text_order, text_rank, Rank,
};
use crate::text::{chars_eq, push_str, to_chars};

verus! {

/// An XML name: a local name in an optional namespace.
#[derive(Debug, Clone, PartialEq, Eq)]
pub struct XmlName {
    pub namespace: Option<String>,
    pub local_name: String,
}

impl XmlName {
    /// A name in a namespace.
    pub fn qualified(namespace: &str, local_name: &str) -> (r: XmlName)
        ensures
            r.namespace matches Some(n) && n@ == namespace@,
            r.local_name@ == local_name@,
    {
        XmlName { namespace: Some(namespace.to_owned()), local_name: local_name.to_owned() }
    }

    /// A name without a namespace.
    pub fn local(local_name: &str) -> (r: XmlName)
        ensures
            r.namespace is None,
            r.local_name@ == local_name@,
    {
        XmlName { namespace: None, local_name: local_name.to_owned() }
    }

    /// The namespace and local name, for matching.
    pub fn as_ref(&self) -> (r: (Option<&str>, &str))
        ensures
            match self.namespace {
                Some(n) => r.0 matches Some(x) && x@ == n@,
                None => r.0 is None,
            },
            r.1@ == self.local_name@,
    {
        let ns = match &self.namespace {
            Some(n) => Some(n.as_str()),
            None => None,
        };
        (ns, self.local_name.as_str())
    }

    /// The name as text: `<namespace>#<local name>`, or the local name alone.
    pub open spec fn text_spec(&self) -> Seq<char> {
        match self.namespace {
            Some(n) => n@ + "#"@ + self.local_name@,
            None => self.local_name@,
        }
    }

    /// The name as text, as `text_spec` says.
    pub fn text(&self) -> (r: String)
        ensures
            r@ == self.text_spec(),
    {
        let mut s = String::new();
        if let Some(n) = &self.namespace {
            push_str(&mut s, n.as_str());
            push_str(&mut s, "#");
        }
        push_str(&mut s, self.local_name.as_str());
        proof {
            assert(s@ =~= match self.namespace {
                Some(n) => n@ + "#"@ + self.local_name@,
                None => self.local_name@,
            });
        }
        s
    }
}

/// A document held for reading from or writing to an HTTP body.
pub struct Xml<T>(pub T);

impl<T> Xml<T> {
    pub fn new(document: T) -> (r: Xml<T>)
        ensures
            r.0 == document,
    {
        Xml(document)
    }

    pub fn inner(&self) -> (r: &T)
        ensures
            *r == self.0,
    {
        &self.0
    }
}

// ---------------------------------------------------------------------------
// Namespace prefixes
// ---------------------------------------------------------------------------

/// The prefix of each declared namespace; an empty prefix makes the namespace the
/// default one.
pub struct Prefixes {
    pub entries: Vec<(String, String)>,
}

impl Prefixes {
    pub open spec fn wf(&self) -> bool {
        forall|i: int, j: int|
            0 <= i < j < self.entries.len() ==> self.entries@[i].0@ != self.entries@[j].0@
    }

    pub open spec fn has_ns(&self, ns: Seq<char>) -> bool {
        exists|i: int| 0 <= i < self.entries.len() && #[trigger] self.entries@[i].0@ == ns
    }

    pub open spec fn has_prefix(&self, p: Seq<char>) -> bool {
        exists|i: int| 0 <= i < self.entries.len() && #[trigger] self.entries@[i].1@ == p
    }

    /// The prefix of a namespace.
    pub open spec fn prefix_of(&self, ns: Seq<char>) -> Seq<char> {
        self.entries@[choose|i: int| 0 <= i < self.entries.len() && self.entries@[i].0@ == ns].1@
    }

    /// The prefix of each namespace that has one.
    pub open spec fn map(&self) -> Map<Seq<char>, Seq<char>> {
        Map::new(|n: Seq<char>| self.has_ns(n), |n: Seq<char>| self.prefix_of(n))
    }

    pub fn new() -> (r: Prefixes)
        ensures
            r.wf(),
            r.entries.len() == 0,
            r.map() == Map::<Seq<char>, Seq<char>>::empty(),
    {
        let r = Prefixes { entries: Vec::new() };
        proof {
            assert(r.map() =~= Map::<Seq<char>, Seq<char>>::empty());
        }
        r
    }

    fn position(&self, ns: &str) -> (r: Option<usize>)
        ensures
            match r {
                Some(i) => i < self.entries.len() && self.entries@[i as int].0@ == ns@,
                None => !self.has_ns(ns@),
            },
    {
        let target = to_chars(ns);
        let mut i: usize = 0;
        while i < self.entries.len()
            invariant
                i <= self.entries.len(),
                target@ == ns@,
                forall|j: int| 0 <= j < i ==> self.entries@[j].0@ != ns@,
            decreases self.entries.len() - i,
        {
            let k = to_chars(self.entries[i].0.as_str());
            if chars_eq(k.as_slice(), target.as_slice()) {
                return Some(i);
            }
            i = i + 1;
        }
        None
    }

    /// Whether a namespace has a prefix.
    pub fn contains_namespace(&self, ns: &str) -> (r: bool)
        ensures
            r == self.has_ns(ns@),
    {
        self.position(ns).is_some()
    }

    /// The prefix of a namespace, if it has one.
    pub fn get(&self, ns: &str) -> (r: Option<String>)
        requires
            self.wf(),
        ensures
            self.has_ns(ns@) ==> (r matches Some(p) && p@ == self.prefix_of(ns@)),
            !self.has_ns(ns@) ==> r is None,
    {
        match self.position(ns) {
            Some(i) => {
                proof {
                    let c = choose|j: int|
                        0 <= j < self.entries.len() && self.entries@[j].0@ == ns@;
                    assert(c == i);
                }
                Some(self.entries[i].1.clone())
            },
            None => None,
        }
    }

    /// Whether a prefix is in use (`has_new_prefix`).
    pub fn has_new_prefix(&self, prefix: &str) -> (r: bool)
        ensures
            r == self.has_prefix(prefix@),
    {
        let target = to_chars(prefix);
        let mut i: usize = 0;
        while i < self.entries.len()
            invariant
                i <= self.entries.len(),
                target@ == prefix@,
                forall|j: int| 0 <= j < i ==> self.entries@[j].1@ != prefix@,
            decreases self.entries.len() - i,
        {
            let p = to_chars(self.entries[i].1.as_str());
            if chars_eq(p.as_slice(), target.as_slice()) {
                return true;
            }
            i = i + 1;
        }
        false
    }

    /// Declares a prefix for a namespace, replacing any it had.
    pub fn insert(&mut self, ns: &str, prefix: &str)
        requires
            old(self).wf(),
        ensures
            final(self).wf(),
            final(self).has_ns(ns@),
            final(self).prefix_of(ns@) == prefix@,
            others_kept(*old(self), *final(self), ns@),
            final(self).map() == old(self).map().insert(ns@, prefix@),
    {
        self.insert_entry(ns, prefix);
        proof {
            assert(self.map() =~= old(self).map().insert(ns@, prefix@));
        }
    }

    fn insert_entry(&mut self, ns: &str, prefix: &str)
        requires
            old(self).wf(),
        ensures
            final(self).wf(),
            final(self).has_ns(ns@),
            final(self).prefix_of(ns@) == prefix@,
            others_kept(*old(self), *final(self), ns@),
    {
        match self.position(ns) {
            Some(i) => {
                self.entries.set(i, (ns.to_owned(), prefix.to_owned()));
                proof {
                    assert(self.entries@[i as int].0@ == ns@);
                    let c = choose|j: int|
                        0 <= j < self.entries.len() && self.entries@[j].0@ == ns@;
                    assert(c == i);
                    assert forall|n: Seq<char>| n != ns@ implies (self.has_ns(n) == old(
                        self,
                    ).has_ns(n) && (old(self).has_ns(n) ==> self.prefix_of(n) == old(
                        self,
                    ).prefix_of(n))) by {
                        if old(self).has_ns(n) {
                            let j = choose|j: int|
                                0 <= j < old(self).entries.len() && old(self).entries@[j].0@ == n;
                            assert(self.entries@[j].0@ == n);
                            let k = choose|k: int|
                                0 <= k < self.entries.len() && self.entries@[k].0@ == n;
                            assert(k == j);
                        }
                        if self.has_ns(n) {
                            let j = choose|j: int|
                                0 <= j < self.entries.len() && self.entries@[j].0@ == n;
                            assert(old(self).entries@[j].0@ == n);
                        }
                    }
                }
            },
            None => {
                self.entries.push((ns.to_owned(), prefix.to_owned()));
                proof {
                    let last = self.entries.len() - 1;
                    assert(self.entries@[last].0@ == ns@);
                    let c = choose|j: int|
                        0 <= j < self.entries.len() && self.entries@[j].0@ == ns@;
                    assert(c == last);
                    assert forall|n: Seq<char>| n != ns@ implies (self.has_ns(n) == old(
                        self,
                    ).has_ns(n) && (old(self).has_ns(n) ==> self.prefix_of(n) == old(
                        self,
                    ).prefix_of(n))) by {
                        if old(self).has_ns(n) {
                            let j = choose|j: int|
                                0 <= j < old(self).entries.len() && old(self).entries@[j].0@ == n;
                            assert(self.entries@[j].0@ == n);
                            let k = choose|k: int|
                                0 <= k < self.entries.len() && self.entries@[k].0@ == n;
                            assert(k == j);
                        }
                        if self.has_ns(n) {
                            let j = choose|j: int|
                                0 <= j < self.entries.len() && self.entries@[j].0@ == n;
                            if j < last {
                                assert(old(self).entries@[j].0@ == n);
                            }
                        }
                    }
                }
            },
        }
    }
}

impl Prefixes {
    /// The same declarations.
    pub fn copied(&self) -> (r: Prefixes)
        ensures
            r.entries@.len() == self.entries@.len(),
            forall|i: int| 0 <= i < self.entries@.len() ==> #[trigger] r.entries@[i] == self.entries@[i],
            r.wf() == self.wf(),
            r.map() == self.map(),
    {
        let mut entries: Vec<(String, String)> = Vec::new();
        let mut i: usize = 0;
        while i < self.entries.len()
            invariant
                i <= self.entries.len(),
                entries@.len() == i,
                forall|k: int| 0 <= k < i ==> #[trigger] entries@[k] == self.entries@[k],
            decreases self.entries.len() - i,
        {
            let ns = self.entries[i].0.clone();
            let prefix = self.entries[i].1.clone();
            entries.push((ns, prefix));
            i = i + 1;
        }
        let r = Prefixes { entries };
        proof {
            assert(r.entries@ =~= self.entries@);
        }
        r
    }
}

/// What a list of declarations gives each namespace, later ones winning.
pub open spec fn entries_map(s: Seq<(String, String)>) -> Map<Seq<char>, Seq<char>>
    decreases s.len(),
{
    if s.len() == 0 {
        Map::empty()
    } else {
        entries_map(s.drop_last()).insert(s.last().0@, s.last().1@)
    }
}

/// With each namespace declared once, the declarations are the map.
pub proof fn lemma_entries_map(p: Prefixes)
    requires
        p.wf(),
    ensures
        entries_map(p.entries@) == p.map(),
{
    lemma_entries_map_seq(p.entries@);
    assert(entries_map(p.entries@) =~= p.map());
}

/// The map of declarations holds each namespace's declaration.
proof fn lemma_entries_map_seq(s: Seq<(String, String)>)
    requires
        forall|i: int, j: int| 0 <= i < j < s.len() ==> s[i].0@ != s[j].0@,
    ensures
        forall|n: Seq<char>| #[trigger] entries_map(s).contains_key(n) == exists|i: int| 0 <= i < s.len() && s[i].0@ == n,
        forall|i: int| 0 <= i < s.len() ==> entries_map(s)[#[trigger] s[i].0@] == s[i].1@,
    decreases s.len(),
{
    if s.len() > 0 {
        let rest = s.drop_last();
        lemma_entries_map_seq(rest);
        assert forall|n: Seq<char>| #[trigger] entries_map(s).contains_key(n) == exists|i: int|
            0 <= i < s.len() && s[i].0@ == n by {
            if exists|i: int| 0 <= i < s.len() && s[i].0@ == n {
                let i = choose|i: int| 0 <= i < s.len() && s[i].0@ == n;
                if i < s.len() - 1 {
                    assert(rest[i] == s[i]);
                }
            }
            if entries_map(rest).contains_key(n) {
                let i = choose|i: int| 0 <= i < rest.len() && rest[i].0@ == n;
                assert(s[i] == rest[i]);
            }
        }
        assert forall|i: int| 0 <= i < s.len() implies entries_map(s)[#[trigger] s[i].0@] == s[i].1@ by {
            if i < s.len() - 1 {
                assert(rest[i] == s[i]);
                assert(s[i].0@ != s[s.len() - 1].0@);
            }
        }
    }
}

/// Every namespace but `ns` keeps whether it has a prefix, and which.
pub open spec fn others_kept(before: Prefixes, after: Prefixes, ns: Seq<char>) -> bool {
    forall|n: Seq<char>|
        n != ns ==> (after.has_ns(n) == before.has_ns(n) && (before.has_ns(n) ==> after.prefix_of(n)
            == before.prefix_of(n)))
}

/// The letters `a` to `z` as one-letter prefixes.
pub open spec fn letter(i: int) -> Seq<char> {
    seq![((97 + i) as u32) as char]
}

/// Whether some namespace has a prefix.
pub open spec fn uses_prefix(m: Map<Seq<char>, Seq<char>>, p: Seq<char>) -> bool {
    exists|n: Seq<char>| m.contains_key(n) && m[n] == p
}

/// The first letter from `from` on that no namespace has as its prefix, if any.
pub open spec fn first_free_letter(m: Map<Seq<char>, Seq<char>>, from: int) -> Option<int>
    decreases 26 - from,
{
    if from >= 26 || from < 0 {
        None
    } else if !uses_prefix(m, letter(from)) {
        Some(from)
    } else {
        first_free_letter(m, from + 1)
    }
}

/// The prefixes an element declares after making sure a namespace it uses has
/// one: nothing changes when the namespace has a prefix in scope or among those
/// declared; an element's own namespace becomes the default one; an attribute's
/// gets the first free letter. `None` when no letter is free.
pub open spec fn ensure_spec(
    previous: Map<Seq<char>, Seq<char>>,
    new: Map<Seq<char>, Seq<char>>,
    ns: Seq<char>,
    is_element: bool,
) -> Option<Map<Seq<char>, Seq<char>>> {
    if previous.contains_key(ns) || new.contains_key(ns) {
        Some(new)
    } else if is_element {
        Some(new.insert(ns, Seq::empty()))
    } else {
        match first_free_letter(new, 0) {
            Some(i) => Some(new.insert(ns, letter(i))),
            None => None,
        }
    }
}

/// A prefix is in use among the entries exactly when the map gives it to some
/// namespace.
pub proof fn lemma_uses_prefix(p: Prefixes, x: Seq<char>)
    requires
        p.wf(),
    ensures
        p.has_prefix(x) == uses_prefix(p.map(), x),
{
    if p.has_prefix(x) {
        let i = choose|i: int| 0 <= i < p.entries.len() && #[trigger] p.entries@[i].1@ == x;
        let n = p.entries@[i].0@;
        assert(p.has_ns(n));
        let j = choose|j: int| 0 <= j < p.entries.len() && p.entries@[j].0@ == n;
        if j != i {
            if j < i {
                assert(p.entries@[j].0@ != p.entries@[i].0@);
            } else {
                assert(p.entries@[i].0@ != p.entries@[j].0@);
            }
        }
        assert(p.map().contains_key(n) && p.map()[n] == x);
    }
    if uses_prefix(p.map(), x) {
        let n = choose|n: Seq<char>| p.map().contains_key(n) && p.map()[n] == x;
        let j = choose|j: int| 0 <= j < p.entries.len() && p.entries@[j].0@ == n;
        assert(p.entries@[j].1@ == x);
    }
}

fn letter_exec(i: u32) -> (r: String)
    requires
        i < 26,
    ensures
        r@ == letter(i as int),
{
    let code: u8 = 97 + i as u8;
    let mut s = String::new();
    s.push(code as char);
    proof {
        assert(s@ =~= letter(i as int));
    }
    s
}

/// Gives a namespace used in an element a prefix, unless it has one already, in
/// scope or among those the element declares: an element's own namespace becomes
/// the default one, an attribute's gets the first letter from `a` to `z` not
/// already declared by the element. Some letter must still be free for an
/// attribute's namespace.
pub fn ensure_prefix(previous: &Prefixes, new_prefixes: &mut Prefixes, namespace: &str, is_element: bool)
    requires
        old(new_prefixes).wf(),
        ensure_spec(previous.map(), old(new_prefixes).map(), namespace@, is_element) is Some,
    ensures
        final(new_prefixes).wf(),
        Some(final(new_prefixes).map()) == ensure_spec(
            previous.map(),
            old(new_prefixes).map(),
            namespace@,
            is_element,
        ),
{
    if previous.contains_namespace(namespace) || new_prefixes.contains_namespace(namespace) {
        return;
    }
    if is_element {
        new_prefixes.insert(namespace, "");
        proof {
            reveal_strlit("");
            assert(""@ =~= Seq::<char>::empty());
        }
        return;
    }
    let ghost start = *new_prefixes;
    let ghost m = start.map();
    let mut i: u32 = 0;
    while i < 26
        invariant
            i <= 26,
            *new_prefixes == start,
            start == *old(new_prefixes),
            m == start.map(),
            first_free_letter(m, 0) is Some,
            first_free_letter(m, 0) == first_free_letter(m, i as int),
            start.wf(),
            !previous.map().contains_key(namespace@),
            !m.contains_key(namespace@),
            !is_element,
        decreases 26 - i,
    {
        let candidate = letter_exec(i);
        let used = new_prefixes.has_new_prefix(candidate.as_str());
        proof {
            lemma_uses_prefix(start, letter(i as int));
        }
        if !used {
            new_prefixes.insert(namespace, candidate.as_str());
            return;
        }
        i = i + 1;
    }
}

/// The default namespace in scope: the least namespace, in text order, whose
/// prefix is empty.
pub open spec fn is_default_in(m: Map<Seq<char>, Seq<char>>, ns: Seq<char>) -> bool {
    &&& m.contains_key(ns)
    &&& m[ns].len() == 0
    &&& forall|k: Seq<char>|
        m.contains_key(k) && m[k].len() == 0 ==> text_order(ns, k) != Rank::Greater
}

/// Some namespace has the empty prefix.
pub open spec fn has_default(m: Map<Seq<char>, Seq<char>>) -> bool {
    exists|k: Seq<char>| m.contains_key(k) && m[k].len() == 0
}

/// The default namespace, when there is one.
pub open spec fn default_of(m: Map<Seq<char>, Seq<char>>) -> Seq<char> {
    choose|ns: Seq<char>| is_default_in(m, ns)
}

/// There is one default namespace at most.
pub proof fn lemma_default_unique(m: Map<Seq<char>, Seq<char>>, a: Seq<char>, b: Seq<char>)
    requires
        is_default_in(m, a),
        is_default_in(m, b),
    ensures
        a == b,
{
    lemma_text_order_antisymmetric(a, b);
}

/// The namespace of elements created without one.
pub fn default_namespace(p: &Prefixes) -> (r: Option<String>)
    requires
        p.wf(),
    ensures
        match r {
            Some(ns) => is_default_in(p.map(), ns@),
            None => !has_default(p.map()),
        },
{
    let mut best: Option<usize> = None;
    let mut i: usize = 0;
    while i < p.entries.len()
        invariant
            p.wf(),
            i <= p.entries.len(),
            match best {
                Some(b) => b < i && p.entries@[b as int].1@.len() == 0 && forall|j: int|
                    0 <= j < i && p.entries@[j].1@.len() == 0 ==> text_order(
                        p.entries@[b as int].0@,
                        p.entries@[j].0@,
                    ) != Rank::Greater,
                None => forall|j: int| 0 <= j < i ==> p.entries@[j].1@.len() != 0,
            },
        decreases p.entries.len() - i,
    {
        if p.entries[i].1.as_str().is_empty() {
            match best {
                None => {
                    proof {
                        crate::profile::lemma_text_order_reflexive(p.entries@[i as int].0@);
                    }
                    best = Some(i);
                },
                Some(b) => {
                    let x = to_chars(p.entries[i].0.as_str());
                    let y = to_chars(p.entries[b].0.as_str());
                    let o = crate::profile::text_rank(x.as_slice(), y.as_slice());
                    if o == Rank::Less {
                        proof {
                            assert forall|j: int|
                                0 <= j < i + 1 && p.entries@[j].1@.len() == 0 implies text_order(
                                p.entries@[i as int].0@,
                                p.entries@[j].0@,
                            ) != Rank::Greater by {
                                if j < i {
                                    crate::profile::lemma_text_order_transitive(
                                        p.entries@[i as int].0@,
                                        p.entries@[b as int].0@,
                                        p.entries@[j].0@,
                                    );
                                } else {
                                    crate::profile::lemma_text_order_reflexive(
                                        p.entries@[i as int].0@,
                                    );
                                }
                            }
                        }
                        best = Some(i);
                    } else {
                        proof {
                            crate::profile::lemma_text_order_antisymmetric(
                                p.entries@[i as int].0@,
                                p.entries@[b as int].0@,
                            );
                        }
                    }
                },
            }
        }
        i = i + 1;
    }
    match best {
        Some(b) => {
            proof {
                let m = p.map();
                let ns = p.entries@[b as int].0@;
                assert(p.has_ns(ns));
                let c = choose|j: int| 0 <= j < p.entries.len() && p.entries@[j].0@ == ns;
                if c != b {
                    if c < b {
                        assert(p.entries@[c].0@ != p.entries@[b as int].0@);
                    } else {
                        assert(p.entries@[b as int].0@ != p.entries@[c].0@);
                    }
                }
                assert forall|k: Seq<char>| m.contains_key(k) && m[k].len() == 0 implies text_order(
                    ns,
                    k,
                ) != Rank::Greater by {
                    let j = choose|j: int| 0 <= j < p.entries.len() && p.entries@[j].0@ == k;
                    assert(p.entries@[j].1@.len() == 0);
                }
            }
            Some(p.entries[b].0.clone())
        },
        None => {
            proof {
                let m = p.map();
                if has_default(m) {
                    let k = choose|k: Seq<char>| m.contains_key(k) && m[k].len() == 0;
                    let j = choose|j: int| 0 <= j < p.entries.len() && p.entries@[j].0@ == k;
                    assert(p.entries@[j].1@.len() == 0);
                }
            }
            None
        },
    }
}


// ---------------------------------------------------------------------------
// Ordering names and attribute maps
// ---------------------------------------------------------------------------

/// A name as a mathematical value: its namespace and local name.
pub open spec fn name_key(n: XmlName) -> (Option<Seq<char>>, Seq<char>) {
    (
        match n.namespace {
            Some(s) => Some(s@),
            None => None,
        },
        n.local_name@,
    )
}

/// Names in order: no namespace before a namespace, namespaces in text order,
/// then local names in text order.
pub open spec fn name_order(a: (Option<Seq<char>>, Seq<char>), b: (Option<Seq<char>>, Seq<char>)) -> Rank {
    match (a.0, b.0) {
        (None, Some(_)) => Rank::Less,
        (Some(_), None) => Rank::Greater,
        (Some(x), Some(y)) => match text_order(x, y) {
            Rank::Equal => text_order(a.1, b.1),
            r => r,
        },
        (None, None) => text_order(a.1, b.1),
    }
}

pub proof fn lemma_name_order_antisymmetric(a: (Option<Seq<char>>, Seq<char>), b: (Option<Seq<char>>, Seq<char>))
    ensures
        name_order(b, a) == flipped(name_order(a, b)),
        name_order(a, b) == Rank::Equal ==> a == b,
{
    lemma_text_order_antisymmetric(a.1, b.1);
    if let (Some(x), Some(y)) = (a.0, b.0) {
        lemma_text_order_antisymmetric(x, y);
    }
}

pub proof fn lemma_name_order_reflexive(a: (Option<Seq<char>>, Seq<char>))
    ensures
        name_order(a, a) == Rank::Equal,
{
    lemma_text_order_reflexive(a.1);
    if let Some(x) = a.0 {
        lemma_text_order_reflexive(x);
    }
}

pub proof fn lemma_name_order_transitive(
    a: (Option<Seq<char>>, Seq<char>),
    b: (Option<Seq<char>>, Seq<char>),
    c: (Option<Seq<char>>, Seq<char>),
)
    requires
        name_order(a, b) == Rank::Less,
        name_order(b, c) == Rank::Less,
    ensures
        name_order(a, c) == Rank::Less,
{
    if let (Some(x), Some(y), Some(z)) = (a.0, b.0, c.0) {
        lemma_text_order_antisymmetric(x, y);
        lemma_text_order_antisymmetric(y, z);
        lemma_text_order_antisymmetric(x, z);
        lemma_text_order_transitive(x, y, z);
        if text_order(x, y) == Rank::Equal && text_order(y, z) == Rank::Equal {
            lemma_text_order_antisymmetric(a.1, b.1);
            lemma_text_order_antisymmetric(b.1, c.1);
            lemma_text_order_antisymmetric(a.1, c.1);
            lemma_text_order_transitive(a.1, b.1, c.1);
        } else if text_order(x, y) == Rank::Equal {
            assert(x == y);
        } else if text_order(y, z) == Rank::Equal {
            assert(y == z);
        } else {
            if text_order(x, z) == Rank::Equal {
                assert(x == z);
                lemma_text_order_antisymmetric(y, x);
            }
        }
    } else if a.0 is None && b.0 is None && c.0 is None {
        lemma_text_order_antisymmetric(a.1, b.1);
        lemma_text_order_antisymmetric(b.1, c.1);
        lemma_text_order_antisymmetric(a.1, c.1);
        lemma_text_order_transitive(a.1, b.1, c.1);
    }
}

/// Compares two names, as `name_order` says.
pub fn compare_names(a: &XmlName, b: &XmlName) -> (r: Rank)
    ensures
        r == name_order(name_key(*a), name_key(*b)),
{
    match (&a.namespace, &b.namespace) {
        (None, Some(_)) => Rank::Less,
        (Some(_), None) => Rank::Greater,
        (Some(x), Some(y)) => {
            let xs = to_chars(x.as_str());
            let ys = to_chars(y.as_str());
            match text_rank(xs.as_slice(), ys.as_slice()) {
                Rank::Equal => {
                    let la = to_chars(a.local_name.as_str());
                    let lb = to_chars(b.local_name.as_str());
                    text_rank(la.as_slice(), lb.as_slice())
                },
                r => r,
            }
        },
        (None, None) => {
            let la = to_chars(a.local_name.as_str());
            let lb = to_chars(b.local_name.as_str());
            text_rank(la.as_slice(), lb.as_slice())
        },
    }
}

/// Attributes kept in name order, each name once.
pub open spec fn attrs_sorted(s: Seq<(XmlName, String)>) -> bool {
    forall|i: int, j: int|
        0 <= i < j < s.len() ==> name_order(name_key(s[i].0), name_key(s[j].0)) == Rank::Less
}

/// What a list of attributes maps each name to.
pub open spec fn attr_map(s: Seq<(XmlName, String)>) -> Map<(Option<Seq<char>>, Seq<char>), Seq<char>> {
    Map::new(
        |k: (Option<Seq<char>>, Seq<char>)| exists|i: int| 0 <= i < s.len() && name_key(s[i].0) == k,
        |k: (Option<Seq<char>>, Seq<char>)|
            s[choose|i: int| 0 <= i < s.len() && name_key(s[i].0) == k].1@,
    )
}

/// Sets an attribute, keeping the list in name order: a name already there takes
/// the new value.
pub fn insert_attr(attrs: &mut Vec<(XmlName, String)>, name: XmlName, value: String)
    requires
        attrs_sorted(old(attrs)@),
    ensures
        attrs_sorted(final(attrs)@),
        attr_map(final(attrs)@) == attr_map(old(attrs)@).insert(name_key(name), value@),
        (forall|j: int| 0 <= j < old(attrs)@.len() ==> name_order(name_key(#[trigger] old(attrs)@[j].0), name_key(name))
            == Rank::Less) ==> final(attrs)@ == old(attrs)@.push((name, value)),
{
    let ghost key = name_key(name);
    let ghost val = value@;
    let ghost pair = (name, value);
    let mut i: usize = 0;
    while i < attrs.len()
        invariant
            i <= attrs.len(),
            attrs@ == old(attrs)@,
            attrs_sorted(attrs@),
            key == name_key(name),
            forall|j: int| 0 <= j < i ==> name_order(name_key(#[trigger] attrs@[j].0), key) == Rank::Less,
        ensures
            i <= attrs.len(),
            attrs@ == old(attrs)@,
            forall|j: int| 0 <= j < i ==> name_order(name_key(#[trigger] attrs@[j].0), key) == Rank::Less,
            i < attrs.len() ==> name_order(name_key(attrs@[i as int].0), key) != Rank::Less,
        decreases attrs.len() - i,
    {
        let o = compare_names(&attrs[i].0, &name);
        if o != Rank::Less {
            break;
        }
        i = i + 1;
    }
    let ghost before = attrs@;
    if i < attrs.len() && compare_names(&attrs[i].0, &name) == Rank::Equal {
        proof {
            lemma_name_order_antisymmetric(name_key(before[i as int].0), key);
        }
        attrs.set(i, (name, value));
        proof {
            let after = attrs@;
            assert forall|a: int, b: int| 0 <= a < b < after.len() implies name_order(
                name_key(after[a].0),
                name_key(after[b].0),
            ) == Rank::Less by {
                assert(name_order(name_key(before[a].0), name_key(before[b].0)) == Rank::Less);
            }
            lemma_sorted_keys_unique(before);
            lemma_sorted_keys_unique(after);
            assert forall|k: (Option<Seq<char>>, Seq<char>)| #[trigger] attr_map(after).contains_key(k)
                == attr_map(before).insert(key, val).contains_key(k) by {
                if k != key {
                    if attr_map(before).contains_key(k) {
                        let w = choose|w: int| 0 <= w < before.len() && name_key(before[w].0) == k;
                        assert(after[w] == before[w]);
                    }
                    if attr_map(after).contains_key(k) {
                        let w = choose|w: int| 0 <= w < after.len() && name_key(after[w].0) == k;
                        assert(after[w] == before[w]);
                    }
                } else {
                    assert(name_key(after[i as int].0) == key);
                }
            }
            assert forall|k: (Option<Seq<char>>, Seq<char>)| #[trigger] attr_map(after).contains_key(k)
                implies attr_map(after)[k] == attr_map(before).insert(key, val)[k] by {
                let w = choose|w: int| 0 <= w < after.len() && name_key(after[w].0) == k;
                if k != key {
                    assert(after[w] == before[w]);
                    let v = choose|v: int| 0 <= v < before.len() && name_key(before[v].0) == k;
                    assert(v == w);
                } else {
                    assert(w == i);
                }
            }
            assert(attr_map(after) =~= attr_map(before).insert(key, val));
        }
    } else {
        proof {
            if i < before.len() {
                lemma_name_order_antisymmetric(name_key(before[i as int].0), key);
            }
        }
        attrs.insert(i, (name, value));
        proof {
            let after = attrs@;
            if forall|j: int| 0 <= j < before.len() ==> name_order(name_key(#[trigger] before[j].0), key) == Rank::Less {
                if i < before.len() {
                    assert(name_order(name_key(before[i as int].0), key) == Rank::Less);
                }
                assert(after =~= before.push(pair));
            }
            assert forall|a: int, b: int| 0 <= a < b < after.len() implies name_order(
                name_key(after[a].0),
                name_key(after[b].0),
            ) == Rank::Less by {
                let a0 = if a < i { a } else { a - 1 };
                let b0 = if b <= i { b } else { b - 1 };
                if a < i && b > i {
                    assert(name_order(name_key(before[a0].0), key) == Rank::Less);
                    if b0 > i {
                        assert(name_order(name_key(before[i as int].0), name_key(before[b0].0)) == Rank::Less);
                        lemma_name_order_transitive(key, name_key(before[i as int].0), name_key(before[b0].0));
                    }
                    lemma_name_order_transitive(name_key(before[a0].0), key, name_key(before[b0].0));
                } else if a == i {
                    if b0 > i {
                        assert(name_order(name_key(before[i as int].0), name_key(before[b0].0)) == Rank::Less);
                        lemma_name_order_transitive(key, name_key(before[i as int].0), name_key(before[b0].0));
                    }
                } else if b == i {
                } else {
                    assert(name_order(name_key(before[a0].0), name_key(before[b0].0)) == Rank::Less);
                }
            }
            lemma_sorted_keys_unique(before);
            lemma_sorted_keys_unique(after);
            assert forall|k: (Option<Seq<char>>, Seq<char>)| #[trigger] attr_map(after).contains_key(k)
                == attr_map(before).insert(key, val).contains_key(k) by {
                if attr_map(before).contains_key(k) {
                    let w = choose|w: int| 0 <= w < before.len() && name_key(before[w].0) == k;
                    let w1 = if w < i { w } else { w + 1 };
                    assert(after[w1] == before[w]);
                }
                if attr_map(after).contains_key(k) && k != key {
                    let w = choose|w: int| 0 <= w < after.len() && name_key(after[w].0) == k;
                    let w0 = if w < i { w } else { w - 1 };
                    assert(w != i);
                    assert(after[w] == before[w0]);
                }
                if k == key {
                    assert(name_key(after[i as int].0) == key);
                }
            }
            assert forall|k: (Option<Seq<char>>, Seq<char>)| #[trigger] attr_map(after).contains_key(k)
                implies attr_map(after)[k] == attr_map(before).insert(key, val)[k] by {
                let w = choose|w: int| 0 <= w < after.len() && name_key(after[w].0) == k;
                if k != key {
                    let w0 = if w < i { w } else { w - 1 };
                    assert(w != i);
                    assert(after[w] == before[w0]);
                    let v = choose|v: int| 0 <= v < before.len() && name_key(before[v].0) == k;
                    assert(v == w0);
                } else {
                    assert(after[i as int].0 == name);
                    assert(w == i);
                }
            }
            assert(attr_map(after) =~= attr_map(before).insert(key, val));
        }
    }
}

/// In a sorted list each name is at one place only.
proof fn lemma_sorted_keys_unique(s: Seq<(XmlName, String)>)
    requires
        attrs_sorted(s),
    ensures
        forall|i: int, j: int|
            0 <= i < s.len() && 0 <= j < s.len() && name_key(s[i].0) == name_key(s[j].0) ==> i == j,
{
    assert forall|i: int, j: int|
        0 <= i < s.len() && 0 <= j < s.len() && name_key(s[i].0) == name_key(s[j].0) implies i == j by {
        lemma_name_order_reflexive(name_key(s[i].0));
        if i < j {
            assert(name_order(name_key(s[i].0), name_key(s[j].0)) == Rank::Less);
        } else if j < i {
            assert(name_order(name_key(s[j].0), name_key(s[i].0)) == Rank::Less);
        }
    }
}

} // verus!
