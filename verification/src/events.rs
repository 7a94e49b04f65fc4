//! The library's model of an XML parse-event stream.
//!
//! Tokenisation is a collaborator's responsibility: the caller hands the
//! library a flat sequence of [`Event`] values (already decoded), and every
//! parser of the library pulls events from a shared [`Cursor`] in a single
//! forward pass.  A tokenizer failure is represented in-band as
//! [`Event::Fault`], which parsers turn into
//! [`crate::errors::ParseError::MalformedSource`].

use vstd::prelude::*;

verus! {

/// One attribute of a start tag.
#[derive(Debug)]
pub struct Attribute {
    pub name: String,
    pub value: String,
}

/// Spec-level value of an [`Attribute`].
pub struct AttrV {
    pub name: Seq<char>,
    pub value: Seq<char>,
}

impl View for Attribute {
    type V = AttrV;

    open spec fn view(&self) -> AttrV {
        AttrV { name: self.name@, value: self.value@ }
    }
}

/// One XML parse event, as the registry parser reads it.
///
/// Only the structure the parser acts on is kept: element boundaries, text,
/// comments.  Every other tokenizer event (processing instructions, document
/// boundaries, whitespace-only text, ...) is [`Event::Other`], which the
/// parsers skip without changing nesting depth.  The close tag's name is not
/// carried: scoping is tracked purely by nesting depth.
#[derive(Debug)]
pub enum Event {
    /// An element's opening tag with its attributes.
    StartTag { name: String, attributes: Vec<Attribute> },
    /// An element's closing tag.
    EndTag,
    /// Character data.
    Text(String),
    /// A comment.
    Comment(String),
    /// Any event without structural significance to the parser.
    Other,
    /// A tokenizer error, propagated in-band; the payload is its message.
    Fault(String),
}

/// Spec-level value of an [`Event`].
pub enum EventV {
    StartTag { name: Seq<char>, attributes: Seq<AttrV> },
    EndTag,
    Text(Seq<char>),
    Comment(Seq<char>),
    Other,
    Fault(Seq<char>),
}

/// View of a sequence of attributes.
pub open spec fn attrs_view(attrs: Seq<Attribute>) -> Seq<AttrV> {
    attrs.map_values(|a: Attribute| a@)
}

impl View for Event {
    type V = EventV;

    open spec fn view(&self) -> EventV {
        match self {
            Event::StartTag { name, attributes } =>
                EventV::StartTag { name: name@, attributes: attrs_view(attributes@) },
            Event::EndTag => EventV::EndTag,
            Event::Text(s) => EventV::Text(s@),
            Event::Comment(s) => EventV::Comment(s@),
            Event::Other => EventV::Other,
            Event::Fault(m) => EventV::Fault(m@),
        }
    }
}

/// Copies an attribute; the copy has the same spec value.
pub fn attr_dup(a: &Attribute) -> (r: Attribute)
    ensures
        r@ == a@,
{
    Attribute { name: clone_string(&a.name), value: clone_string(&a.value) }
}

/// Clones a `String`; kept as a named helper so callers get the view fact.
pub fn clone_string(s: &String) -> (r: String)
    ensures
        r@ == s@,
{
    s.clone()
}

/// Copies an event; the copy has the same spec value.
pub fn event_dup(e: &Event) -> (r: Event)
    ensures
        r@ == e@,
{
    match e {
        Event::StartTag { name, attributes } => {
            let mut attrs: Vec<Attribute> = Vec::new();
            let mut i: usize = 0;
            while i < attributes.len()
                invariant
                    i <= attributes.len(),
                    attrs@.len() == i as int,
                    forall|j: int| 0 <= j < i ==> attrs@[j]@ == attributes@[j]@,
                decreases attributes.len() - i,
            {
                attrs.push(attr_dup(&attributes[i]));
                i += 1;
            }
            let r = Event::StartTag { name: clone_string(name), attributes: attrs };
            proof {
                assert(attrs_view(attrs@) =~= attrs_view(attributes@));
            }
            r
        },
        Event::EndTag => Event::EndTag,
        Event::Text(s) => Event::Text(clone_string(s)),
        Event::Comment(s) => Event::Comment(clone_string(s)),
        Event::Other => Event::Other,
        Event::Fault(m) => Event::Fault(clone_string(m)),
    }
}

/// The shared forward-only cursor over the event stream.
///
/// Every scoped sub-sequence and every parser draws from one cursor; nothing
/// ever seeks backwards.
pub struct Cursor {
    events: Vec<Event>,
    pos: usize,
}

impl Cursor {
    /// The whole underlying stream, as spec values.  Fixed for the cursor's
    /// lifetime: consuming events only advances the position.
    pub closed spec fn stream(&self) -> Seq<EventV> {
        self.events@.map_values(|e: Event| e@)
    }

    /// The current position in [`Cursor::stream`].
    pub closed spec fn at(&self) -> int {
        self.pos as int
    }

    /// Cursor well-formedness: the position never passes the end.
    pub closed spec fn wf(&self) -> bool {
        self.pos <= self.events.len()
    }

    /// Bounds that hold of every well-formed cursor.
    pub proof fn lemma_bounds(&self)
        requires
            self.wf(),
        ensures
            0 <= self.at() <= self.stream().len() <= usize::MAX,
    {
    }

    pub fn new(events: Vec<Event>) -> (r: Cursor)
        ensures
            r.wf(),
            r.at() == 0,
            r.stream() == events@.map_values(|e: Event| e@),
    {
        Cursor { events, pos: 0 }
    }

    /// Draws the next event, or `None` when the stream is exhausted.
    pub fn next(&mut self) -> (r: Option<Event>)
        requires
            old(self).wf(),
        ensures
            final(self).wf(),
            final(self).stream() == old(self).stream(),
            if old(self).at() < old(self).stream().len() {
                &&& final(self).at() == old(self).at() + 1
                &&& match r {
                    Option::Some(e) => e@ == old(self).stream()[old(self).at()],
                    Option::None => false,
                }
            } else {
                &&& final(self).at() == old(self).at()
                &&& r is None
            },
    {
        if self.pos < self.events.len() {
            let e = event_dup(&self.events[self.pos]);
            self.pos = self.pos + 1;
            Some(e)
        } else {
            None
        }
    }
}

/// Verdict of scanning an event sequence from position `p`, inside `d` levels
/// of open elements, for the close of the outermost of those levels.
pub enum ScanEnd {
    /// The scope closes: position of the closing end tag.
    Closed(int),
    /// A tokenizer fault is met first: its position.
    Failed(int),
    /// The stream ends with the scope still open.
    Truncated,
}

/// Scans `es` from `p` with `d` open levels; every start tag opens a level,
/// every end tag closes one.  Returns where the outermost level closes, or
/// why it does not.
pub open spec fn scan_scope(es: Seq<EventV>, p: int, d: int) -> ScanEnd
    decreases es.len() - p,
{
    if p < 0 || p >= es.len() {
        ScanEnd::Truncated
    } else {
        match es[p] {
            EventV::Fault(_) => ScanEnd::Failed(p),
            EventV::EndTag => if d <= 1 {
                ScanEnd::Closed(p)
            } else {
                scan_scope(es, p + 1, d - 1)
            },
            EventV::StartTag { .. } => scan_scope(es, p + 1, d + 1),
            _ => scan_scope(es, p + 1, d),
        }
    }
}

/// A scan outcome that names a position names one inside the sequence, at or
/// after where the scan began.
pub proof fn lemma_scan_bounds(es: Seq<EventV>, p: int, d: int)
    requires
        0 <= p,
    ensures
        match scan_scope(es, p, d) {
            ScanEnd::Closed(q) => p <= q < es.len(),
            ScanEnd::Failed(q) => p <= q < es.len(),
            ScanEnd::Truncated => true,
        },
    decreases es.len() - p,
{
    if p < es.len() {
        match es[p] {
            EventV::Fault(_) => {},
            EventV::EndTag => {
                if d > 1 {
                    lemma_scan_bounds(es, p + 1, d - 1);
                }
            },
            EventV::StartTag { .. } => {
                lemma_scan_bounds(es, p + 1, d + 1);
            },
            _ => {
                lemma_scan_bounds(es, p + 1, d);
            },
        }
    }
}

/// Splitting a scan of `c + d` open levels at the close of the first `c`:
/// once those close at `q`, the remaining `d` levels scan on from `q + 1`.
/// Faults and truncation met before that close are met by both scans.
pub proof fn lemma_scan_split(es: Seq<EventV>, p: int, c: int, d: int)
    requires
        0 <= p,
        1 <= c,
        1 <= d,
    ensures
        match scan_scope(es, p, c) {
            ScanEnd::Closed(q) => scan_scope(es, p, c + d) == scan_scope(es, q + 1, d),
            ScanEnd::Failed(q) => scan_scope(es, p, c + d) == ScanEnd::Failed(q),
            ScanEnd::Truncated => scan_scope(es, p, c + d) == ScanEnd::Truncated,
        },
    decreases es.len() - p,
{
    if p < es.len() {
        match es[p] {
            EventV::Fault(_) => {},
            EventV::EndTag => {
                if c == 1 {
                    // scan(p, c) closes here; scan(p, c + d) continues with d levels.
                } else {
                    lemma_scan_split(es, p + 1, c - 1, d);
                }
            },
            EventV::StartTag { .. } => {
                lemma_scan_split(es, p + 1, c + 1, d);
            },
            _ => {
                lemma_scan_split(es, p + 1, c, d);
            },
        }
    }
}

} // verus!
