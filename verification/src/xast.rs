//! The generic attributed tree: the fallback representation for schema
//! regions, reconstructed from a scoped event sequence.
//!
//! A node keeps its element name, its attribute list (order preserved;
//! lookups are first-wins) and its ordered contents, where text, comments and
//! child nodes keep their interleaving — the pointer/const-ness parser
//! depends on that order.

use vstd::prelude::*;
use crate::errors::{ParseError, ParseResult};
use crate::events::{Attribute, AttrV, Cursor, Event, EventV, ScanEnd, scan_scope, attrs_view,
    lemma_scan_bounds, lemma_scan_split, clone_string};
use crate::strutil::{str_eq, csv_of, strings_view, split_csv};

verus! {

broadcast use vstd::seq::axiom_seq_index_decreases, vstd::seq::axiom_seq_subrange_decreases,
    vstd::std_specs::vec::axiom_vec_index_decreases, vstd::std_specs::vec::axiom_vec_decreases_to_view;

/// One content item of a node.
#[derive(Debug)]
pub enum Content {
    Comment(String),
    Text(String),
    Child(Node),
}

/// A generic attributed tree node.
#[derive(Debug)]
pub struct Node {
    pub name: String,
    pub attributes: Vec<Attribute>,
    pub contents: Vec<Content>,
}

/// Spec-level value of a content item.
pub enum ContentV {
    Comment(Seq<char>),
    Text(Seq<char>),
    Child(NodeV),
}

/// Spec-level value of a node.
pub struct NodeV {
    pub name: Seq<char>,
    pub attributes: Seq<AttrV>,
    pub contents: Seq<ContentV>,
}

pub open spec fn content_view(c: Content) -> ContentV
    decreases c,
{
    match c {
        Content::Comment(s) => ContentV::Comment(s@),
        Content::Text(s) => ContentV::Text(s@),
        Content::Child(n) => ContentV::Child(node_view(n)),
    }
}

pub open spec fn contents_view(v: Seq<Content>) -> Seq<ContentV>
    decreases v,
{
    if v.len() == 0 {
        Seq::empty()
    } else {
        seq![content_view(v[0])] + contents_view(v.subrange(1, v.len() as int))
    }
}

pub broadcast proof fn lemma_contents_view_len(v: Seq<Content>)
    ensures
        #[trigger] contents_view(v).len() == v.len(),
    decreases v.len(),
{
    if v.len() > 0 {
        lemma_contents_view_len(v.subrange(1, v.len() as int));
    }
}

pub broadcast proof fn lemma_contents_view_index(v: Seq<Content>, i: int)
    requires
        0 <= i < v.len(),
    ensures
        #[trigger] contents_view(v)[i] == content_view(v[i]),
    decreases v.len(),
{
    lemma_contents_view_len(v);
    if i > 0 {
        let tail = v.subrange(1, v.len() as int);
        lemma_contents_view_index(tail, i - 1);
        assert(tail[i - 1] == v[i]);
        lemma_contents_view_len(tail);
    }
}

pub open spec fn node_view(n: Node) -> NodeV
    decreases n,
{
    NodeV {
        name: n.name@,
        attributes: attrs_view(n.attributes@),
        contents: contents_view(n.contents@),
    }
}

impl View for Node {
    type V = NodeV;

    open spec fn view(&self) -> NodeV {
        node_view(*self)
    }
}

/// First-wins lookup of an attribute by name.
pub open spec fn attr_lookup(attrs: Seq<AttrV>, name: Seq<char>) -> Option<Seq<char>>
    decreases attrs.len(),
{
    if attrs.len() == 0 {
        None
    } else if attrs[0].name == name {
        Some(attrs[0].value)
    } else {
        attr_lookup(attrs.skip(1), name)
    }
}

/// The node's attribute of that name, if any.
pub open spec fn attr_of(n: NodeV, name: Seq<char>) -> Option<Seq<char>> {
    attr_lookup(n.attributes, name)
}

/// First child node of that name, if any.
pub open spec fn child_lookup(cs: Seq<ContentV>, name: Seq<char>) -> Option<NodeV>
    decreases cs.len(),
{
    if cs.len() == 0 {
        None
    } else {
        match cs[0] {
            ContentV::Child(n) => if n.name == name {
                Some(n)
            } else {
                child_lookup(cs.skip(1), name)
            },
            _ => child_lookup(cs.skip(1), name),
        }
    }
}

/// The concatenation of the node's top-level text items, in order.
pub open spec fn text_of(cs: Seq<ContentV>) -> Seq<char>
    decreases cs.len(),
{
    if cs.len() == 0 {
        Seq::empty()
    } else {
        (match cs[0] {
            ContentV::Text(t) => t,
            _ => Seq::<char>::empty(),
        }) + text_of(cs.skip(1))
    }
}

/// Attribute-or-child lookup: the attribute of that name if present, else
/// the concatenated text of the first same-named child element.  Many schema
/// fields appear in either form.
pub open spec fn attr_or_child_of(n: NodeV, name: Seq<char>) -> Option<Seq<char>> {
    match attr_of(n, name) {
        Some(v) => Some(v),
        None => match child_lookup(n.contents, name) {
            Some(c) => Some(text_of(c.contents)),
            None => None,
        },
    }
}

/// First-wins attribute lookup over a raw attribute list (as carried by a
/// start tag).
pub fn find_attr<'a>(attrs: &'a Vec<Attribute>, name: &str) -> (r: Option<&'a String>)
    ensures
        match attr_lookup(attrs_view(attrs@), name@) {
            Some(v) => r matches Option::Some(s) && s@ == v,
            None => r is None,
        },
{
    let ghost full = attrs_view(attrs@);
    let mut i: usize = 0;
    proof {
        assert(full.skip(0int) =~= full);
    }
    while i < attrs.len()
        invariant
            i <= attrs.len(),
            full == attrs_view(attrs@),
            attr_lookup(full, name@) == attr_lookup(full.skip(i as int), name@),
        decreases attrs.len() - i,
    {
        if str_eq(attrs[i].name.as_str(), name) {
            proof {
                assert(full.skip(i as int)[0] == attrs@[i as int]@);
            }
            return Some(&attrs[i].value);
        }
        proof {
            assert(full.skip(i as int)[0] == attrs@[i as int]@);
            assert(full.skip(i as int).skip(1) =~= full.skip(i as int + 1));
        }
        i += 1;
    }
    proof {
        assert(full.skip(attrs@.len() as int).len() == 0);
    }
    None
}

impl Node {
    /// The attribute of that name, first-wins.
    pub fn get_attribute<'a>(&'a self, name: &str) -> (r: Option<&'a String>)
        ensures
            match attr_of(self@, name@) {
                Some(v) => r matches Option::Some(s) && s@ == v,
                None => r is None,
            },
    {
        find_attr(&self.attributes, name)
    }

    /// The first child element of that name.
    pub fn get_child<'a>(&'a self, name: &str) -> (r: Option<&'a Node>)
        ensures
            match child_lookup(self@.contents, name@) {
                Some(nv) => r matches Option::Some(n) && n@ == nv,
                None => r is None,
            },
    {
        broadcast use lemma_contents_view_len, lemma_contents_view_index;
        let ghost full = contents_view(self.contents@);
        let mut i: usize = 0;
        proof {
            assert(full.skip(0int) =~= full);
        }
        while i < self.contents.len()
            invariant
                i <= self.contents.len(),
                full == contents_view(self.contents@),
                child_lookup(full, name@) == child_lookup(full.skip(i as int), name@),
            decreases self.contents.len() - i,
        {
            proof {
                lemma_contents_view_len(self.contents@);
                lemma_contents_view_index(self.contents@, i as int);
                assert(full.skip(i as int)[0] == content_view(self.contents@[i as int]));
                assert(full.skip(i as int).skip(1) =~= full.skip(i as int + 1));
            }
            match &self.contents[i] {
                Content::Child(n) => {
                    if str_eq(n.name.as_str(), name) {
                        return Some(n);
                    }
                },
                _ => {},
            }
            i += 1;
        }
        proof {
            assert(full.skip(self.contents@.len() as int).len() == 0);
        }
        None
    }

    /// The concatenation of the node's top-level text items.
    pub fn concat_text(&self) -> (r: String)
        ensures
            r@ == text_of(self@.contents),
    {
        broadcast use lemma_contents_view_len, lemma_contents_view_index;
        let ghost full = contents_view(self.contents@);
        let mut out = String::new();
        let mut i: usize = 0;
        proof {
            assert(full.skip(0int) =~= full);
            assert(text_of(full) =~= out@ + text_of(full));
        }
        while i < self.contents.len()
            invariant
                i <= self.contents.len(),
                full == contents_view(self.contents@),
                text_of(full) == out@ + text_of(full.skip(i as int)),
            decreases self.contents.len() - i,
        {
            proof {
                lemma_contents_view_len(self.contents@);
                lemma_contents_view_index(self.contents@, i as int);
                assert(full.skip(i as int)[0] == content_view(self.contents@[i as int]));
                assert(full.skip(i as int).skip(1) =~= full.skip(i as int + 1));
            }
            match &self.contents[i] {
                Content::Text(t) => {
                    out.append(t.as_str());
                },
                _ => {},
            }
            i += 1;
        }
        proof {
            assert(full.skip(self.contents@.len() as int).len() == 0);
            assert(out@ =~= out@ + text_of(full.skip(self.contents@.len() as int)));
        }
        out
    }

    /// Attribute-or-child text lookup, returning an owned string.
    pub fn get_attribute_or_child(&self, name: &str) -> (r: Option<String>)
        ensures
            match attr_or_child_of(self@, name@) {
                Some(v) => r matches Option::Some(s) && s@ == v,
                None => r is None,
            },
    {
        match self.get_attribute(name) {
            Some(v) => Some(clone_string(v)),
            None => match self.get_child(name) {
                Some(c) => Some(c.concat_text()),
                None => None,
            },
        }
    }
}

/// Splits a comma-separated attribute into its fields; an absent attribute
/// gives the empty list.
pub fn csv_attribute(node: &Node, attribute: &str) -> (r: Vec<String>)
    ensures
        strings_view(r@) == match attr_of(node@, attribute@) {
            Some(v) => csv_of(v),
            None => Seq::<Seq<char>>::empty(),
        },
{
    match node.get_attribute(attribute) {
        Some(v) => split_csv(v.as_str()),
        None => Vec::new(),
    }
}

/// The contents a well-formed scope starting at `p` denotes as a tree: text
/// and comments in order, every start tag opening a child whose contents are
/// taken from inside its own scope, resuming after the child's close.  Only
/// meaningful where the scan of the scope reports `Closed`.
pub open spec fn node_contents(es: Seq<EventV>, p: int) -> Seq<ContentV>
    decreases es.len() - p,
{
    if p < 0 || p >= es.len() {
        Seq::empty()
    } else {
        match es[p] {
            EventV::EndTag => Seq::empty(),
            EventV::Fault(_) => Seq::empty(),
            EventV::Text(t) => seq![ContentV::Text(t)] + node_contents(es, p + 1),
            EventV::Comment(t) => seq![ContentV::Comment(t)] + node_contents(es, p + 1),
            EventV::Other => node_contents(es, p + 1),
            EventV::StartTag { name, attributes } => {
                match scan_scope(es, p + 1, 1) {
                    ScanEnd::Closed(q) => {
                        if p + 1 <= q && q + 1 <= es.len() {
                            seq![ContentV::Child(NodeV {
                                name,
                                attributes,
                                contents: node_contents(es, p + 1),
                            })] + node_contents(es, q + 1)
                        } else {
                            Seq::empty()
                        }
                    },
                    _ => Seq::empty(),
                }
            },
        }
    }
}

/// The element whose start tag stands at `es[q]`, as a tree.
pub open spec fn element_at(es: Seq<EventV>, q: int) -> NodeV {
    match es[q] {
        EventV::StartTag { name, attributes } => NodeV {
            name,
            attributes,
            contents: node_contents(es, q + 1),
        },
        _ => NodeV { name: Seq::empty(), attributes: Seq::empty(), contents: Seq::empty() },
    }
}

proof fn lemma_contents_view_push(v: Seq<Content>, c: Content)
    ensures
        contents_view(v.push(c)) == contents_view(v).push(content_view(c)),
{
    broadcast use lemma_contents_view_len, lemma_contents_view_index;
    assert(forall|i: int| 0 <= i < v.len() ==> v.push(c)[i] == v[i]);
    assert(v.push(c)[v.len() as int] == c);
    assert(contents_view(v.push(c)) =~= contents_view(v).push(content_view(c)));
}

/// Reads the contents of the scope the cursor stands in, consuming its end
/// tag: the executable counterpart of [`node_contents`].
pub fn parse_contents(c: &mut Cursor) -> (r: ParseResult<Vec<Content>>)
    requires
        old(c).wf(),
    ensures
        final(c).wf(),
        final(c).stream() == old(c).stream(),
        ({
            let es = old(c).stream();
            let p = old(c).at();
            match scan_scope(es, p, 1) {
                ScanEnd::Closed(q) => {
                    &&& r matches Result::Ok(v) && contents_view(v@) == node_contents(es, p)
                    &&& final(c).at() == q + 1
                },
                ScanEnd::Failed(q) => {
                    &&& r matches Result::Err(err) && err@ matches
                        crate::errors::ParseErrorV::MalformedSource(m) && EventV::Fault(m) == es[q]
                    &&& final(c).at() == q + 1
                },
                ScanEnd::Truncated => {
                    &&& r matches Result::Err(err) && err is UnexpectedEOF
                    &&& final(c).at() == es.len()
                },
            }
        }),
    decreases c.stream().len() - c.at(),
{
    broadcast use lemma_contents_view_len, lemma_contents_view_index;
    let ghost es = c.stream();
    let ghost p0 = c.at();
    proof {
        c.lemma_bounds();
    }
    let mut acc: Vec<Content> = Vec::new();
    proof {
        assert(contents_view(acc@) =~= Seq::<ContentV>::empty());
    }
    loop
        invariant_except_break
            c.wf(),
            c.stream() == es,
            es == old(c).stream(),
            p0 == old(c).at(),
            0 <= p0 <= c.at(),
            p0 < c.at() || c.at() == p0,
            scan_scope(es, p0, 1) == scan_scope(es, c.at(), 1),
            node_contents(es, p0) == contents_view(acc@) + node_contents(es, c.at()),
        ensures
            c.wf(),
            c.stream() == es,
            es == old(c).stream(),
            p0 == old(c).at(),
            ({
                match scan_scope(es, p0, 1) {
                    ScanEnd::Closed(q) => {
                        &&& contents_view(acc@) == node_contents(es, p0)
                        &&& c.at() == q + 1
                    },
                    _ => false,
                }
            }),
        decreases es.len() - c.at(),
    {
        let ghost m = c.at();
        proof {
            c.lemma_bounds();
        }
        match c.next() {
            None => {
                proof {
                    assert(scan_scope(es, m, 1) is Truncated);
                }
                return Err(ParseError::UnexpectedEOF);
            },
            Some(e) => {
                match e {
                    Event::EndTag => {
                        proof {
                            assert(scan_scope(es, m, 1) == ScanEnd::Closed(m));
                            assert(node_contents(es, m) =~= Seq::<ContentV>::empty());
                            assert(contents_view(acc@) =~= node_contents(es, p0));
                        }
                        break;
                    },
                    Event::Fault(msg) => {
                        proof {
                            assert(scan_scope(es, m, 1) == ScanEnd::Failed(m));
                        }
                        return Err(ParseError::MalformedSource(msg));
                    },
                    Event::Text(t) => {
                        proof {
                            lemma_contents_view_push(acc@, Content::Text(t));
                            assert(node_contents(es, m) ==
                                seq![ContentV::Text(t@)] + node_contents(es, m + 1));
                            assert(contents_view(acc@).push(ContentV::Text(t@)) +
                                node_contents(es, m + 1) =~=
                                contents_view(acc@) + node_contents(es, m));
                        }
                        acc.push(Content::Text(t));
                    },
                    Event::Comment(t) => {
                        proof {
                            lemma_contents_view_push(acc@, Content::Comment(t));
                            assert(node_contents(es, m) ==
                                seq![ContentV::Comment(t@)] + node_contents(es, m + 1));
                            assert(contents_view(acc@).push(ContentV::Comment(t@)) +
                                node_contents(es, m + 1) =~=
                                contents_view(acc@) + node_contents(es, m));
                        }
                        acc.push(Content::Comment(t));
                    },
                    Event::Other => {},
                    Event::StartTag { name, attributes } => {
                        let ghost inner = scan_scope(es, m + 1, 1);
                        proof {
                            lemma_scan_bounds(es, m + 1, 1);
                            lemma_scan_split(es, m + 1, 1, 1);
                        }
                        let kids = match parse_contents(c) {
                            Ok(kids) => kids,
                            Err(e) => {
                                return Err(e);
                            },
                        };
                        let child = Node { name, attributes, contents: kids };
                        proof {
                            let q = inner->Closed_0;
                            assert(node_view(child) == NodeV {
                                name: child.name@,
                                attributes: attrs_view(child.attributes@),
                                contents: node_contents(es, m + 1),
                            });
                            assert(node_contents(es, m) ==
                                seq![ContentV::Child(node_view(child))] + node_contents(es, q + 1));
                            lemma_contents_view_push(acc@, Content::Child(child));
                            assert(contents_view(acc@).push(ContentV::Child(node_view(child))) +
                                node_contents(es, q + 1) =~=
                                contents_view(acc@) + node_contents(es, m));
                        }
                        acc.push(Content::Child(child));
                    },
                }
            },
        }
    }
    Ok(acc)
}

impl Node {
    /// Builds the tree for the element whose start tag — name and attributes
    /// supplied by the caller — the cursor has just passed.
    pub fn parse(c: &mut Cursor, name: String, attributes: Vec<Attribute>) -> (r: ParseResult<Node>)
        requires
            old(c).wf(),
        ensures
            final(c).wf(),
            final(c).stream() == old(c).stream(),
            ({
                let es = old(c).stream();
                let p = old(c).at();
                match scan_scope(es, p, 1) {
                    ScanEnd::Closed(q) => {
                        &&& r matches Result::Ok(n) && n@ == NodeV {
                            name: name@,
                            attributes: attrs_view(attributes@),
                            contents: node_contents(es, p),
                        }
                        &&& final(c).at() == q + 1
                    },
                    ScanEnd::Failed(q) => {
                        &&& r matches Result::Err(err) && err@ matches
                            crate::errors::ParseErrorV::MalformedSource(m)
                            && EventV::Fault(m) == es[q]
                        &&& final(c).at() == q + 1
                    },
                    ScanEnd::Truncated => {
                        &&& r matches Result::Err(err) && err is UnexpectedEOF
                        &&& final(c).at() == es.len()
                    },
                }
            }),
    {
        match parse_contents(c) {
            Ok(contents) => Ok(Node { name, attributes, contents }),
            Err(e) => Err(e),
        }
    }
}

} // verus!
