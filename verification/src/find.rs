//! Forward scanning inside a scope for the next start tag of interest.
//!
//! Every top-level entity parser works this way: advance the shared cursor,
//! skipping events, until a matching start tag is found directly inside the
//! scope — or, for requirements, anywhere inside it — or the scope closes or
//! the stream ends, yielding no result.

use vstd::prelude::*;
use crate::errors::ParseError;
use crate::events::{Attribute, Cursor, Event, EventV};
use crate::scope::XmlContents;
use crate::strutil::str_eq;

verus! {

/// Verdict of scanning for a start tag.
pub enum FindOutcome {
    /// A matching start tag stands at this position.
    Found(int),
    /// The scope's own end tag stands at this position; no match inside.
    Ended(int),
    /// A tokenizer fault stands at this position.
    Failed(int),
    /// The stream ends with the scope still open.
    Truncated,
}

/// Scans from `p` with `d` open levels for a start tag named `tag` standing
/// directly inside the scope (open level count exactly one).
pub open spec fn find_in_scope(es: Seq<EventV>, p: int, d: int, tag: Seq<char>) -> FindOutcome
    decreases es.len() - p,
{
    if p < 0 || p >= es.len() {
        FindOutcome::Truncated
    } else {
        match es[p] {
            EventV::Fault(_) => FindOutcome::Failed(p),
            EventV::EndTag => if d <= 1 {
                FindOutcome::Ended(p)
            } else {
                find_in_scope(es, p + 1, d - 1, tag)
            },
            EventV::StartTag { name, .. } => if d == 1 && name == tag {
                FindOutcome::Found(p)
            } else {
                find_in_scope(es, p + 1, d + 1, tag)
            },
            _ => find_in_scope(es, p + 1, d, tag),
        }
    }
}

/// Whether a start tag opens a requirement entry.
pub open spec fn is_req_tag(name: Seq<char>) -> bool {
    name == "type"@ || name == "enum"@ || name == "command"@
}

/// Scans from `p` with `d` open levels for a requirement start tag, at any
/// nesting inside the scope (requirements sit inside `require` blocks).
pub open spec fn find_req(es: Seq<EventV>, p: int, d: int) -> FindOutcome
    decreases es.len() - p,
{
    if p < 0 || p >= es.len() {
        FindOutcome::Truncated
    } else {
        match es[p] {
            EventV::Fault(_) => FindOutcome::Failed(p),
            EventV::EndTag => if d <= 1 {
                FindOutcome::Ended(p)
            } else {
                find_req(es, p + 1, d - 1)
            },
            EventV::StartTag { name, .. } => if is_req_tag(name) {
                FindOutcome::Found(p)
            } else {
                find_req(es, p + 1, d + 1)
            },
            _ => find_req(es, p + 1, d),
        }
    }
}

/// A find outcome that names a position names one inside the sequence.
pub proof fn lemma_find_bounds(es: Seq<EventV>, p: int, d: int, tag: Seq<char>)
    requires
        0 <= p,
    ensures
        match find_in_scope(es, p, d, tag) {
            FindOutcome::Found(q) => p <= q < es.len(),
            FindOutcome::Ended(q) => p <= q < es.len(),
            FindOutcome::Failed(q) => p <= q < es.len(),
            FindOutcome::Truncated => true,
        },
    decreases es.len() - p,
{
    if p < es.len() {
        match es[p] {
            EventV::Fault(_) => {},
            EventV::EndTag => {
                if d > 1 {
                    lemma_find_bounds(es, p + 1, d - 1, tag);
                }
            },
            EventV::StartTag { name, .. } => {
                if !(d == 1 && name == tag) {
                    lemma_find_bounds(es, p + 1, d + 1, tag);
                }
            },
            _ => {
                lemma_find_bounds(es, p + 1, d, tag);
            },
        }
    }
}

/// The requirement finder's positions are likewise inside the sequence.
pub proof fn lemma_find_req_bounds(es: Seq<EventV>, p: int, d: int)
    requires
        0 <= p,
    ensures
        match find_req(es, p, d) {
            FindOutcome::Found(q) => p <= q < es.len(),
            FindOutcome::Ended(q) => p <= q < es.len(),
            FindOutcome::Failed(q) => p <= q < es.len(),
            FindOutcome::Truncated => true,
        },
    decreases es.len() - p,
{
    if p < es.len() {
        match es[p] {
            EventV::Fault(_) => {},
            EventV::EndTag => {
                if d > 1 {
                    lemma_find_req_bounds(es, p + 1, d - 1);
                }
            },
            EventV::StartTag { name, .. } => {
                if !is_req_tag(name) {
                    lemma_find_req_bounds(es, p + 1, d + 1);
                }
            },
            _ => {
                lemma_find_req_bounds(es, p + 1, d);
            },
        }
    }
}

/// Where the requirement finder reports `Found`, the tag stands at a
/// positive open level.
pub proof fn lemma_depth_at_found_pos(es: Seq<EventV>, p: int, d: int)
    requires
        0 <= p,
        1 <= d,
    ensures
        find_req(es, p, d) is Found ==> depth_at_found(es, p, d) >= 1,
    decreases es.len() - p,
{
    if p < es.len() {
        match es[p] {
            EventV::Fault(_) => {},
            EventV::EndTag => {
                if d > 1 {
                    lemma_depth_at_found_pos(es, p + 1, d - 1);
                }
            },
            EventV::StartTag { name, .. } => {
                if !is_req_tag(name) {
                    lemma_depth_at_found_pos(es, p + 1, d + 1);
                }
            },
            _ => {
                lemma_depth_at_found_pos(es, p + 1, d);
            },
        }
    }
}

/// Advances to the next start tag named `tag` directly inside the scope.
///
/// `Ok(Some(..))` hands back the tag's name and attributes with the cursor
/// just past it and the scope opened one level deeper; `Ok(None)` means the
/// scope closed or the stream ended; a fault aborts.
pub fn find_child_tag(s: &mut XmlContents, c: &mut Cursor, tag: &str) -> (r: Result<
    Option<(String, Vec<Attribute>)>,
    ParseError,
>)
    requires
        old(c).wf(),
        old(s).depth() >= 1,
        old(s).depth() <= old(c).at() + 1,
    ensures
        final(c).wf(),
        final(c).stream() == old(c).stream(),
        final(s).depth() <= final(c).at() + 1,
        ({
            let es = old(c).stream();
            let p = old(c).at();
            let d = old(s).depth();
            match find_in_scope(es, p, d, tag@) {
                FindOutcome::Found(q) => {
                    &&& r matches Result::Ok(Option::Some((name, attrs))) &&
                        EventV::StartTag {
                            name: name@,
                            attributes: crate::events::attrs_view(attrs@),
                        } == es[q]
                    &&& final(c).at() == q + 1
                    &&& final(s).depth() == 2
                },
                FindOutcome::Ended(q) => {
                    &&& r matches Result::Ok(o) && o is None
                    &&& final(c).at() == q + 1
                    &&& final(s).depth() == 0
                },
                FindOutcome::Failed(q) => {
                    &&& r matches Result::Err(err) && err@ matches
                        crate::errors::ParseErrorV::MalformedSource(m) && EventV::Fault(m) == es[q]
                    &&& final(c).at() == q + 1
                },
                FindOutcome::Truncated => {
                    &&& r matches Result::Ok(o) && o is None
                    &&& final(c).at() == es.len()
                },
            }
        }),
{
    let ghost es = c.stream();
    let ghost p0 = c.at();
    let ghost d0 = s.depth();
    proof {
        c.lemma_bounds();
    }
    loop
        invariant
            c.wf(),
            c.stream() == es,
            es == old(c).stream(),
            p0 == old(c).at(),
            d0 == old(s).depth(),
            s.depth() >= 1,
            s.depth() <= c.at() + 1,
            find_in_scope(es, p0, d0, tag@) == find_in_scope(es, c.at(), s.depth(), tag@),
        decreases es.len() - c.at(),
    {
        proof {
            c.lemma_bounds();
        }
        let ghost m = c.at();
        let ghost d = s.depth();
        let top = s.is_top();
        match s.next(c) {
            None => {
                proof {
                    if m < es.len() {
                        assert(es[m] is EndTag && d == 1);
                    }
                }
                return Ok(None);
            },
            Some(e) => {
                match e {
                    Event::StartTag { name, attributes } => {
                        if top && str_eq(name.as_str(), tag) {
                            return Ok(Some((name, attributes)));
                        }
                    },
                    Event::Fault(msg) => {
                        return Err(ParseError::MalformedSource(msg));
                    },
                    _ => {},
                }
            },
        }
    }
}

/// Advances to the next requirement start tag anywhere inside the scope.
pub fn find_req_tag(s: &mut XmlContents, c: &mut Cursor) -> (r: Result<
    Option<(String, Vec<Attribute>)>,
    ParseError,
>)
    requires
        old(c).wf(),
        old(s).depth() >= 1,
        old(s).depth() <= old(c).at() + 1,
    ensures
        final(c).wf(),
        final(c).stream() == old(c).stream(),
        final(s).depth() <= final(c).at() + 1,
        ({
            let es = old(c).stream();
            let p = old(c).at();
            let d = old(s).depth();
            match find_req(es, p, d) {
                FindOutcome::Found(q) => {
                    &&& r matches Result::Ok(Option::Some((name, attrs))) &&
                        EventV::StartTag {
                            name: name@,
                            attributes: crate::events::attrs_view(attrs@),
                        } == es[q]
                    &&& is_req_tag(es[q]->StartTag_name)
                    &&& final(c).at() == q + 1
                    &&& final(s).depth() == depth_at_found(es, p, d) + 1
                },
                FindOutcome::Ended(q) => {
                    &&& r matches Result::Ok(o) && o is None
                    &&& final(c).at() == q + 1
                    &&& final(s).depth() == 0
                },
                FindOutcome::Failed(q) => {
                    &&& r matches Result::Err(err) && err@ matches
                        crate::errors::ParseErrorV::MalformedSource(m) && EventV::Fault(m) == es[q]
                    &&& final(c).at() == q + 1
                },
                FindOutcome::Truncated => {
                    &&& r matches Result::Ok(o) && o is None
                    &&& final(c).at() == es.len()
                },
            }
        }),
{
    let ghost es = c.stream();
    let ghost p0 = c.at();
    let ghost d0 = s.depth();
    proof {
        c.lemma_bounds();
    }
    loop
        invariant
            c.wf(),
            c.stream() == es,
            es == old(c).stream(),
            p0 == old(c).at(),
            d0 == old(s).depth(),
            s.depth() >= 1,
            s.depth() <= c.at() + 1,
            find_req(es, p0, d0) == find_req(es, c.at(), s.depth()),
            depth_at_found(es, p0, d0) == depth_at_found(es, c.at(), s.depth()),
        decreases es.len() - c.at(),
    {
        proof {
            c.lemma_bounds();
        }
        let ghost m = c.at();
        let ghost d = s.depth();
        match s.next(c) {
            None => {
                proof {
                    if m < es.len() {
                        assert(es[m] is EndTag && d == 1);
                    }
                }
                return Ok(None);
            },
            Some(e) => {
                match e {
                    Event::StartTag { name, attributes } => {
                        if str_eq(name.as_str(), "type") || str_eq(name.as_str(), "enum")
                            || str_eq(name.as_str(), "command") {
                            return Ok(Some((name, attributes)));
                        }
                    },
                    Event::Fault(msg) => {
                        return Err(ParseError::MalformedSource(msg));
                    },
                    _ => {},
                }
            },
        }
    }
}

/// The open level count standing at the found requirement tag, before it is
/// consumed; meaningful only where [`find_req`] reports `Found`.
pub open spec fn depth_at_found(es: Seq<EventV>, p: int, d: int) -> int
    decreases es.len() - p,
{
    if p < 0 || p >= es.len() {
        0
    } else {
        match es[p] {
            EventV::Fault(_) => 0,
            EventV::EndTag => if d <= 1 {
                0
            } else {
                depth_at_found(es, p + 1, d - 1)
            },
            EventV::StartTag { name, .. } => if is_req_tag(name) {
                d
            } else {
                depth_at_found(es, p + 1, d + 1)
            },
            _ => depth_at_found(es, p + 1, d),
        }
    }
}

} // verus!
