//! The event scoping utility.
//!
//! Positioned immediately after an element's opening tag has been consumed,
//! an [`XmlContents`] value yields exactly the events belonging to that
//! element's content — nested tags included — and stops, consuming but not
//! re-emitting the matching close tag.  Scoping composes: each scope owns an
//! independent nesting counter while all draw from one shared [`Cursor`].

use vstd::prelude::*;
use crate::events::{Cursor, Event, EventV, ScanEnd, scan_scope};

verus! {

/// View of a sequence of owned events.
pub open spec fn events_view(v: Seq<Event>) -> Seq<EventV> {
    v.map_values(|e: Event| e@)
}

/// A scoped view of the current element's contents: a nesting counter seeded
/// at one, incremented at every start tag and decremented at every end tag;
/// the scope is exhausted when the counter reaches zero.
pub struct XmlContents {
    depth: u128,
}

impl XmlContents {
    /// The current nesting depth relative to the scope's element.
    pub closed spec fn depth(&self) -> int {
        self.depth as int
    }

    /// A new scope for the element whose opening tag the cursor has just
    /// passed.
    pub fn new_inside() -> (r: XmlContents)
        ensures
            r.depth() == 1,
    {
        XmlContents { depth: 1 }
    }

    /// Whether the next event drawn belongs directly to the scope's element
    /// (nesting level one).
    pub fn is_top(&self) -> (r: bool)
        ensures
            r == (self.depth() == 1),
    {
        self.depth == 1
    }

    /// Notes that the caller has consumed the matching close tag of the
    /// element whose start this scope last yielded: pure counter bookkeeping
    /// for parsers that hand an element's contents to a nested parser
    /// drawing from the same cursor.
    pub fn child_closed(&mut self)
        requires
            old(self).depth() >= 1,
        ensures
            final(self).depth() == old(self).depth() - 1,
    {
        self.depth = self.depth - 1;
    }

    /// Whether this scope has terminated.
    pub fn is_outside_scope(&self) -> (r: bool)
        ensures
            r == (self.depth() <= 0),
    {
        self.depth == 0
    }

    /// Draws the next event belonging to the scope, or `None` when the
    /// scope's element has closed or the stream is exhausted.
    ///
    /// The step mirrors one unfolding of [`scan_scope`]: a fault is yielded
    /// like any event (callers decide to abort), tags move the counter, and
    /// the end tag that brings the counter to zero is consumed, not yielded.
    pub fn next(&mut self, c: &mut Cursor) -> (r: Option<Event>)
        requires
            old(c).wf(),
            old(self).depth() <= old(c).at() + 1,
        ensures
            final(c).wf(),
            final(c).stream() == old(c).stream(),
            final(self).depth() <= final(c).at() + 1,
            ({
                let es = old(c).stream();
                let p = old(c).at();
                let d = old(self).depth();
                if d <= 0 || p >= es.len() {
                    &&& r is None
                    &&& final(c).at() == p
                    &&& final(self).depth() == d
                } else {
                    match es[p] {
                        EventV::StartTag { .. } => {
                            &&& r matches Option::Some(e) && e@ == es[p]
                            &&& final(c).at() == p + 1
                            &&& final(self).depth() == d + 1
                        },
                        EventV::EndTag => {
                            &&& final(c).at() == p + 1
                            &&& final(self).depth() == d - 1
                            &&& if d == 1 {
                                r is None
                            } else {
                                r matches Option::Some(e) && e@ == es[p]
                            }
                        },
                        _ => {
                            &&& r matches Option::Some(e) && e@ == es[p]
                            &&& final(c).at() == p + 1
                            &&& final(self).depth() == d
                        },
                    }
                }
            }),
    {
        proof {
            c.lemma_bounds();
        }
        if self.depth == 0 {
            return None;
        }
        match c.next() {
            None => None,
            Some(e) => {
                match &e {
                    Event::StartTag { .. } => {
                        self.depth = self.depth + 1;
                        Some(e)
                    },
                    Event::EndTag => {
                        self.depth = self.depth - 1;
                        if self.depth == 0 {
                            None
                        } else {
                            Some(e)
                        }
                    },
                    _ => Some(e),
                }
            },
        }
    }

    /// Yields the whole content of a well-formed scope.
    ///
    /// For every well-formed scoped sub-sequence — one whose opening element
    /// closes at position `q` of the stream — this returns exactly the events
    /// strictly inside the element, `es[p .. q)`, and leaves the cursor
    /// positioned exactly after the element's end tag.  It never over- nor
    /// under-consumes.
    pub fn drain(&mut self, c: &mut Cursor) -> (r: Vec<Event>)
        requires
            old(c).wf(),
            old(self).depth() == 1,
            old(self).depth() <= old(c).at() + 1,
            scan_scope(old(c).stream(), old(c).at(), 1) is Closed,
        ensures
            final(c).wf(),
            final(c).stream() == old(c).stream(),
            final(self).depth() == 0,
            ({
                let es = old(c).stream();
                let p = old(c).at();
                match scan_scope(es, p, 1) {
                    ScanEnd::Closed(q) => {
                        &&& events_view(r@) == es.subrange(p, q)
                        &&& final(c).at() == q + 1
                    },
                    _ => false,
                }
            }),
    {
        let ghost es = c.stream();
        let ghost p0 = c.at();
        let ghost q = scan_scope(es, p0, 1)->Closed_0;
        proof {
            c.lemma_bounds();
            crate::events::lemma_scan_bounds(es, p0, 1);
        }
        let mut r: Vec<Event> = Vec::new();
        proof {
            assert(events_view(r@) =~= es.subrange(p0, p0));
        }
        loop
            invariant_except_break
                c.wf(),
                c.stream() == es,
                es == old(c).stream(),
                p0 == old(c).at(),
                self.depth() <= c.at() + 1,
                0 <= p0 <= c.at(),
                scan_scope(es, p0, 1) == ScanEnd::Closed(q),
                self.depth() >= 1,
                scan_scope(es, c.at(), self.depth()) == ScanEnd::Closed(q),
                events_view(r@) == es.subrange(p0, c.at()),
            ensures
                c.wf(),
                c.stream() == es,
                self.depth() == 0,
                c.at() == q + 1,
                events_view(r@) == es.subrange(p0, q),
            decreases es.len() - c.at(),
        {
            proof {
                c.lemma_bounds();
                crate::events::lemma_scan_bounds(es, c.at(), self.depth());
            }
            let ghost m = c.at();
            let ghost d = self.depth();
            match self.next(c) {
                Some(e) => {
                    proof {
                        assert(e@ == es[m]);
                        let rs = r@.push(e);
                        assert(r@.len() == m - p0) by {
                            assert(events_view(r@).len() == r@.len());
                        }
                        assert forall|i: int| 0 <= i < rs.len() implies
                            events_view(rs)[i] == es.subrange(p0, m + 1)[i] by {
                            assert(events_view(rs)[i] == rs[i]@);
                            assert(es.subrange(p0, m + 1)[i] == es[p0 + i]);
                            if i < rs.len() - 1 {
                                assert(rs[i] == r@[i]);
                                assert(events_view(r@)[i] == r@[i]@);
                                assert(events_view(r@)[i] == es.subrange(p0, m)[i]);
                                assert(es.subrange(p0, m)[i] == es[p0 + i]);
                            } else {
                                assert(rs[i] == e);
                                assert(p0 + i == m);
                            }
                        }
                        assert(events_view(rs) =~= es.subrange(p0, m + 1));
                    }
                    r.push(e);
                },
                None => {
                    // The end tag closing the scope was just consumed.
                    proof {
                        assert(es[m] is EndTag && d == 1);
                        assert(scan_scope(es, m, d) == ScanEnd::Closed(m));
                        assert(m == q);
                    }
                    break;
                },
            }
        }
        r
    }
}

/// Consumes a scope without keeping its contents: used to discard sections
/// that are parsed only for structure.  Unlike [`XmlContents::drain`] it is
/// total: a fault or a truncated scope is reported as an error.
pub fn skip_scope(c: &mut Cursor) -> (r: Result<(), crate::errors::ParseError>)
    requires
        old(c).wf(),
    ensures
        final(c).wf(),
        final(c).stream() == old(c).stream(),
        ({
            let es = old(c).stream();
            let p = old(c).at();
            match scan_scope(es, p, 1) {
                ScanEnd::Closed(q) => r is Ok && final(c).at() == q + 1,
                ScanEnd::Failed(q) => {
                    &&& r matches Result::Err(err) && err@ matches crate::errors::ParseErrorV::MalformedSource(m)
                        && EventV::Fault(m) == es[q]
                    &&& final(c).at() == q + 1
                },
                ScanEnd::Truncated => {
                    &&& r matches Result::Err(e) && e is UnexpectedEOF
                    &&& final(c).at() == es.len()
                },
            }
        }),
{
    let ghost es = c.stream();
    let ghost p0 = c.at();
    proof {
        c.lemma_bounds();
    }
    let mut depth: u128 = 1;
    loop
        invariant
            c.wf(),
            c.stream() == es,
            depth >= 1,
            depth <= c.at() - p0 + 1,
            0 <= p0 <= c.at(),
            es == old(c).stream(),
            p0 == old(c).at(),
            scan_scope(es, p0, 1) == scan_scope(es, c.at(), depth as int),
        decreases es.len() - c.at(),
    {
        proof {
            c.lemma_bounds();
        }
        let ghost m = c.at();
        match c.next() {
            None => {
                return Err(crate::errors::ParseError::UnexpectedEOF);
            },
            Some(e) => {
                match e {
                    Event::StartTag { .. } => {
                        depth = depth + 1;
                    },
                    Event::EndTag => {
                        depth = depth - 1;
                        if depth == 0 {
                            proof {
                                assert(scan_scope(es, m, 1) == ScanEnd::Closed(m));
                            }
                            return Ok(());
                        }
                    },
                    Event::Fault(msg) => {
                        proof {
                            assert(scan_scope(es, m, depth as int) == ScanEnd::Failed(m));
                        }
                        return Err(crate::errors::ParseError::MalformedSource(msg));
                    },
                    _ => {},
                }
            },
        }
    }
}

} // verus!
