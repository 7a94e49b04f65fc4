//! The `<enums>` block parser: enum and bitmask value groups.
//!
//! A block whose `type` attribute reads `enum` or `bitmask` populates the
//! registry's enum mapping; a block without a `type` attribute groups bare
//! constants and is parsed but discarded; any other `type` value fails —
//! there is no forward-compatibility escape here.

use vstd::prelude::*;
use crate::errors::{ParseError, ParseErrorV, ParseResult};
use crate::events::{Cursor, Attribute, AttrV, EventV, ScanEnd, scan_scope, clone_string, attrs_view};
use crate::scope::XmlContents;
use crate::find::{FindOutcome, find_in_scope, find_child_tag, lemma_find_bounds};
use crate::strutil::str_eq;
use crate::xast::{attr_lookup, find_attr};
use crate::fields::{EnumValue, EnumValueV, enum_value_of, parse_enum_value};
use crate::typeinfo::values_view;

verus! {

/// Whether a value group carries enum or bitmask semantics.
#[derive(Debug, Clone, Copy, PartialEq, Eq, Structural)]
pub enum EnumsType {
    Enum,
    Bitmask,
}

/// One named value group of the registry.
#[derive(Debug)]
pub struct EnumsInfo {
    pub name: String,
    pub ty: EnumsType,
    /// The declared values in document order; the extension resolver
    /// appends derived values here.
    pub values: Vec<(String, EnumValue)>,
}

/// Spec-level value of an [`EnumsInfo`].
pub struct EnumsInfoV {
    pub name: Seq<char>,
    pub ty: EnumsType,
    pub values: Seq<(Seq<char>, EnumValueV)>,
}

impl View for EnumsInfo {
    type V = EnumsInfoV;

    open spec fn view(&self) -> EnumsInfoV {
        EnumsInfoV { name: self.name@, ty: self.ty, values: values_view(self.values@) }
    }
}

/// What a block's start-tag attributes decide: keep it under a name and a
/// semantics, discard it, or fail on an unknown `type` value.
pub open spec fn enums_head_of(attrs: Seq<AttrV>) -> Result<
    Option<(Seq<char>, EnumsType)>,
    ParseErrorV,
> {
    match attr_lookup(attrs, "type"@) {
        None => Ok(None),
        Some(t) => {
            let ty = if t == "enum"@ {
                Some(EnumsType::Enum)
            } else if t == "bitmask"@ {
                Some(EnumsType::Bitmask)
            } else {
                None
            };
            match ty {
                None => Err(ParseErrorV::UnrecognizedCategory(t)),
                Some(ty) => match attr_lookup(attrs, "name"@) {
                    None => Err(ParseErrorV::MissingRequiredAttributeOrChild {
                        element: "enums"@,
                        field: "name"@,
                    }),
                    Some(nm) => Ok(Some((nm, ty))),
                },
            }
        },
    }
}

/// Outcome of scanning a block's scope for its `<enum>` values.
pub enum ValuesScan {
    /// The values in order, and the cursor position after the scan.
    Done(Seq<(Seq<char>, EnumValueV)>, int),
    /// The first error met.
    Bad(ParseErrorV),
}

/// Scans from `p` with `d` open levels for the block's `<enum>` children,
/// reading each one's name and declared value from its attributes.
pub open spec fn scan_enum_values(es: Seq<EventV>, p: int, d: int) -> ValuesScan
    decreases es.len() - p,
{
    match find_in_scope(es, p, d, "enum"@) {
        FindOutcome::Ended(q) => ValuesScan::Done(Seq::empty(), q + 1),
        FindOutcome::Truncated => ValuesScan::Done(Seq::empty(), es.len() as int),
        FindOutcome::Failed(q) => ValuesScan::Bad(ParseErrorV::MalformedSource(es[q]->Fault_0)),
        FindOutcome::Found(q) => if p <= q && q + 1 <= es.len() {
            let attrs = es[q]->StartTag_attributes;
            match attr_lookup(attrs, "name"@) {
                None => ValuesScan::Bad(ParseErrorV::MissingRequiredAttributeOrChild {
                    element: "enum"@,
                    field: "name"@,
                }),
                Some(nm) => match enum_value_of(attrs) {
                    Err(e) => ValuesScan::Bad(e),
                    Ok(v) => match scan_enum_values(es, q + 1, 2) {
                        ValuesScan::Bad(e) => ValuesScan::Bad(e),
                        ValuesScan::Done(rest, end) => ValuesScan::Done(seq![(nm, v)] + rest, end),
                    },
                },
            }
        } else {
            ValuesScan::Done(Seq::empty(), p)
        },
    }
}

/// A value scan that completes ends inside the sequence, at or after where
/// it began.
pub proof fn lemma_scan_enum_values_bounds(es: Seq<EventV>, p: int, d: int)
    requires
        0 <= p <= es.len(),
    ensures
        match scan_enum_values(es, p, d) {
            ValuesScan::Done(_, end) => p <= end <= es.len(),
            ValuesScan::Bad(_) => true,
        },
    decreases es.len() - p,
{
    lemma_find_bounds(es, p, d, "enum"@);
    match find_in_scope(es, p, d, "enum"@) {
        FindOutcome::Found(q) => {
            lemma_scan_enum_values_bounds(es, q + 1, 2);
        },
        _ => {},
    }
}

/// Collects the `<enum>` values of the scope the cursor stands in.
fn collect_enum_values(s: &mut XmlContents, c: &mut Cursor) -> (r: ParseResult<
    Vec<(String, EnumValue)>,
>)
    requires
        old(c).wf(),
        old(s).depth() >= 1,
        old(s).depth() <= old(c).at() + 1,
    ensures
        final(c).wf(),
        final(c).stream() == old(c).stream(),
        ({
            let es = old(c).stream();
            match scan_enum_values(es, old(c).at(), old(s).depth()) {
                ValuesScan::Done(vals, end) => {
                    &&& r matches Result::Ok(v) && values_view(v@) == vals
                    &&& final(c).at() == end
                },
                ValuesScan::Bad(e) => r matches Result::Err(err) && err@ == e,
            }
        }),
{
    let ghost es = c.stream();
    let ghost p0 = c.at();
    let ghost d0 = s.depth();
    let mut acc: Vec<(String, EnumValue)> = Vec::new();
    proof {
        c.lemma_bounds();
        assert(values_view(acc@) =~= Seq::<(Seq<char>, EnumValueV)>::empty());
    }
    loop
        invariant_except_break
            c.wf(),
            c.stream() == es,
            es == old(c).stream(),
            p0 == old(c).at(),
            d0 == old(s).depth(),
            s.depth() >= 1,
            s.depth() <= c.at() + 1,
            0 <= c.at(),
            ({
                match scan_enum_values(es, c.at(), s.depth()) {
                    ValuesScan::Done(rest, end) => scan_enum_values(es, p0, d0) ==
                        ValuesScan::Done(values_view(acc@) + rest, end),
                    ValuesScan::Bad(e) => scan_enum_values(es, p0, d0) == ValuesScan::Bad(e),
                }
            }),
        ensures
            c.wf(),
            c.stream() == es,
            es == old(c).stream(),
            p0 == old(c).at(),
            d0 == old(s).depth(),
            ({
                match scan_enum_values(es, p0, d0) {
                    ValuesScan::Done(vals, end) => values_view(acc@) == vals && c.at() == end,
                    ValuesScan::Bad(_) => false,
                }
            }),
        decreases es.len() - c.at(),
    {
        let ghost m = c.at();
        let ghost d = s.depth();
        proof {
            c.lemma_bounds();
            lemma_find_bounds(es, m, d, "enum"@);
        }
        match find_child_tag(s, c, "enum") {
            Err(e) => {
                return Err(e);
            },
            Ok(None) => {
                proof {
                    assert(values_view(acc@) =~= values_view(acc@) +
                        Seq::<(Seq<char>, EnumValueV)>::empty());
                }
                break;
            },
            Ok(Some((_, attrs))) => {
                let ghost q = find_in_scope(es, m, d, "enum"@)->Found_0;
                let name = match find_attr(&attrs, "name") {
                    None => {
                        return Err(ParseError::MissingRequiredAttributeOrChild {
                            element: "enum".to_owned(),
                            field: "name".to_owned(),
                        });
                    },
                    Some(n) => clone_string(n),
                };
                let value = match parse_enum_value(&attrs) {
                    Err(e) => {
                        return Err(e);
                    },
                    Ok(v) => v,
                };
                proof {
                    let rest0 = scan_enum_values(es, q + 1, 2);
                    assert(values_view(acc@.push((name, value))) =~=
                        values_view(acc@).push((name@, value@)));
                    if rest0 is Done {
                        let rest = rest0->Done_0;
                        assert(values_view(acc@).push((name@, value@)) + rest =~=
                            values_view(acc@) + (seq![(name@, value@)] + rest));
                    }
                }
                acc.push((name, value));
            },
        }
    }
    Ok(acc)
}

/// What parsing one `<enums>` block yields and where it ends.
pub open spec fn enums_block_of(es: Seq<EventV>, p: int, attrs: Seq<AttrV>) -> Result<
    Option<EnumsInfoV>,
    ParseErrorV,
> {
    match enums_head_of(attrs) {
        Err(e) => Err(e),
        Ok(None) => match scan_scope(es, p, 1) {
            ScanEnd::Closed(_) => Ok(None),
            ScanEnd::Failed(q) => Err(ParseErrorV::MalformedSource(es[q]->Fault_0)),
            ScanEnd::Truncated => Err(ParseErrorV::UnexpectedEOF),
        },
        Ok(Some((nm, ty))) => match scan_enum_values(es, p, 1) {
            ValuesScan::Bad(e) => Err(e),
            ValuesScan::Done(vals, _) => Ok(Some(EnumsInfoV { name: nm, ty, values: vals })),
        },
    }
}

/// The cursor position after a successfully parsed `<enums>` block.
pub open spec fn enums_block_end(es: Seq<EventV>, p: int, attrs: Seq<AttrV>) -> int {
    match enums_head_of(attrs) {
        Ok(None) => match scan_scope(es, p, 1) {
            ScanEnd::Closed(q) => q + 1,
            _ => es.len() as int,
        },
        _ => match scan_enum_values(es, p, 1) {
            ValuesScan::Done(_, end) => end,
            _ => es.len() as int,
        },
    }
}

impl EnumsInfo {
    /// Parses the `<enums>` block whose start tag — with these attributes —
    /// the cursor has just passed, consuming the block.  `None` means the
    /// block groups bare constants and was discarded.
    pub fn parse_block(c: &mut Cursor, attributes: &Vec<Attribute>) -> (r: ParseResult<
        Option<EnumsInfo>,
    >)
        requires
            old(c).wf(),
        ensures
            final(c).wf(),
            final(c).stream() == old(c).stream(),
            ({
                let es = old(c).stream();
                let p = old(c).at();
                let attrs = attrs_view(attributes@);
                match enums_block_of(es, p, attrs) {
                    Ok(Option::Some(ei)) => {
                        &&& r matches Result::Ok(Option::Some(v)) && v@ == ei
                        &&& final(c).at() == enums_block_end(es, p, attrs)
                    },
                    Ok(Option::None) => {
                        &&& r matches Result::Ok(o) && o is None
                        &&& final(c).at() == enums_block_end(es, p, attrs)
                    },
                    Err(e) => r matches Result::Err(err) && err@ == e,
                }
            }),
    {
        let ty = match find_attr(attributes, "type") {
            None => {
                // A grouping block without enum semantics: consume and drop.
                return match crate::scope::skip_scope(c) {
                    Ok(()) => Ok(None),
                    Err(e) => Err(e),
                };
            },
            Some(t) => {
                if str_eq(t.as_str(), "enum") {
                    EnumsType::Enum
                } else if str_eq(t.as_str(), "bitmask") {
                    EnumsType::Bitmask
                } else {
                    return Err(ParseError::UnrecognizedCategory(clone_string(t)));
                }
            },
        };
        let name = match find_attr(attributes, "name") {
            None => {
                return Err(ParseError::MissingRequiredAttributeOrChild {
                    element: "enums".to_owned(),
                    field: "name".to_owned(),
                });
            },
            Some(n) => clone_string(n),
        };
        let mut s = XmlContents::new_inside();
        proof {
            c.lemma_bounds();
        }
        match collect_enum_values(&mut s, c) {
            Err(e) => Err(e),
            Ok(values) => Ok(Some(EnumsInfo { name, ty, values })),
        }
    }
}

} // verus!
