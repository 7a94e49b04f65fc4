//! Requirements, features and extensions.
//!
//! A feature is a core, versioned capability set; an extension is a numbered,
//! optionally platform-guarded addendum.  Both carry an ordered list of
//! requirements, read from `<require>` blocks; an `EnumExtension` requirement
//! injects a new named value into an enum defined elsewhere.

use vstd::prelude::*;
use vstd::string::*;
use crate::errors::{ParseError, ParseErrorV, ParseResult};
use crate::events::{Cursor, Attribute, AttrV, Event, EventV, clone_string, attrs_view};
use crate::scope::XmlContents;
use crate::find::{FindOutcome, find_req, find_req_tag, depth_at_found,
    lemma_find_req_bounds, lemma_depth_at_found_pos, find_in_scope, find_child_tag};
use crate::strutil::{str_eq, csv_of, strings_view, split_csv, int_literal_ok, int_literal_val,
    uint_literal_ok, uint_literal_val, parse_isize, parse_u8};
use crate::xast::{attr_lookup, find_attr};
use crate::fields::{EnumValue, EnumValueV};

verus! {

/// How an enum-extension requirement derives its value.
#[derive(Debug, Clone)]
pub enum EnumExtensionStrategy {
    /// A value carried by the requirement itself: a bit position or a
    /// literal.
    Value(EnumValue),
    /// A value computed from the owning extension's number and this offset.
    Offset { offset: isize, negated: bool },
}

/// Spec-level value of an [`EnumExtensionStrategy`].
pub enum EnumExtensionStrategyV {
    Value(EnumValueV),
    Offset { offset: isize, negated: bool },
}

impl View for EnumExtensionStrategy {
    type V = EnumExtensionStrategyV;

    open spec fn view(&self) -> EnumExtensionStrategyV {
        match self {
            EnumExtensionStrategy::Value(v) => EnumExtensionStrategyV::Value(v@),
            EnumExtensionStrategy::Offset { offset, negated } => EnumExtensionStrategyV::Offset {
                offset: *offset,
                negated: *negated,
            },
        }
    }
}

/// One requirement entry of a feature or extension.
#[derive(Debug, Clone)]
pub enum Requirement {
    /// A type this entity requires.
    Type(String),
    /// A command this entity requires.
    Command(String),
    /// An existing constant marked as required; no new value.
    Enum(String),
    /// A wholly new constant, not tied to an existing enum.
    Constant { name: String, value: EnumValue, ty: Option<String> },
    /// A new value injected into the named enum.
    EnumExtension { name: String, extends: String, value: EnumExtensionStrategy },
}

/// Spec-level value of a [`Requirement`].
pub enum RequirementV {
    Type(Seq<char>),
    Command(Seq<char>),
    Enum(Seq<char>),
    Constant { name: Seq<char>, value: EnumValueV, ty: Option<Seq<char>> },
    EnumExtension { name: Seq<char>, extends: Seq<char>, value: EnumExtensionStrategyV },
}

impl View for Requirement {
    type V = RequirementV;

    open spec fn view(&self) -> RequirementV {
        match self {
            Requirement::Type(n) => RequirementV::Type(n@),
            Requirement::Command(n) => RequirementV::Command(n@),
            Requirement::Enum(n) => RequirementV::Enum(n@),
            Requirement::Constant { name, value, ty } => RequirementV::Constant {
                name: name@,
                value: value@,
                ty: match ty {
                    Some(t) => Some(t@),
                    None => None,
                },
            },
            Requirement::EnumExtension { name, extends, value } => RequirementV::EnumExtension {
                name: name@,
                extends: extends@,
                value: value@,
            },
        }
    }
}

/// The derivation strategy an `<enum>` requirement's attributes declare:
/// an `offset` (with optional negating `dir`), else a raw `value`, else a
/// `bitpos`; a declaration with none of them is an error.
pub open spec fn strategy_of(attrs: Seq<AttrV>) -> Result<EnumExtensionStrategyV, ParseErrorV> {
    match attr_lookup(attrs, "offset"@) {
        Some(o) => if int_literal_ok(o) && isize::MIN <= int_literal_val(o) <= isize::MAX {
            Ok(EnumExtensionStrategyV::Offset {
                offset: int_literal_val(o) as isize,
                negated: attr_lookup(attrs, "dir"@) == Some("-"@),
            })
        } else {
            Err(ParseErrorV::MalformedNumericLiteral { field: "offset"@, raw: o })
        },
        None => match attr_lookup(attrs, "value"@) {
            Some(v) => Ok(EnumExtensionStrategyV::Value(EnumValueV::StrValue(v))),
            None => match attr_lookup(attrs, "bitpos"@) {
                Some(bp) => if uint_literal_ok(bp) && uint_literal_val(bp) <= u8::MAX {
                    Ok(EnumExtensionStrategyV::Value(EnumValueV::Bitpos(
                        uint_literal_val(bp) as u8,
                    )))
                } else {
                    Err(ParseErrorV::MalformedNumericLiteral { field: "bitpos"@, raw: bp })
                },
                None => Err(ParseErrorV::MissingRequiredAttributeOrChild {
                    element: "enum"@,
                    field: "value"@,
                }),
            },
        },
    }
}

/// The requirement a start tag denotes, from its name and attributes.
pub open spec fn requirement_of(tag: Seq<char>, attrs: Seq<AttrV>) -> Result<
    RequirementV,
    ParseErrorV,
> {
    if tag == "type"@ {
        match attr_lookup(attrs, "name"@) {
            None => Err(ParseErrorV::MissingRequiredAttributeOrChild {
                element: tag,
                field: "name"@,
            }),
            Some(nm) => Ok(RequirementV::Type(nm)),
        }
    } else if tag == "command"@ {
        match attr_lookup(attrs, "name"@) {
            None => Err(ParseErrorV::MissingRequiredAttributeOrChild {
                element: tag,
                field: "name"@,
            }),
            Some(nm) => Ok(RequirementV::Command(nm)),
        }
    } else {
        match attr_lookup(attrs, "name"@) {
            None => Err(ParseErrorV::MissingRequiredAttributeOrChild {
                element: tag,
                field: "name"@,
            }),
            Some(nm) => match attr_lookup(attrs, "extends"@) {
                Some(ext) => match strategy_of(attrs) {
                    Err(e) => Err(e),
                    Ok(st) => Ok(RequirementV::EnumExtension {
                        name: nm,
                        extends: ext,
                        value: st,
                    }),
                },
                None => match attr_lookup(attrs, "value"@) {
                    Some(v) => Ok(RequirementV::Constant {
                        name: nm,
                        value: EnumValueV::StrValue(v),
                        ty: attr_lookup(attrs, "type"@),
                    }),
                    None => match attr_lookup(attrs, "bitpos"@) {
                        Some(bp) => if uint_literal_ok(bp) && uint_literal_val(bp) <= u8::MAX {
                            Ok(RequirementV::Constant {
                                name: nm,
                                value: EnumValueV::Bitpos(uint_literal_val(bp) as u8),
                                ty: attr_lookup(attrs, "type"@),
                            })
                        } else {
                            Err(ParseErrorV::MalformedNumericLiteral {
                                field: "bitpos"@,
                                raw: bp,
                            })
                        },
                        None => Ok(RequirementV::Enum(nm)),
                    },
                },
            },
        }
    }
}

impl Requirement {
    /// Interprets a requirement start tag.
    pub fn from_tag(tag: &String, attrs: &Vec<Attribute>) -> (r: ParseResult<Requirement>)
        ensures
            match requirement_of(tag@, attrs_view(attrs@)) {
                Ok(rq) => r matches Result::Ok(v) && v@ == rq,
                Err(e) => r matches Result::Err(err) && err@ == e,
            },
    {
        let name = match find_attr(attrs, "name") {
            None => {
                return Err(ParseError::MissingRequiredAttributeOrChild {
                    element: clone_string(tag),
                    field: "name".to_owned(),
                });
            },
            Some(n) => clone_string(n),
        };
        if str_eq(tag.as_str(), "type") {
            Ok(Requirement::Type(name))
        } else if str_eq(tag.as_str(), "command") {
            Ok(Requirement::Command(name))
        } else {
            match find_attr(attrs, "extends") {
                Some(ext) => {
                    let st = match find_attr(attrs, "offset") {
                        Some(o) => match parse_isize(o.as_str()) {
                            None => {
                                return Err(ParseError::MalformedNumericLiteral {
                                    field: "offset".to_owned(),
                                    raw: clone_string(o),
                                });
                            },
                            Some(offset) => {
                                let negated = match find_attr(attrs, "dir") {
                                    Some(d) => str_eq(d.as_str(), "-"),
                                    None => false,
                                };
                                EnumExtensionStrategy::Offset { offset, negated }
                            },
                        },
                        None => match find_attr(attrs, "value") {
                            Some(v) => EnumExtensionStrategy::Value(EnumValue::StrValue(
                                clone_string(v),
                            )),
                            None => match find_attr(attrs, "bitpos") {
                                Some(bp) => match parse_u8(bp.as_str()) {
                                    None => {
                                        return Err(ParseError::MalformedNumericLiteral {
                                            field: "bitpos".to_owned(),
                                            raw: clone_string(bp),
                                        });
                                    },
                                    Some(b) => EnumExtensionStrategy::Value(EnumValue::Bitpos(b)),
                                },
                                None => {
                                    return Err(ParseError::MissingRequiredAttributeOrChild {
                                        element: "enum".to_owned(),
                                        field: "value".to_owned(),
                                    });
                                },
                            },
                        },
                    };
                    Ok(Requirement::EnumExtension {
                        name,
                        extends: clone_string(ext),
                        value: st,
                    })
                },
                None => {
                    let ty = match find_attr(attrs, "type") {
                        Some(t) => Some(clone_string(t)),
                        None => None,
                    };
                    match find_attr(attrs, "value") {
                        Some(v) => Ok(Requirement::Constant {
                            name,
                            value: EnumValue::StrValue(clone_string(v)),
                            ty,
                        }),
                        None => match find_attr(attrs, "bitpos") {
                            Some(bp) => match parse_u8(bp.as_str()) {
                                None => Err(ParseError::MalformedNumericLiteral {
                                    field: "bitpos".to_owned(),
                                    raw: clone_string(bp),
                                }),
                                Some(b) => Ok(Requirement::Constant {
                                    name,
                                    value: EnumValue::Bitpos(b),
                                    ty,
                                }),
                            },
                            None => Ok(Requirement::Enum(name)),
                        },
                    }
                },
            }
        }
    }

    /// Produces the next requirement inside the current scope, at any
    /// nesting, or `None` when the scope closes or the stream ends.
    pub fn parse_next_requirement(s: &mut XmlContents, c: &mut Cursor) -> (r: Option<
        ParseResult<Requirement>,
    >)
        requires
            old(c).wf(),
            old(s).depth() >= 1,
            old(s).depth() <= old(c).at() + 1,
        ensures
            final(c).wf(),
            final(c).stream() == old(c).stream(),
            final(s).depth() <= final(c).at() + 1,
            ({
                let es = old(c).stream();
                let p = old(c).at();
                let d = old(s).depth();
                match find_req(es, p, d) {
                    FindOutcome::Found(q) => {
                        &&& match requirement_of(es[q]->StartTag_name, es[q]->StartTag_attributes) {
                            Ok(rq) => r matches Option::Some(Result::Ok(v)) && v@ == rq,
                            Err(e) => r matches Option::Some(Result::Err(err)) && err@ == e,
                        }
                        &&& final(c).at() == q + 1
                        &&& final(s).depth() == depth_at_found(es, p, d) + 1
                    },
                    FindOutcome::Ended(q) => {
                        &&& r is None
                        &&& final(c).at() == q + 1
                        &&& final(s).depth() == 0
                    },
                    FindOutcome::Failed(q) => {
                        &&& r matches Option::Some(Result::Err(err)) && err@ matches
                            ParseErrorV::MalformedSource(m) && EventV::Fault(m) == es[q]
                        &&& final(c).at() == q + 1
                    },
                    FindOutcome::Truncated => {
                        &&& r is None
                        &&& final(c).at() == es.len()
                    },
                }
            }),
    {
        match find_req_tag(s, c) {
            Err(e) => Some(Err(e)),
            Ok(None) => None,
            Ok(Some((tag, attrs))) => Some(Requirement::from_tag(&tag, &attrs)),
        }
    }
}

/// View of a requirement list.
pub open spec fn reqs_view(v: Seq<Requirement>) -> Seq<RequirementV> {
    v.map_values(|r: Requirement| r@)
}

/// Outcome of scanning a scope for its requirements.
pub enum ReqScan {
    /// The requirements in order, and the cursor position after the scan.
    Done(Seq<RequirementV>, int),
    /// The first error met.
    Bad(ParseErrorV),
}

/// Scans from `p` with `d` open levels for requirement entries, at any
/// nesting inside the scope.
pub open spec fn scan_requirements(es: Seq<EventV>, p: int, d: int) -> ReqScan
    decreases es.len() - p,
{
    match find_req(es, p, d) {
        FindOutcome::Ended(q) => ReqScan::Done(Seq::empty(), q + 1),
        FindOutcome::Truncated => ReqScan::Done(Seq::empty(), es.len() as int),
        FindOutcome::Failed(q) => ReqScan::Bad(ParseErrorV::MalformedSource(es[q]->Fault_0)),
        FindOutcome::Found(q) => if p <= q && q + 1 <= es.len() {
            match requirement_of(es[q]->StartTag_name, es[q]->StartTag_attributes) {
                Err(e) => ReqScan::Bad(e),
                Ok(rq) => match scan_requirements(es, q + 1, depth_at_found(es, p, d) + 1) {
                    ReqScan::Bad(e) => ReqScan::Bad(e),
                    ReqScan::Done(rest, end) => ReqScan::Done(seq![rq] + rest, end),
                },
            }
        } else {
            ReqScan::Done(Seq::empty(), p)
        },
    }
}

/// A requirement scan that completes ends inside the sequence, at or after
/// where it began.
pub proof fn lemma_scan_requirements_bounds(es: Seq<EventV>, p: int, d: int)
    requires
        0 <= p <= es.len(),
    ensures
        match scan_requirements(es, p, d) {
            ReqScan::Done(_, end) => p <= end <= es.len(),
            ReqScan::Bad(_) => true,
        },
    decreases es.len() - p,
{
    lemma_find_req_bounds(es, p, d);
    match find_req(es, p, d) {
        FindOutcome::Found(q) => {
            lemma_scan_requirements_bounds(es, q + 1, depth_at_found(es, p, d) + 1);
        },
        _ => {},
    }
}

/// Collects every requirement of the scope the cursor stands in.
pub fn collect_requirements(s: &mut XmlContents, c: &mut Cursor) -> (r: ParseResult<
    Vec<Requirement>,
>)
    requires
        old(c).wf(),
        old(s).depth() >= 1,
        old(s).depth() <= old(c).at() + 1,
    ensures
        final(c).wf(),
        final(c).stream() == old(c).stream(),
        ({
            let es = old(c).stream();
            match scan_requirements(es, old(c).at(), old(s).depth()) {
                ReqScan::Done(reqs, end) => {
                    &&& r matches Result::Ok(v) && reqs_view(v@) == reqs
                    &&& final(c).at() == end
                },
                ReqScan::Bad(e) => r matches Result::Err(err) && err@ == e,
            }
        }),
{
    let ghost es = c.stream();
    let ghost p0 = c.at();
    let ghost d0 = s.depth();
    let mut acc: Vec<Requirement> = Vec::new();
    proof {
        c.lemma_bounds();
        assert(reqs_view(acc@) =~= Seq::<RequirementV>::empty());
    }
    loop
        invariant_except_break
            c.wf(),
            c.stream() == es,
            es == old(c).stream(),
            p0 == old(c).at(),
            d0 == old(s).depth(),
            s.depth() >= 1,
            s.depth() <= c.at() + 1,
            0 <= c.at(),
            ({
                match scan_requirements(es, c.at(), s.depth()) {
                    ReqScan::Done(rest, end) => scan_requirements(es, p0, d0) ==
                        ReqScan::Done(reqs_view(acc@) + rest, end),
                    ReqScan::Bad(e) => scan_requirements(es, p0, d0) == ReqScan::Bad(e),
                }
            }),
        ensures
            c.wf(),
            c.stream() == es,
            es == old(c).stream(),
            p0 == old(c).at(),
            d0 == old(s).depth(),
            ({
                match scan_requirements(es, p0, d0) {
                    ReqScan::Done(reqs, end) => reqs_view(acc@) == reqs && c.at() == end,
                    ReqScan::Bad(_) => false,
                }
            }),
        decreases es.len() - c.at(),
    {
        let ghost m = c.at();
        let ghost d = s.depth();
        proof {
            c.lemma_bounds();
            lemma_find_req_bounds(es, m, d);
            lemma_depth_at_found_pos(es, m, d);
        }
        match Requirement::parse_next_requirement(s, c) {
            None => {
                proof {
                    assert(reqs_view(acc@) =~= reqs_view(acc@) + Seq::<RequirementV>::empty());
                }
                break;
            },
            Some(Err(e)) => {
                return Err(e);
            },
            Some(Ok(rq)) => {
                let ghost q = find_req(es, m, d)->Found_0;
                proof {
                    let rest0 = scan_requirements(es, q + 1, depth_at_found(es, m, d) + 1);
                    assert(reqs_view(acc@.push(rq)) =~= reqs_view(acc@).push(rq@));
                    if rest0 is Done {
                        let rest = rest0->Done_0;
                        assert(reqs_view(acc@).push(rq@) + rest =~=
                            reqs_view(acc@) + (seq![rq@] + rest));
                    }
                }
                acc.push(rq);
            },
        }
    }
    Ok(acc)
}

/// A feature: a core, versioned capability set.
#[derive(Debug)]
pub struct FeatureInfo {
    pub name: String,
    pub api: String,
    pub number: String,
    pub requirements: Vec<Requirement>,
}

/// Spec-level value of a [`FeatureInfo`].
pub struct FeatureInfoV {
    pub name: Seq<char>,
    pub api: Seq<char>,
    pub number: Seq<char>,
    pub requirements: Seq<RequirementV>,
}

impl View for FeatureInfo {
    type V = FeatureInfoV;

    open spec fn view(&self) -> FeatureInfoV {
        FeatureInfoV {
            name: self.name@,
            api: self.api@,
            number: self.number@,
            requirements: reqs_view(self.requirements@),
        }
    }
}

/// The feature a `<feature>` element denotes: its requirement list, read
/// from its whole scope, and its mandatory `name`, `api` and `number`
/// attributes.
pub open spec fn feature_of(es: Seq<EventV>, p: int, attrs: Seq<AttrV>) -> Result<
    FeatureInfoV,
    ParseErrorV,
> {
    match scan_requirements(es, p, 1) {
        ReqScan::Bad(e) => Err(e),
        ReqScan::Done(reqs, _) => match attr_lookup(attrs, "name"@) {
            None => Err(ParseErrorV::MissingRequiredAttributeOrChild {
                element: "feature"@,
                field: "name"@,
            }),
            Some(nm) => match attr_lookup(attrs, "api"@) {
                None => Err(ParseErrorV::MissingRequiredAttributeOrChild {
                    element: "feature"@,
                    field: "api"@,
                }),
                Some(api) => match attr_lookup(attrs, "number"@) {
                    None => Err(ParseErrorV::MissingRequiredAttributeOrChild {
                        element: "feature"@,
                        field: "number"@,
                    }),
                    Some(num) => Ok(FeatureInfoV {
                        name: nm,
                        api,
                        number: num,
                        requirements: reqs,
                    }),
                },
            },
        },
    }
}

/// The cursor position after a scope's requirement scan.
pub open spec fn requirements_end(es: Seq<EventV>, p: int) -> int {
    match scan_requirements(es, p, 1) {
        ReqScan::Done(_, end) => end,
        ReqScan::Bad(_) => es.len() as int,
    }
}

impl FeatureInfo {
    /// Parses the `<feature>` element whose start tag — with these
    /// attributes — the cursor has just passed, consuming its scope.
    pub fn parse_from(c: &mut Cursor, attributes: &Vec<Attribute>) -> (r: ParseResult<
        FeatureInfo,
    >)
        requires
            old(c).wf(),
        ensures
            final(c).wf(),
            final(c).stream() == old(c).stream(),
            ({
                let es = old(c).stream();
                let p = old(c).at();
                match feature_of(es, p, attrs_view(attributes@)) {
                    Ok(f) => {
                        &&& r matches Result::Ok(v) && v@ == f
                        &&& final(c).at() == requirements_end(es, p)
                    },
                    Err(e) => r matches Result::Err(err) && err@ == e,
                }
            }),
    {
        let mut s = XmlContents::new_inside();
        proof {
            c.lemma_bounds();
        }
        let requirements = match collect_requirements(&mut s, c) {
            Err(e) => {
                return Err(e);
            },
            Ok(reqs) => reqs,
        };
        let name = match find_attr(attributes, "name") {
            None => {
                return Err(ParseError::MissingRequiredAttributeOrChild {
                    element: "feature".to_owned(),
                    field: "name".to_owned(),
                });
            },
            Some(v) => clone_string(v),
        };
        let api = match find_attr(attributes, "api") {
            None => {
                return Err(ParseError::MissingRequiredAttributeOrChild {
                    element: "feature".to_owned(),
                    field: "api".to_owned(),
                });
            },
            Some(v) => clone_string(v),
        };
        let number = match find_attr(attributes, "number") {
            None => {
                return Err(ParseError::MissingRequiredAttributeOrChild {
                    element: "feature".to_owned(),
                    field: "number".to_owned(),
                });
            },
            Some(v) => clone_string(v),
        };
        Ok(FeatureInfo { name, api, number, requirements })
    }

    /// Produces the next `<feature>` entity of the raw stream, or `None`
    /// when the stream ends.
    pub fn parse_next_feature(c: &mut Cursor) -> (r: Option<ParseResult<FeatureInfo>>)
        requires
            old(c).wf(),
        ensures
            final(c).wf(),
            final(c).stream() == old(c).stream(),
            ({
                let es = old(c).stream();
                let p = old(c).at();
                match find_raw(es, p, "feature"@) {
                    FindOutcome::Found(q) => {
                        match feature_of(es, q + 1, es[q]->StartTag_attributes) {
                            Ok(f) => {
                                &&& r matches Option::Some(Result::Ok(v)) && v@ == f
                                &&& final(c).at() == requirements_end(es, q + 1)
                            },
                            Err(e) => r matches Option::Some(Result::Err(err)) && err@ == e,
                        }
                    },
                    FindOutcome::Failed(q) => {
                        &&& r matches Option::Some(Result::Err(err)) && err@ matches
                            ParseErrorV::MalformedSource(m) && EventV::Fault(m) == es[q]
                        &&& final(c).at() == q + 1
                    },
                    _ => {
                        &&& r is None
                        &&& final(c).at() == es.len()
                    },
                }
            }),
    {
        match find_raw_tag(c, "feature") {
            Err(e) => Some(Err(e)),
            Ok(None) => None,
            Ok(Some((_, attrs))) => Some(FeatureInfo::parse_from(c, &attrs)),
        }
    }
}

/// Result of a trusted compilation check on a `supported` pattern: whether
/// the pattern compiles as a matcher depends on the pattern text alone.
pub uninterp spec fn pattern_ok(pat: Seq<char>) -> bool;

/// Relies on `regex::Regex::new`: compiling the pattern as a regular
/// expression succeeds or fails by the pattern text alone; only the verdict
/// is kept — the core never filters by it.
#[verifier::external_body]
fn pattern_compiles(pat: &str) -> (r: bool)
    ensures
        r == pattern_ok(pat@),
{
    regex::Regex::new(pat).is_ok()
}

/// An extension's classification: disabled, or a device or instance
/// extension with its `supported` pattern (validated as a matcher and kept
/// as text; filtering is the caller's business).
#[derive(Debug)]
pub enum ExtensionType {
    Disabled,
    Device { supported: String },
    Instance { supported: String },
}

/// Spec-level value of an [`ExtensionType`].
pub enum ExtensionTypeV {
    Disabled,
    Device { supported: Seq<char> },
    Instance { supported: Seq<char> },
}

impl View for ExtensionType {
    type V = ExtensionTypeV;

    open spec fn view(&self) -> ExtensionTypeV {
        match self {
            ExtensionType::Disabled => ExtensionTypeV::Disabled,
            ExtensionType::Device { supported } => ExtensionTypeV::Device {
                supported: supported@,
            },
            ExtensionType::Instance { supported } => ExtensionTypeV::Instance {
                supported: supported@,
            },
        }
    }
}

/// The classification an `<extension>` start tag declares: no `type`
/// attribute means disabled; otherwise the `supported` pattern must be
/// present and compile, and the `type` must name a known kind.
pub open spec fn ext_type_of(attrs: Seq<AttrV>) -> Result<ExtensionTypeV, ParseErrorV> {
    match attr_lookup(attrs, "type"@) {
        None => Ok(ExtensionTypeV::Disabled),
        Some(t) => match attr_lookup(attrs, "supported"@) {
            None => Err(ParseErrorV::MissingRequiredAttributeOrChild {
                element: "extension"@,
                field: "supported"@,
            }),
            Some(pat) => if !pattern_ok(pat) {
                Err(ParseErrorV::MalformedPattern(pat))
            } else if t == "instance"@ {
                Ok(ExtensionTypeV::Instance { supported: pat })
            } else if t == "device"@ {
                Ok(ExtensionTypeV::Device { supported: pat })
            } else {
                Err(ParseErrorV::UnrecognizedCategory(t))
            },
        },
    }
}

/// The extension number an `<extension>` start tag declares.
pub open spec fn number_of(attrs: Seq<AttrV>) -> Result<isize, ParseErrorV> {
    match attr_lookup(attrs, "number"@) {
        None => Err(ParseErrorV::MissingRequiredAttributeOrChild {
            element: "extension"@,
            field: "number"@,
        }),
        Some(n) => if int_literal_ok(n) && isize::MIN <= int_literal_val(n) <= isize::MAX {
            Ok(int_literal_val(n) as isize)
        } else {
            Err(ParseErrorV::MalformedNumericLiteral { field: "number"@, raw: n })
        },
    }
}

/// An extension: a numbered, optionally platform-guarded addendum.
#[derive(Debug)]
pub struct ExtensionInfo {
    pub name: String,
    pub number: isize,
    pub author: Option<String>,
    pub contact: Option<String>,
    pub ty: ExtensionType,
    /// Names of extensions this one requires; empty when not declared.
    pub requires: Vec<String>,
    pub protect: Option<String>,
    pub requirements: Vec<Requirement>,
}

/// Spec-level value of an [`ExtensionInfo`].
pub struct ExtensionInfoV {
    pub name: Seq<char>,
    pub number: isize,
    pub author: Option<Seq<char>>,
    pub contact: Option<Seq<char>>,
    pub ty: ExtensionTypeV,
    pub requires: Seq<Seq<char>>,
    pub protect: Option<Seq<char>>,
    pub requirements: Seq<RequirementV>,
}

impl View for ExtensionInfo {
    type V = ExtensionInfoV;

    open spec fn view(&self) -> ExtensionInfoV {
        ExtensionInfoV {
            name: self.name@,
            number: self.number,
            author: match self.author {
                Some(ref a) => Some(a@),
                None => None,
            },
            contact: match self.contact {
                Some(ref a) => Some(a@),
                None => None,
            },
            ty: self.ty@,
            requires: strings_view(self.requires@),
            protect: match self.protect {
                Some(ref a) => Some(a@),
                None => None,
            },
            requirements: reqs_view(self.requirements@),
        }
    }
}

/// The extension an `<extension>` element denotes: mandatory `name` and
/// `number`, its classification, its dependency list and guard token, and
/// its requirements read from its whole scope.
pub open spec fn ext_of(es: Seq<EventV>, p: int, attrs: Seq<AttrV>) -> Result<
    ExtensionInfoV,
    ParseErrorV,
> {
    match attr_lookup(attrs, "name"@) {
        None => Err(ParseErrorV::MissingRequiredAttributeOrChild {
            element: "extension"@,
            field: "name"@,
        }),
        Some(nm) => match number_of(attrs) {
            Err(e) => Err(e),
            Ok(num) => match ext_type_of(attrs) {
                Err(e) => Err(e),
                Ok(ty) => match scan_requirements(es, p, 1) {
                    ReqScan::Bad(e) => Err(e),
                    ReqScan::Done(reqs, _) => Ok(ExtensionInfoV {
                        name: nm,
                        number: num,
                        author: attr_lookup(attrs, "author"@),
                        contact: attr_lookup(attrs, "contact"@),
                        ty,
                        requires: match attr_lookup(attrs, "requires"@) {
                            Some(v) => csv_of(v),
                            None => Seq::empty(),
                        },
                        protect: attr_lookup(attrs, "protect"@),
                        requirements: reqs,
                    }),
                },
            },
        },
    }
}

/// The guard name a platform-protect token denotes: a `protect` token of
/// the form `VK_USE_PLATFORM_...` names the build gate `PLATFORM_...`
/// (the token with its `VK_USE_` head removed); any other token names none.
pub open spec fn feature_name_of(protect: Option<Seq<char>>) -> Option<Seq<char>> {
    match protect {
        None => None,
        Some(p) => if p.len() >= "VK_USE_PLATFORM_"@.len()
            && p.subrange(0, "VK_USE_PLATFORM_"@.len() as int) == "VK_USE_PLATFORM_"@ {
            Some(p.skip("VK_USE_"@.len() as int))
        } else {
            None
        },
    }
}

impl ExtensionInfo {
    /// The name of the build gate this extension's `protect` token asks
    /// for, if it is a platform guard.
    pub fn feature_name(&self) -> (r: Option<String>)
        ensures
            match feature_name_of(match self.protect {
                Some(ref p) => Some(p@),
                None => None,
            }) {
                Some(n) => r matches Option::Some(s) && s@ == n,
                None => r is None,
            },
    {
        let p = match &self.protect {
            None => {
                return None;
            },
            Some(p) => p,
        };
        let prefix = "VK_USE_PLATFORM_";
        let plen = prefix.unicode_len();
        let n = p.as_str().unicode_len();
        if n < plen {
            return None;
        }
        let head = p.as_str().substring_char(0, plen);
        if !str_eq(head, prefix) {
            proof {
                assert(p@.subrange(0, "VK_USE_PLATFORM_"@.len() as int) != "VK_USE_PLATFORM_"@);
            }
            return None;
        }
        let cut = "VK_USE_".unicode_len();
        proof {
            assert("VK_USE_"@.len() <= "VK_USE_PLATFORM_"@.len()) by {
                reveal_strlit("VK_USE_");
                reveal_strlit("VK_USE_PLATFORM_");
            }
        }
        Some(p.as_str().substring_char(cut, n).to_owned())
    }

    /// Splits a `requires` attribute into the named dependencies.
    pub fn parse_dependencies(dependencies: &str) -> (r: Vec<String>)
        ensures
            strings_view(r@) == csv_of(dependencies@),
    {
        split_csv(dependencies)
    }

    /// Parses the `<extension>` element whose start tag — with these
    /// attributes — the cursor has just passed, consuming its scope.
    pub fn parse_from(c: &mut Cursor, attributes: &Vec<Attribute>) -> (r: ParseResult<
        ExtensionInfo,
    >)
        requires
            old(c).wf(),
        ensures
            final(c).wf(),
            final(c).stream() == old(c).stream(),
            ({
                let es = old(c).stream();
                let p = old(c).at();
                match ext_of(es, p, attrs_view(attributes@)) {
                    Ok(x) => {
                        &&& r matches Result::Ok(v) && v@ == x
                        &&& final(c).at() == requirements_end(es, p)
                    },
                    Err(e) => r matches Result::Err(err) && err@ == e,
                }
            }),
    {
        let mut s = XmlContents::new_inside();
        proof {
            c.lemma_bounds();
        }
        let reqs = collect_requirements(&mut s, c);
        let name = match find_attr(attributes, "name") {
            None => {
                return Err(ParseError::MissingRequiredAttributeOrChild {
                    element: "extension".to_owned(),
                    field: "name".to_owned(),
                });
            },
            Some(v) => clone_string(v),
        };
        let number = match find_attr(attributes, "number") {
            None => {
                return Err(ParseError::MissingRequiredAttributeOrChild {
                    element: "extension".to_owned(),
                    field: "number".to_owned(),
                });
            },
            Some(n) => match parse_isize(n.as_str()) {
                None => {
                    return Err(ParseError::MalformedNumericLiteral {
                        field: "number".to_owned(),
                        raw: clone_string(n),
                    });
                },
                Some(v) => v,
            },
        };
        let ty = match find_attr(attributes, "type") {
            None => ExtensionType::Disabled,
            Some(t) => {
                let pat = match find_attr(attributes, "supported") {
                    None => {
                        return Err(ParseError::MissingRequiredAttributeOrChild {
                            element: "extension".to_owned(),
                            field: "supported".to_owned(),
                        });
                    },
                    Some(p) => p,
                };
                if !pattern_compiles(pat.as_str()) {
                    return Err(ParseError::MalformedPattern(clone_string(pat)));
                } else if str_eq(t.as_str(), "instance") {
                    ExtensionType::Instance { supported: clone_string(pat) }
                } else if str_eq(t.as_str(), "device") {
                    ExtensionType::Device { supported: clone_string(pat) }
                } else {
                    return Err(ParseError::UnrecognizedCategory(clone_string(t)));
                }
            },
        };
        let requires_list = match find_attr(attributes, "requires") {
            Some(v) => split_csv(v.as_str()),
            None => Vec::new(),
        };
        proof {
            if attr_lookup(attrs_view(attributes@), "requires"@) is None {
                assert(strings_view(requires_list@) =~= Seq::<Seq<char>>::empty());
            }
        }
        let author = match find_attr(attributes, "author") {
            Some(v) => Some(clone_string(v)),
            None => None,
        };
        let contact = match find_attr(attributes, "contact") {
            Some(v) => Some(clone_string(v)),
            None => None,
        };
        let protect = match find_attr(attributes, "protect") {
            Some(v) => Some(clone_string(v)),
            None => None,
        };
        match reqs {
            Err(e) => Err(e),
            Ok(requirements) => Ok(ExtensionInfo {
                name,
                number,
                author,
                contact,
                ty,
                requires: requires_list,
                protect,
                requirements,
            }),
        }
    }

    /// Produces the next `<extension>` entity directly inside the current
    /// scope, or `None` when the scope closes or the stream ends.
    pub fn parse_next_extension(s: &mut XmlContents, c: &mut Cursor) -> (r: Option<
        ParseResult<ExtensionInfo>,
    >)
        requires
            old(c).wf(),
            old(s).depth() >= 1,
            old(s).depth() <= old(c).at() + 1,
        ensures
            final(c).wf(),
            final(c).stream() == old(c).stream(),
            final(s).depth() <= final(c).at() + 1,
            ({
                let es = old(c).stream();
                let p = old(c).at();
                let d = old(s).depth();
                match find_in_scope(es, p, d, "extension"@) {
                    FindOutcome::Found(q) => {
                        match ext_of(es, q + 1, es[q]->StartTag_attributes) {
                            Ok(x) => {
                                &&& r matches Option::Some(Result::Ok(v)) && v@ == x
                                &&& final(c).at() == requirements_end(es, q + 1)
                                &&& final(s).depth() == 1
                            },
                            Err(e) => r matches Option::Some(Result::Err(err)) && err@ == e,
                        }
                    },
                    FindOutcome::Ended(q) => {
                        &&& r is None
                        &&& final(c).at() == q + 1
                        &&& final(s).depth() == 0
                    },
                    FindOutcome::Failed(q) => {
                        &&& r matches Option::Some(Result::Err(err)) && err@ matches
                            ParseErrorV::MalformedSource(m) && EventV::Fault(m) == es[q]
                        &&& final(c).at() == q + 1
                    },
                    FindOutcome::Truncated => {
                        &&& r is None
                        &&& final(c).at() == es.len()
                    },
                }
            }),
    {
        let ghost es = c.stream();
        match find_child_tag(s, c, "extension") {
            Err(e) => Some(Err(e)),
            Ok(None) => None,
            Ok(Some((_, attributes))) => {
                proof {
                    c.lemma_bounds();
                }
                let x = ExtensionInfo::parse_from(c, &attributes);
                proof {
                    c.lemma_bounds();
                }
                s.child_closed();
                Some(x)
            },
        }
    }
}

/// Scans a raw, unscoped stream for a start tag of that name: end tags move
/// no counter here; a fault or the stream's end stops the scan.
pub open spec fn find_raw(es: Seq<EventV>, p: int, tag: Seq<char>) -> FindOutcome
    decreases es.len() - p,
{
    if p < 0 || p >= es.len() {
        FindOutcome::Truncated
    } else {
        match es[p] {
            EventV::Fault(_) => FindOutcome::Failed(p),
            EventV::StartTag { name, .. } => if name == tag {
                FindOutcome::Found(p)
            } else {
                find_raw(es, p + 1, tag)
            },
            _ => find_raw(es, p + 1, tag),
        }
    }
}

/// Advances the raw stream to the next start tag of that name.
pub fn find_raw_tag(c: &mut Cursor, tag: &str) -> (r: Result<
    Option<(String, Vec<Attribute>)>,
    ParseError,
>)
    requires
        old(c).wf(),
    ensures
        final(c).wf(),
        final(c).stream() == old(c).stream(),
        ({
            let es = old(c).stream();
            let p = old(c).at();
            match find_raw(es, p, tag@) {
                FindOutcome::Found(q) => {
                    &&& r matches Result::Ok(Option::Some((name, attrs))) &&
                        EventV::StartTag {
                            name: name@,
                            attributes: attrs_view(attrs@),
                        } == es[q]
                    &&& final(c).at() == q + 1
                },
                FindOutcome::Failed(q) => {
                    &&& r matches Result::Err(err) && err@ matches
                        ParseErrorV::MalformedSource(m) && EventV::Fault(m) == es[q]
                    &&& final(c).at() == q + 1
                },
                _ => {
                    &&& r matches Result::Ok(o) && o is None
                    &&& final(c).at() == es.len()
                },
            }
        }),
{
    let ghost es = c.stream();
    let ghost p0 = c.at();
    proof {
        c.lemma_bounds();
    }
    loop
        invariant
            c.wf(),
            c.stream() == es,
            es == old(c).stream(),
            p0 == old(c).at(),
            0 <= p0 <= c.at(),
            find_raw(es, p0, tag@) == find_raw(es, c.at(), tag@),
        decreases es.len() - c.at(),
    {
        proof {
            c.lemma_bounds();
        }
        match c.next() {
            None => {
                return Ok(None);
            },
            Some(e) => {
                match e {
                    Event::StartTag { name, attributes } => {
                        if str_eq(name.as_str(), tag) {
                            return Ok(Some((name, attributes)));
                        }
                    },
                    Event::Fault(msg) => {
                        return Err(ParseError::MalformedSource(msg));
                    },
                    _ => {},
                }
            },
        }
    }
}

} // verus!
