//! The registry assembler: one full forward pass over the document,
//! dispatching each top-level section to its typed parser and accumulating
//! the results.
//!
//! The `types` section must exist somewhere in the document — every other
//! section's semantics depend on type identity — but need not come first;
//! repeated sections accumulate.  Caller-supplied filters select which
//! features and extensions to keep; a filtered-out entity is still parsed in
//! full, so document structure stays tracked.

use vstd::prelude::*;
use crate::errors::{ParseError, ParseErrorV, ParseResult};
use crate::events::{Cursor, Event, EventV, ScanEnd, scan_scope, clone_string};
use crate::scope::XmlContents;
use crate::find::{FindOutcome, find_in_scope, lemma_find_bounds};
use crate::strutil::str_eq;
use crate::xast::element_at;
use crate::typeinfo::{TypeInfo, TypeInfoV, type_name_of, type_info_of};
use crate::command::{CommandInfo, CommandInfoV, command_of};
use crate::enums::{EnumsInfo, EnumsInfoV, enums_block_of, enums_block_end,
    lemma_scan_enum_values_bounds};
use crate::extension::{FeatureInfo, FeatureInfoV, feature_of, ExtensionInfo, ExtensionInfoV,
    ext_of, requirements_end, lemma_scan_requirements_bounds};
use crate::namemap::NameMap;

verus! {

/// Caller-supplied selection: which features and extensions to keep.
/// `None` keeps everything; a list keeps exactly the named entities.
#[derive(Debug)]
pub struct RegistryFilter {
    pub features: Option<Vec<String>>,
    pub extensions: Option<Vec<String>>,
}

/// Spec-level value of a [`RegistryFilter`].
pub struct RegistryFilterV {
    pub features: Option<Seq<Seq<char>>>,
    pub extensions: Option<Seq<Seq<char>>>,
}

impl View for RegistryFilter {
    type V = RegistryFilterV;

    open spec fn view(&self) -> RegistryFilterV {
        RegistryFilterV {
            features: selection_view(self.features),
            extensions: selection_view(self.extensions),
        }
    }
}

/// Whether a selection keeps an entity of that name.
pub open spec fn allows(l: Option<Seq<Seq<char>>>, name: Seq<char>) -> bool {
    match l {
        None => true,
        Some(list) => list.contains(name),
    }
}

/// Spec value of an optional name list.
pub open spec fn selection_view(l: Option<Vec<String>>) -> Option<Seq<Seq<char>>> {
    match l {
        Some(v) => Some(crate::strutil::strings_view(v@)),
        None => None,
    }
}

/// Evaluates a selection on a name.
pub fn allowed(l: &Option<Vec<String>>, name: &str) -> (r: bool)
    ensures
        r == allows(selection_view(*l), name@),
{
    match l {
        None => true,
        Some(list) => {
            let mut i: usize = 0;
            while i < list.len()
                invariant
                    i <= list@.len(),
                    selection_view(*l) == Some(crate::strutil::strings_view(list@)),
                    forall|j: int| 0 <= j < i ==>
                        crate::strutil::strings_view(list@)[j] != name@,
                decreases list.len() - i,
            {
                if str_eq(list[i].as_str(), name) {
                    proof {
                        assert(crate::strutil::strings_view(list@)[i as int] == name@);
                        assert(crate::strutil::strings_view(list@).contains(name@));
                    }
                    return true;
                }
                i += 1;
            }
            false
        },
    }
}

impl RegistryFilter {
    /// A filter that keeps every feature and every extension.
    pub fn keep_all() -> (r: RegistryFilter)
        ensures
            r@.features is None,
            r@.extensions is None,
    {
        RegistryFilter { features: None, extensions: None }
    }
}

/// View of a feature list.
pub open spec fn feats_view(v: Seq<FeatureInfo>) -> Seq<FeatureInfoV> {
    v.map_values(|f: FeatureInfo| f@)
}

/// View of an extension list.
pub open spec fn exts_view(v: Seq<ExtensionInfo>) -> Seq<ExtensionInfoV> {
    v.map_values(|x: ExtensionInfo| x@)
}

/// The aggregate root: the whole in-memory model of a parsed document.
#[derive(Debug)]
pub struct Registry {
    pub types: NameMap<TypeInfo>,
    pub enums: NameMap<EnumsInfo>,
    pub commands: NameMap<CommandInfo>,
    pub features: Vec<FeatureInfo>,
    pub extensions: Vec<ExtensionInfo>,
}

/// Spec-level value of a [`Registry`].
pub struct RegistryV {
    pub types: Map<Seq<char>, TypeInfoV>,
    pub enums: Map<Seq<char>, EnumsInfoV>,
    pub commands: Map<Seq<char>, CommandInfoV>,
    pub features: Seq<FeatureInfoV>,
    pub extensions: Seq<ExtensionInfoV>,
}

impl View for Registry {
    type V = RegistryV;

    open spec fn view(&self) -> RegistryV {
        RegistryV {
            types: self.types@,
            enums: self.enums@,
            commands: self.commands@,
            features: feats_view(self.features@),
            extensions: exts_view(self.extensions@),
        }
    }
}

impl Registry {
    /// The name-keyed collections are sound for lookups.
    pub open spec fn wf(&self) -> bool {
        self.types.wf() && self.enums.wf() && self.commands.wf()
    }
}

/// Outcome of reading a `types` section.
pub enum TypesScan {
    Section(Map<Seq<char>, TypeInfoV>, int),
    Abort(ParseErrorV),
}

/// Reads the `<type>` entities of a `types` section into the accumulated
/// type mapping, later entries winning; a nameless `group` entry is kept
/// out of the mapping.
pub open spec fn types_section(
    es: Seq<EventV>,
    p: int,
    d: int,
    acc: Map<Seq<char>, TypeInfoV>,
) -> TypesScan
    decreases es.len() - p,
{
    match find_in_scope(es, p, d, "type"@) {
        FindOutcome::Ended(q) => TypesScan::Section(acc, q + 1),
        FindOutcome::Truncated => TypesScan::Section(acc, es.len() as int),
        FindOutcome::Failed(q) => TypesScan::Abort(ParseErrorV::MalformedSource(es[q]->Fault_0)),
        FindOutcome::Found(q) => match scan_scope(es, q + 1, 1) {
            ScanEnd::Failed(f) => TypesScan::Abort(ParseErrorV::MalformedSource(es[f]->Fault_0)),
            ScanEnd::Truncated => TypesScan::Abort(ParseErrorV::UnexpectedEOF),
            ScanEnd::Closed(cc) => if p <= q && q < cc + 1 && cc + 1 <= es.len() {
                match type_info_of(element_at(es, q)) {
                    Err(e) => TypesScan::Abort(e),
                    Ok(t) => types_section(
                        es,
                        cc + 1,
                        1,
                        if t is Group {
                            acc
                        } else {
                            acc.insert(type_name_of(t), t)
                        },
                    ),
                }
            } else {
                TypesScan::Section(acc, p)
            },
        },
    }
}

/// A completed `types` section scan ends inside the sequence.
pub proof fn lemma_types_section_bounds(
    es: Seq<EventV>,
    p: int,
    d: int,
    acc: Map<Seq<char>, TypeInfoV>,
)
    requires
        0 <= p <= es.len(),
    ensures
        match types_section(es, p, d, acc) {
            TypesScan::Section(_, end) => p <= end <= es.len(),
            TypesScan::Abort(_) => true,
        },
    decreases es.len() - p,
{
    lemma_find_bounds(es, p, d, "type"@);
    match find_in_scope(es, p, d, "type"@) {
        FindOutcome::Found(q) => {
            crate::events::lemma_scan_bounds(es, q + 1, 1);
            match scan_scope(es, q + 1, 1) {
                ScanEnd::Closed(cc) => {
                    match type_info_of(element_at(es, q)) {
                        Ok(t) => {
                            lemma_types_section_bounds(
                                es,
                                cc + 1,
                                1,
                                if t is Group {
                                    acc
                                } else {
                                    acc.insert(type_name_of(t), t)
                                },
                            );
                        },
                        Err(_) => {},
                    }
                },
                _ => {},
            }
        },
        _ => {},
    }
}

/// Outcome of reading a `commands` section.
pub enum CommandsScan {
    Section(Map<Seq<char>, CommandInfoV>, int),
    Abort(ParseErrorV),
}

/// Reads the `<command>` entities of a `commands` section into the
/// accumulated command mapping, keyed by command name, later entries
/// winning.
pub open spec fn commands_section(
    es: Seq<EventV>,
    p: int,
    d: int,
    acc: Map<Seq<char>, CommandInfoV>,
) -> CommandsScan
    decreases es.len() - p,
{
    match find_in_scope(es, p, d, "command"@) {
        FindOutcome::Ended(q) => CommandsScan::Section(acc, q + 1),
        FindOutcome::Truncated => CommandsScan::Section(acc, es.len() as int),
        FindOutcome::Failed(q) => CommandsScan::Abort(
            ParseErrorV::MalformedSource(es[q]->Fault_0),
        ),
        FindOutcome::Found(q) => match scan_scope(es, q + 1, 1) {
            ScanEnd::Failed(f) => CommandsScan::Abort(
                ParseErrorV::MalformedSource(es[f]->Fault_0),
            ),
            ScanEnd::Truncated => CommandsScan::Abort(ParseErrorV::UnexpectedEOF),
            ScanEnd::Closed(cc) => if p <= q && q < cc + 1 && cc + 1 <= es.len() {
                match command_of(element_at(es, q)) {
                    Err(e) => CommandsScan::Abort(e),
                    Ok(ci) => commands_section(es, cc + 1, 1, acc.insert(ci.name, ci)),
                }
            } else {
                CommandsScan::Section(acc, p)
            },
        },
    }
}

/// A completed `commands` section scan ends inside the sequence.
pub proof fn lemma_commands_section_bounds(
    es: Seq<EventV>,
    p: int,
    d: int,
    acc: Map<Seq<char>, CommandInfoV>,
)
    requires
        0 <= p <= es.len(),
    ensures
        match commands_section(es, p, d, acc) {
            CommandsScan::Section(_, end) => p <= end <= es.len(),
            CommandsScan::Abort(_) => true,
        },
    decreases es.len() - p,
{
    lemma_find_bounds(es, p, d, "command"@);
    match find_in_scope(es, p, d, "command"@) {
        FindOutcome::Found(q) => {
            crate::events::lemma_scan_bounds(es, q + 1, 1);
            match scan_scope(es, q + 1, 1) {
                ScanEnd::Closed(cc) => {
                    match command_of(element_at(es, q)) {
                        Ok(ci) => {
                            lemma_commands_section_bounds(es, cc + 1, 1, acc.insert(ci.name, ci));
                        },
                        Err(_) => {},
                    }
                },
                _ => {},
            }
        },
        _ => {},
    }
}

/// Outcome of reading an `extensions` section.
pub enum ExtScan {
    Section(Seq<ExtensionInfoV>, int),
    Abort(ParseErrorV),
}

/// Reads the `<extension>` entities of an `extensions` section, appending —
/// in document order — those the selection keeps.
pub open spec fn extensions_section(
    es: Seq<EventV>,
    p: int,
    d: int,
    acc: Seq<ExtensionInfoV>,
    sel: Option<Seq<Seq<char>>>,
) -> ExtScan
    decreases es.len() - p,
{
    match find_in_scope(es, p, d, "extension"@) {
        FindOutcome::Ended(q) => ExtScan::Section(acc, q + 1),
        FindOutcome::Truncated => ExtScan::Section(acc, es.len() as int),
        FindOutcome::Failed(q) => ExtScan::Abort(ParseErrorV::MalformedSource(es[q]->Fault_0)),
        FindOutcome::Found(q) => if p <= q && q < es.len() {
            match ext_of(es, q + 1, es[q]->StartTag_attributes) {
                Err(e) => ExtScan::Abort(e),
                Ok(x) => {
                    let end = requirements_end(es, q + 1);
                    if q < end && end <= es.len() {
                        extensions_section(
                            es,
                            end,
                            1,
                            if allows(sel, x.name) {
                                acc.push(x)
                            } else {
                                acc
                            },
                            sel,
                        )
                    } else {
                        ExtScan::Section(acc, p)
                    }
                },
            }
        } else {
            ExtScan::Section(acc, p)
        },
    }
}

/// A completed `extensions` section scan ends inside the sequence.
pub proof fn lemma_extensions_section_bounds(
    es: Seq<EventV>,
    p: int,
    d: int,
    acc: Seq<ExtensionInfoV>,
    sel: Option<Seq<Seq<char>>>,
)
    requires
        0 <= p <= es.len(),
    ensures
        match extensions_section(es, p, d, acc, sel) {
            ExtScan::Section(_, end) => p <= end <= es.len(),
            ExtScan::Abort(_) => true,
        },
    decreases es.len() - p,
{
    lemma_find_bounds(es, p, d, "extension"@);
    match find_in_scope(es, p, d, "extension"@) {
        FindOutcome::Found(q) => {
            lemma_scan_requirements_bounds(es, q + 1, 1);
            match ext_of(es, q + 1, es[q]->StartTag_attributes) {
                Ok(x) => {
                    let end = requirements_end(es, q + 1);
                    if q < end && end <= es.len() {
                        lemma_extensions_section_bounds(
                            es,
                            end,
                            1,
                            if allows(sel, x.name) {
                                acc.push(x)
                            } else {
                                acc
                            },
                            sel,
                        );
                    }
                },
                Err(_) => {},
            }
        },
        _ => {},
    }
}

/// The assembler's accumulated state.
pub struct AssemblyV {
    pub types: Option<Map<Seq<char>, TypeInfoV>>,
    pub enums: Map<Seq<char>, EnumsInfoV>,
    pub commands: Map<Seq<char>, CommandInfoV>,
    pub features: Seq<FeatureInfoV>,
    pub extensions: Seq<ExtensionInfoV>,
}

/// The assembler's empty starting state.
pub open spec fn assembly_init() -> AssemblyV {
    AssemblyV {
        types: None,
        enums: Map::empty(),
        commands: Map::empty(),
        features: Seq::empty(),
        extensions: Seq::empty(),
    }
}

/// The whole forward pass: scanning flat for top-level section names,
/// reading each section with its own parser, accumulating, and finishing
/// when the stream ends.  A document without a `types` section fails; the
/// first error anywhere aborts the whole build.
pub open spec fn assemble(
    es: Seq<EventV>,
    p: int,
    st: AssemblyV,
    filt: RegistryFilterV,
) -> Result<RegistryV, ParseErrorV>
    decreases es.len() - p,
{
    if p < 0 || p >= es.len() {
        match st.types {
            None => Err(ParseErrorV::MissingTypesSection),
            Some(ts) => Ok(RegistryV {
                types: ts,
                enums: st.enums,
                commands: st.commands,
                features: st.features,
                extensions: st.extensions,
            }),
        }
    } else {
        match es[p] {
            EventV::Fault(m) => Err(ParseErrorV::MalformedSource(m)),
            EventV::StartTag { name, attributes } => {
                if name == "types"@ {
                    let base = match st.types {
                        None => Map::empty(),
                        Some(ts) => ts,
                    };
                    match types_section(es, p + 1, 1, base) {
                        TypesScan::Abort(e) => Err(e),
                        TypesScan::Section(m2, end) => if p < end && end <= es.len() {
                            assemble(es, end, AssemblyV { types: Some(m2), ..st }, filt)
                        } else {
                            Err(ParseErrorV::UnexpectedEOF)
                        },
                    }
                } else if name == "enums"@ {
                    match enums_block_of(es, p + 1, attributes) {
                        Err(e) => Err(e),
                        Ok(opt) => {
                            let end = enums_block_end(es, p + 1, attributes);
                            let st2 = match opt {
                                None => st,
                                Some(ei) => AssemblyV {
                                    enums: st.enums.insert(ei.name, ei),
                                    ..st
                                },
                            };
                            if p < end && end <= es.len() {
                                assemble(es, end, st2, filt)
                            } else {
                                Err(ParseErrorV::UnexpectedEOF)
                            }
                        },
                    }
                } else if name == "commands"@ {
                    match commands_section(es, p + 1, 1, st.commands) {
                        CommandsScan::Abort(e) => Err(e),
                        CommandsScan::Section(m2, end) => if p < end && end <= es.len() {
                            assemble(es, end, AssemblyV { commands: m2, ..st }, filt)
                        } else {
                            Err(ParseErrorV::UnexpectedEOF)
                        },
                    }
                } else if name == "feature"@ {
                    match feature_of(es, p + 1, attributes) {
                        Err(e) => Err(e),
                        Ok(f) => {
                            let end = requirements_end(es, p + 1);
                            let st2 = if allows(filt.features, f.name) {
                                AssemblyV { features: st.features.push(f), ..st }
                            } else {
                                st
                            };
                            if p < end && end <= es.len() {
                                assemble(es, end, st2, filt)
                            } else {
                                Err(ParseErrorV::UnexpectedEOF)
                            }
                        },
                    }
                } else if name == "extensions"@ {
                    match extensions_section(es, p + 1, 1, st.extensions, filt.extensions) {
                        ExtScan::Abort(e) => Err(e),
                        ExtScan::Section(xs, end) => if p < end && end <= es.len() {
                            assemble(es, end, AssemblyV { extensions: xs, ..st }, filt)
                        } else {
                            Err(ParseErrorV::UnexpectedEOF)
                        },
                    }
                } else {
                    assemble(es, p + 1, st, filt)
                }
            },
            _ => assemble(es, p + 1, st, filt),
        }
    }
}

/// Reads one `types` section (the cursor just past its start tag) into the
/// accumulated type mapping.
fn read_types_section(c: &mut Cursor, base: NameMap<TypeInfo>) -> (r: ParseResult<
    NameMap<TypeInfo>,
>)
    requires
        old(c).wf(),
        base.wf(),
    ensures
        final(c).wf(),
        final(c).stream() == old(c).stream(),
        ({
            let es = old(c).stream();
            match types_section(es, old(c).at(), 1, base@) {
                TypesScan::Section(m2, end) => {
                    &&& r matches Result::Ok(m) && m@ == m2 && m.wf()
                    &&& final(c).at() == end
                },
                TypesScan::Abort(e) => r matches Result::Err(err) && err@ == e,
            }
        }),
{
    let ghost es = c.stream();
    let ghost p0 = c.at();
    let mut m = base;
    let mut s = XmlContents::new_inside();
    proof {
        c.lemma_bounds();
    }
    loop
        invariant_except_break
            c.wf(),
            c.stream() == es,
            es == old(c).stream(),
            p0 == old(c).at(),
            0 <= c.at() <= es.len(),
            m.wf(),
            s.depth() >= 1,
            s.depth() <= c.at() + 1,
            types_section(es, p0, 1, base@) == types_section(es, c.at(), s.depth(), m@),
        ensures
            c.wf(),
            c.stream() == es,
            es == old(c).stream(),
            p0 == old(c).at(),
            m.wf(),
            ({
                match types_section(es, p0, 1, base@) {
                    TypesScan::Section(m2, end) => m@ == m2 && c.at() == end,
                    TypesScan::Abort(_) => false,
                }
            }),
        decreases es.len() - c.at(),
    {
        let ghost mp = c.at();
        let ghost md = s.depth();
        proof {
            c.lemma_bounds();
            lemma_find_bounds(es, mp, md, "type"@);
            if find_in_scope(es, mp, md, "type"@) is Found {
                let q = find_in_scope(es, mp, md, "type"@)->Found_0;
                crate::events::lemma_scan_bounds(es, q + 1, 1);
            }
        }
        match TypeInfo::parse_next_type(&mut s, c) {
            None => {
                break;
            },
            Some(Err(e)) => {
                return Err(e);
            },
            Some(Ok(t)) => {
                match &t {
                    TypeInfo::Group => {},
                    _ => {
                        let key = t.name().to_owned();
                        m.insert(key, t);
                    },
                }
            },
        }
    }
    Ok(m)
}

/// Reads one `commands` section (the cursor just past its start tag) into
/// the accumulated command mapping.
fn read_commands_section(c: &mut Cursor, base: NameMap<CommandInfo>) -> (r: ParseResult<
    NameMap<CommandInfo>,
>)
    requires
        old(c).wf(),
        base.wf(),
    ensures
        final(c).wf(),
        final(c).stream() == old(c).stream(),
        ({
            let es = old(c).stream();
            match commands_section(es, old(c).at(), 1, base@) {
                CommandsScan::Section(m2, end) => {
                    &&& r matches Result::Ok(m) && m@ == m2 && m.wf()
                    &&& final(c).at() == end
                },
                CommandsScan::Abort(e) => r matches Result::Err(err) && err@ == e,
            }
        }),
{
    let ghost es = c.stream();
    let ghost p0 = c.at();
    let mut m = base;
    let mut s = XmlContents::new_inside();
    proof {
        c.lemma_bounds();
    }
    loop
        invariant_except_break
            c.wf(),
            c.stream() == es,
            es == old(c).stream(),
            p0 == old(c).at(),
            0 <= c.at() <= es.len(),
            m.wf(),
            s.depth() >= 1,
            s.depth() <= c.at() + 1,
            commands_section(es, p0, 1, base@) == commands_section(es, c.at(), s.depth(), m@),
        ensures
            c.wf(),
            c.stream() == es,
            es == old(c).stream(),
            p0 == old(c).at(),
            m.wf(),
            ({
                match commands_section(es, p0, 1, base@) {
                    CommandsScan::Section(m2, end) => m@ == m2 && c.at() == end,
                    CommandsScan::Abort(_) => false,
                }
            }),
        decreases es.len() - c.at(),
    {
        let ghost mp = c.at();
        let ghost md = s.depth();
        proof {
            c.lemma_bounds();
            lemma_find_bounds(es, mp, md, "command"@);
            if find_in_scope(es, mp, md, "command"@) is Found {
                let q = find_in_scope(es, mp, md, "command"@)->Found_0;
                crate::events::lemma_scan_bounds(es, q + 1, 1);
            }
        }
        match CommandInfo::parse_next_command(&mut s, c) {
            None => {
                break;
            },
            Some(Err(e)) => {
                return Err(e);
            },
            Some(Ok(cmd)) => {
                let key = clone_string(&cmd.name);
                commands_insert(&mut m, key, cmd);
            },
        }
    }
    Ok(m)
}

/// Reads one `extensions` section (the cursor just past its start tag),
/// appending the extensions the selection keeps.
fn read_extensions_section(
    c: &mut Cursor,
    acc: Vec<ExtensionInfo>,
    sel: &Option<Vec<String>>,
) -> (r: ParseResult<Vec<ExtensionInfo>>)
    requires
        old(c).wf(),
    ensures
        final(c).wf(),
        final(c).stream() == old(c).stream(),
        ({
            let es = old(c).stream();
            let selv = selection_view(*sel);
            match extensions_section(es, old(c).at(), 1, exts_view(acc@), selv) {
                ExtScan::Section(xs, end) => {
                    &&& r matches Result::Ok(v) && exts_view(v@) == xs
                    &&& final(c).at() == end
                },
                ExtScan::Abort(e) => r matches Result::Err(err) && err@ == e,
            }
        }),
{
    let ghost es = c.stream();
    let ghost p0 = c.at();
    let ghost selv = selection_view(*sel);
    let mut xs = acc;
    let mut s = XmlContents::new_inside();
    proof {
        c.lemma_bounds();
    }
    loop
        invariant_except_break
            c.wf(),
            c.stream() == es,
            es == old(c).stream(),
            p0 == old(c).at(),
            0 <= c.at() <= es.len(),
            s.depth() >= 1,
            s.depth() <= c.at() + 1,
            selv == selection_view(*sel),
            extensions_section(es, p0, 1, exts_view(acc@), selv) == extensions_section(
                es,
                c.at(),
                s.depth(),
                exts_view(xs@),
                selv,
            ),
        ensures
            c.wf(),
            c.stream() == es,
            es == old(c).stream(),
            p0 == old(c).at(),
            ({
                match extensions_section(es, p0, 1, exts_view(acc@), selv) {
                    ExtScan::Section(r2, end) => exts_view(xs@) == r2 && c.at() == end,
                    ExtScan::Abort(_) => false,
                }
            }),
        decreases es.len() - c.at(),
    {
        let ghost mp = c.at();
        let ghost md = s.depth();
        proof {
            c.lemma_bounds();
            lemma_find_bounds(es, mp, md, "extension"@);
            if find_in_scope(es, mp, md, "extension"@) is Found {
                let q = find_in_scope(es, mp, md, "extension"@)->Found_0;
                lemma_scan_requirements_bounds(es, q + 1, 1);
            }
        }
        match ExtensionInfo::parse_next_extension(&mut s, c) {
            None => {
                break;
            },
            Some(Err(e)) => {
                return Err(e);
            },
            Some(Ok(x)) => {
                if allowed(sel, x.name.as_str()) {
                    proof {
                        assert(exts_view(xs@.push(x)) =~= exts_view(xs@).push(x@));
                    }
                    xs.push(x);
                }
            },
        }
    }
    Ok(xs)
}

/// Inserts a command under its key; a helper so the caller's proof stays
/// small.
fn commands_insert(m: &mut NameMap<CommandInfo>, key: String, cmd: CommandInfo)
    requires
        old(m).wf(),
        key@ == cmd.name@,
    ensures
        final(m).wf(),
        final(m)@ == old(m)@.insert(cmd@.name, cmd@),
{
    m.insert(key, cmd);
}

impl Registry {
    /// Runs the whole pass over an event stream: every section parsed and
    /// accumulated, features and extensions kept as the filter decides, the
    /// result exactly what the assembly of the stream denotes.
    #[verifier::rlimit(60)]
    pub fn new(events: Vec<Event>, filter: &RegistryFilter) -> (r: ParseResult<Registry>)
        ensures
            ({
                let es = events@.map_values(|e: Event| e@);
                match assemble(es, 0, assembly_init(), filter@) {
                    Ok(rv) => r matches Result::Ok(reg) && reg@ == rv && reg.wf(),
                    Err(e) => r matches Result::Err(err) && err@ == e,
                }
            }),
    {
        let mut c = Cursor::new(events);
        let ghost es = c.stream();
        let mut types: Option<NameMap<TypeInfo>> = None;
        let mut enums: NameMap<EnumsInfo> = NameMap::new();
        let mut commands: NameMap<CommandInfo> = NameMap::new();
        let mut features: Vec<FeatureInfo> = Vec::new();
        let mut extensions: Vec<ExtensionInfo> = Vec::new();
        proof {
            assert(feats_view(features@) =~= Seq::<FeatureInfoV>::empty());
            assert(exts_view(extensions@) =~= Seq::<ExtensionInfoV>::empty());
        }
        loop
            invariant
                c.wf(),
                c.stream() == es,
                es == events@.map_values(|e: Event| e@),
                0 <= c.at() <= es.len(),
                match types {
                    Some(m) => m.wf(),
                    None => true,
                },
                enums.wf(),
                commands.wf(),
                assemble(es, 0, assembly_init(), filter@) == assemble(
                    es,
                    c.at(),
                    AssemblyV {
                        types: match types {
                            Some(m) => Some(m@),
                            None => None,
                        },
                        enums: enums@,
                        commands: commands@,
                        features: feats_view(features@),
                        extensions: exts_view(extensions@),
                    },
                    filter@,
                ),
            ensures
                c.at() == es.len(),
                match types {
                    Some(m) => m.wf(),
                    None => true,
                },
                enums.wf(),
                commands.wf(),
                assemble(es, 0, assembly_init(), filter@) == assemble(
                    es,
                    c.at(),
                    AssemblyV {
                        types: match types {
                            Some(m) => Some(m@),
                            None => None,
                        },
                        enums: enums@,
                        commands: commands@,
                        features: feats_view(features@),
                        extensions: exts_view(extensions@),
                    },
                    filter@,
                ),
            decreases es.len() - c.at(),
        {
            let ghost p = c.at();
            let ghost st_old = AssemblyV {
                types: match types {
                    Some(ref m) => Some(m@),
                    None => None,
                },
                enums: enums@,
                commands: commands@,
                features: feats_view(features@),
                extensions: exts_view(extensions@),
            };
            proof {
                c.lemma_bounds();
            }
            match c.next() {
                None => {
                    break;
                },
                Some(Event::Fault(m)) => {
                    return Err(ParseError::MalformedSource(m));
                },
                Some(Event::StartTag { name, attributes }) => {
                    if str_eq(name.as_str(), "types") {
                        let base = match types {
                            Some(m) => m,
                            None => NameMap::new(),
                        };
                        proof {
                            lemma_types_section_bounds(es, p + 1, 1, base@);
                        }
                        match read_types_section(&mut c, base) {
                            Err(e) => {
                                return Err(e);
                            },
                            Ok(m) => {
                                types = Some(m);
                            },
                        }
                    } else if str_eq(name.as_str(), "enums") {
                        proof {
                            lemma_scan_enum_values_bounds(es, p + 1, 1);
                            crate::events::lemma_scan_bounds(es, p + 1, 1);
                        }
                        match EnumsInfo::parse_block(&mut c, &attributes) {
                            Err(e) => {
                                return Err(e);
                            },
                            Ok(None) => {},
                            Ok(Some(ei)) => {
                                let key = clone_string(&ei.name);
                                enums.insert(key, ei);
                            },
                        }
                    } else if str_eq(name.as_str(), "commands") {
                        let base = commands;
                        commands = NameMap::new();
                        proof {
                            lemma_commands_section_bounds(es, p + 1, 1, base@);
                        }
                        match read_commands_section(&mut c, base) {
                            Err(e) => {
                                return Err(e);
                            },
                            Ok(m) => {
                                commands = m;
                            },
                        }
                    } else if str_eq(name.as_str(), "feature") {
                        proof {
                            lemma_scan_requirements_bounds(es, p + 1, 1);
                        }
                        match FeatureInfo::parse_from(&mut c, &attributes) {
                            Err(e) => {
                                return Err(e);
                            },
                            Ok(f) => {
                                if allowed(&filter.features, f.name.as_str()) {
                                    proof {
                                        assert(feats_view(features@.push(f)) =~=
                                            feats_view(features@).push(f@));
                                    }
                                    features.push(f);
                                }
                            },
                        }
                    } else if str_eq(name.as_str(), "extensions") {
                        let acc = extensions;
                        extensions = Vec::new();
                        proof {
                            lemma_extensions_section_bounds(
                                es,
                                p + 1,
                                1,
                                exts_view(acc@),
                                filter@.extensions,
                            );
                        }
                        match read_extensions_section(&mut c, acc, &filter.extensions) {
                            Err(e) => {
                                return Err(e);
                            },
                            Ok(xs) => {
                                extensions = xs;
                            },
                        }
                    }
                },
                Some(_) => {},
            }
        }
        match types {
            None => Err(ParseError::MissingTypesSection),
            Some(ts) => Ok(Registry { types: ts, enums, commands, features, extensions }),
        }
    }
}

} // verus!
