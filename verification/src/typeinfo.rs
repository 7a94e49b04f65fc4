//! The `<type>` entity parser: category dispatch into the typed variants of
//! the registry's type entries.

use vstd::prelude::*;
use crate::errors::{ParseError, ParseErrorV, ParseResult};
use crate::events::{Cursor, Attribute, EventV, ScanEnd, scan_scope, lemma_scan_bounds, clone_string};
use crate::scope::XmlContents;
use crate::find::{FindOutcome, find_in_scope, find_child_tag};
use crate::strutil::{str_eq, csv_of, strings_view};
use crate::xast::{Node, NodeV, Content, ContentV, contents_view, content_view,
    lemma_contents_view_len, lemma_contents_view_index, attr_of, attr_or_child_of, child_lookup,
    text_of, node_contents, element_at, csv_attribute};
use crate::fields::{EnumValue, EnumValueV, StructMember, StructMemberV, members_view};

verus! {

/// Whether a handle is dispatchable (an OS-pointer-sized value) or not.
#[derive(Debug, Clone, Copy, PartialEq, Eq, Structural)]
pub enum HandleType {
    Normal,
    NonDispatchable,
}

/// One entry of the registry's type mapping.
#[derive(Debug)]
pub enum TypeInfo {
    Basetype { name: String, ty: String },
    Bitmask { name: String, ty: String },
    Define(String),
    /// A placeholder: its value list is populated later, by resolution
    /// against the `<enums>` blocks.
    Enum { name: String, values: Vec<(String, EnumValue)> },
    Constant { name: String, value: EnumValue },
    Funcpointer { name: String },
    Group,
    Handle { name: String, parent: Option<String>, ty: HandleType },
    Struct { name: String, members: Vec<StructMember>, extends: Vec<String> },
    Union { name: String, members: Vec<StructMember> },
    Include(String),
    /// The forward-compatibility escape: a `<type>` without a category is
    /// kept as its raw tree.
    Uncategorized { name: String, node: Node },
}

/// Spec-level value of a [`TypeInfo`].
pub enum TypeInfoV {
    Basetype { name: Seq<char>, ty: Seq<char> },
    Bitmask { name: Seq<char>, ty: Seq<char> },
    Define(Seq<char>),
    Enum { name: Seq<char>, values: Seq<(Seq<char>, EnumValueV)> },
    Constant { name: Seq<char>, value: EnumValueV },
    Funcpointer { name: Seq<char> },
    Group,
    Handle { name: Seq<char>, parent: Option<Seq<char>>, ty: HandleType },
    Struct { name: Seq<char>, members: Seq<StructMemberV>, extends: Seq<Seq<char>> },
    Union { name: Seq<char>, members: Seq<StructMemberV> },
    Include(Seq<char>),
    Uncategorized { name: Seq<char>, node: NodeV },
}

/// View of a named value list.
pub open spec fn values_view(v: Seq<(String, EnumValue)>) -> Seq<(Seq<char>, EnumValueV)> {
    v.map_values(|p: (String, EnumValue)| (p.0@, p.1@))
}

impl View for TypeInfo {
    type V = TypeInfoV;

    open spec fn view(&self) -> TypeInfoV {
        match self {
            TypeInfo::Basetype { name, ty } => TypeInfoV::Basetype { name: name@, ty: ty@ },
            TypeInfo::Bitmask { name, ty } => TypeInfoV::Bitmask { name: name@, ty: ty@ },
            TypeInfo::Define(n) => TypeInfoV::Define(n@),
            TypeInfo::Enum { name, values } => TypeInfoV::Enum {
                name: name@,
                values: values_view(values@),
            },
            TypeInfo::Constant { name, value } => TypeInfoV::Constant {
                name: name@,
                value: value@,
            },
            TypeInfo::Funcpointer { name } => TypeInfoV::Funcpointer { name: name@ },
            TypeInfo::Group => TypeInfoV::Group,
            TypeInfo::Handle { name, parent, ty } => TypeInfoV::Handle {
                name: name@,
                parent: match parent {
                    Some(p) => Some(p@),
                    None => None,
                },
                ty: *ty,
            },
            TypeInfo::Struct { name, members, extends } => TypeInfoV::Struct {
                name: name@,
                members: members_view(members@),
                extends: strings_view(extends@),
            },
            TypeInfo::Union { name, members } => TypeInfoV::Union {
                name: name@,
                members: members_view(members@),
            },
            TypeInfo::Include(n) => TypeInfoV::Include(n@),
            TypeInfo::Uncategorized { name, node } => TypeInfoV::Uncategorized {
                name: name@,
                node: crate::xast::node_view(*node),
            },
        }
    }
}

/// The name a type entry is keyed under.  A `group` entry has none.
pub open spec fn type_name_of(t: TypeInfoV) -> Seq<char> {
    match t {
        TypeInfoV::Basetype { name, .. } => name,
        TypeInfoV::Bitmask { name, .. } => name,
        TypeInfoV::Define(name) => name,
        TypeInfoV::Enum { name, .. } => name,
        TypeInfoV::Constant { name, .. } => name,
        TypeInfoV::Funcpointer { name } => name,
        TypeInfoV::Group => Seq::empty(),
        TypeInfoV::Handle { name, .. } => name,
        TypeInfoV::Struct { name, .. } => name,
        TypeInfoV::Union { name, .. } => name,
        TypeInfoV::Include(name) => name,
        TypeInfoV::Uncategorized { name, .. } => name,
    }
}

/// The members of a struct or union node: its `member` children in order;
/// the first ill-formed member aborts.
pub open spec fn members_of(cs: Seq<ContentV>) -> Result<Seq<StructMemberV>, ParseErrorV>
    decreases cs.len(),
{
    if cs.len() == 0 {
        Ok(Seq::empty())
    } else {
        match cs[0] {
            ContentV::Child(n) => if n.name == "member"@ {
                match crate::fields::member_of(n) {
                    Err(e) => Err(e),
                    Ok(m) => match members_of(cs.skip(1)) {
                        Err(e) => Err(e),
                        Ok(ms) => Ok(seq![m] + ms),
                    },
                }
            } else {
                members_of(cs.skip(1))
            },
            _ => members_of(cs.skip(1)),
        }
    }
}

/// Parses the `member` children of a struct or union node, in order.
pub fn parse_members(node: &Node) -> (r: ParseResult<Vec<StructMember>>)
    ensures
        match members_of(node@.contents) {
            Ok(ms) => r matches Result::Ok(v) && members_view(v@) == ms,
            Err(e) => r matches Result::Err(err) && err@ == e,
        },
{
    let ghost full = contents_view(node.contents@);
    let mut acc: Vec<StructMember> = Vec::new();
    let mut i: usize = 0;
    proof {
        assert(full.skip(0int) =~= full);
        assert(members_view(acc@) =~= Seq::<StructMemberV>::empty());
    }
    while i < node.contents.len()
        invariant
            i <= node.contents.len(),
            full == contents_view(node.contents@),
            match members_of(full.skip(i as int)) {
                Ok(ms) => members_of(full) == Ok::<_, ParseErrorV>(members_view(acc@) + ms),
                Err(e) => members_of(full) == Err::<Seq<StructMemberV>, _>(e),
            },
        decreases node.contents.len() - i,
    {
        proof {
            lemma_contents_view_len(node.contents@);
            lemma_contents_view_index(node.contents@, i as int);
            assert(full.skip(i as int)[0] == content_view(node.contents@[i as int]));
            assert(full.skip(i as int).skip(1) =~= full.skip(i as int + 1));
        }
        match &node.contents[i] {
            Content::Child(n) => {
                if str_eq(n.name.as_str(), "member") {
                    match StructMember::parse_node(n) {
                        Err(e) => {
                            return Err(e);
                        },
                        Ok(m) => {
                            proof {
                                assert(members_view(acc@.push(m)) =~=
                                    members_view(acc@).push(m@));
                                if members_of(full.skip(i as int + 1)) is Ok {
                                    let ms = members_of(full.skip(i as int + 1))->Ok_0;
                                    assert(members_view(acc@).push(m@) + ms =~=
                                        members_view(acc@) + (seq![m@] + ms));
                                }
                            }
                            acc.push(m);
                        },
                    }
                }
            },
            _ => {},
        }
        i += 1;
    }
    proof {
        lemma_contents_view_len(node.contents@);
        assert(full.skip(node.contents@.len() as int).len() == 0);
        assert(members_view(acc@) =~= members_view(acc@) + Seq::<StructMemberV>::empty());
    }
    Ok(acc)
}

/// The struct names a struct may extend, from its `structextends` attribute.
pub open spec fn extends_of(n: NodeV) -> Seq<Seq<char>> {
    match attr_of(n, "structextends"@) {
        Some(v) => csv_of(v),
        None => Seq::empty(),
    }
}

/// The type entry a `<type>` node denotes, by its `category` attribute:
/// each recognised category reads its own fields; an unknown category is an
/// error; a missing one keeps the raw tree.
pub open spec fn type_info_of(n: NodeV) -> Result<TypeInfoV, ParseErrorV> {
    match attr_or_child_of(n, "name"@) {
        None => Err(ParseErrorV::MissingRequiredAttributeOrChild {
            element: n.name,
            field: "name"@,
        }),
        Some(name) => match attr_of(n, "category"@) {
            None => Ok(TypeInfoV::Uncategorized { name, node: n }),
            Some(cat) => {
                if cat == "basetype"@ {
                    match attr_or_child_of(n, "type"@) {
                        None => Err(ParseErrorV::MissingRequiredAttributeOrChild {
                            element: n.name,
                            field: "type"@,
                        }),
                        Some(ty) => Ok(TypeInfoV::Basetype { name, ty }),
                    }
                } else if cat == "bitmask"@ {
                    match attr_or_child_of(n, "type"@) {
                        None => Err(ParseErrorV::MissingRequiredAttributeOrChild {
                            element: n.name,
                            field: "type"@,
                        }),
                        Some(ty) => Ok(TypeInfoV::Bitmask { name, ty }),
                    }
                } else if cat == "define"@ {
                    Ok(TypeInfoV::Define(name))
                } else if cat == "enum"@ {
                    Ok(TypeInfoV::Enum { name, values: Seq::empty() })
                } else if cat == "struct"@ {
                    match members_of(n.contents) {
                        Err(e) => Err(e),
                        Ok(ms) => Ok(TypeInfoV::Struct {
                            name,
                            members: ms,
                            extends: extends_of(n),
                        }),
                    }
                } else if cat == "union"@ {
                    match members_of(n.contents) {
                        Err(e) => Err(e),
                        Ok(ms) => Ok(TypeInfoV::Union { name, members: ms }),
                    }
                } else if cat == "funcpointer"@ {
                    Ok(TypeInfoV::Funcpointer { name })
                } else if cat == "group"@ {
                    Ok(TypeInfoV::Group)
                } else if cat == "handle"@ {
                    match child_lookup(n.contents, "type"@) {
                        None => Err(ParseErrorV::MissingRequiredAttributeOrChild {
                            element: n.name,
                            field: "type"@,
                        }),
                        Some(tynode) => Ok(TypeInfoV::Handle {
                            name,
                            parent: attr_of(n, "parent"@),
                            ty: if text_of(tynode.contents) == "VK_DEFINE_HANDLE"@ {
                                HandleType::Normal
                            } else {
                                HandleType::NonDispatchable
                            },
                        }),
                    }
                } else if cat == "include"@ {
                    Ok(TypeInfoV::Include(name))
                } else {
                    Err(ParseErrorV::UnrecognizedCategory(cat))
                }
            },
        },
    }
}

/// The handle variant: dispatchable exactly where the declared macro name is
/// the known dispatchable sentinel.
fn parse_handle(node: &Node, name: String) -> (r: ParseResult<TypeInfo>)
    ensures
        ({
            let spec = match child_lookup(node@.contents, "type"@) {
                None => Err(ParseErrorV::MissingRequiredAttributeOrChild {
                    element: node@.name,
                    field: "type"@,
                }),
                Some(tynode) => Ok(TypeInfoV::Handle {
                    name: name@,
                    parent: attr_of(node@, "parent"@),
                    ty: if text_of(tynode.contents) == "VK_DEFINE_HANDLE"@ {
                        HandleType::Normal
                    } else {
                        HandleType::NonDispatchable
                    },
                }),
            };
            match spec {
                Ok(t) => r matches Result::Ok(v) && v@ == t,
                Err(e) => r matches Result::Err(err) && err@ == e,
            }
        }),
{
    match node.get_child("type") {
        None => Err(ParseError::MissingRequiredAttributeOrChild {
            element: clone_string(&node.name),
            field: "type".to_owned(),
        }),
        Some(tynode) => {
            let text = tynode.concat_text();
            let ty = if str_eq(text.as_str(), "VK_DEFINE_HANDLE") {
                HandleType::Normal
            } else {
                HandleType::NonDispatchable
            };
            let parent = match node.get_attribute("parent") {
                Some(p) => Some(clone_string(p)),
                None => None,
            };
            Ok(TypeInfo::Handle { name, parent, ty })
        },
    }
}

/// A funcpointer entry: its name is all the registry model keeps of it.
fn parse_funcpointer(name: String) -> (r: TypeInfo)
    ensures
        r@ == (TypeInfoV::Funcpointer { name: name@ }),
{
    TypeInfo::Funcpointer { name }
}

impl TypeInfo {
    /// The name this entry is keyed under.
    ///
    /// A `group` entry carries no name, so it cannot be asked for one.
    pub fn name(&self) -> (r: &str)
        requires
            !(self@ is Group),
        ensures
            r@ == type_name_of(self@),
    {
        match self {
            TypeInfo::Basetype { name, .. } => name.as_str(),
            TypeInfo::Bitmask { name, .. } => name.as_str(),
            TypeInfo::Define(name) => name.as_str(),
            TypeInfo::Enum { name, .. } => name.as_str(),
            TypeInfo::Constant { name, .. } => name.as_str(),
            TypeInfo::Funcpointer { name } => name.as_str(),
            TypeInfo::Group => "",
            TypeInfo::Handle { name, .. } => name.as_str(),
            TypeInfo::Struct { name, .. } => name.as_str(),
            TypeInfo::Union { name, .. } => name.as_str(),
            TypeInfo::Include(name) => name.as_str(),
            TypeInfo::Uncategorized { name, .. } => name.as_str(),
        }
    }

    /// Interprets an already-built `<type>` tree as a type entry.
    pub fn from_node(node: Node) -> (r: ParseResult<TypeInfo>)
        ensures
            match type_info_of(node@) {
                Ok(t) => r matches Result::Ok(v) && v@ == t,
                Err(e) => r matches Result::Err(err) && err@ == e,
            },
    {
        let name = match node.get_attribute_or_child("name") {
            None => {
                return Err(ParseError::MissingRequiredAttributeOrChild {
                    element: clone_string(&node.name),
                    field: "name".to_owned(),
                });
            },
            Some(name) => name,
        };
        let category = match node.get_attribute("category") {
            None => {
                return Ok(TypeInfo::Uncategorized { name, node });
            },
            Some(c) => clone_string(c),
        };
        let cat = category.as_str();
        if str_eq(cat, "basetype") || str_eq(cat, "bitmask") {
            let ty = match node.get_attribute_or_child("type") {
                None => {
                    return Err(ParseError::MissingRequiredAttributeOrChild {
                        element: clone_string(&node.name),
                        field: "type".to_owned(),
                    });
                },
                Some(ty) => ty,
            };
            if str_eq(cat, "basetype") {
                Ok(TypeInfo::Basetype { name, ty })
            } else {
                Ok(TypeInfo::Bitmask { name, ty })
            }
        } else if str_eq(cat, "define") {
            Ok(TypeInfo::Define(name))
        } else if str_eq(cat, "enum") {
            let values: Vec<(String, EnumValue)> = Vec::new();
            proof {
                assert(values_view(values@) =~= Seq::<(Seq<char>, EnumValueV)>::empty());
            }
            Ok(TypeInfo::Enum { name, values })
        } else if str_eq(cat, "struct") {
            let members = match parse_members(&node) {
                Err(e) => {
                    return Err(e);
                },
                Ok(ms) => ms,
            };
            let extends = csv_attribute(&node, "structextends");
            proof {
                if attr_of(node@, "structextends"@) is None {
                    assert(strings_view(extends@) =~= extends_of(node@));
                }
            }
            Ok(TypeInfo::Struct { name, members, extends })
        } else if str_eq(cat, "union") {
            match parse_members(&node) {
                Err(e) => Err(e),
                Ok(members) => Ok(TypeInfo::Union { name, members }),
            }
        } else if str_eq(cat, "funcpointer") {
            Ok(parse_funcpointer(name))
        } else if str_eq(cat, "group") {
            Ok(TypeInfo::Group)
        } else if str_eq(cat, "handle") {
            parse_handle(&node, name)
        } else if str_eq(cat, "include") {
            Ok(TypeInfo::Include(name))
        } else {
            Err(ParseError::UnrecognizedCategory(category))
        }
    }

    /// Parses the `<type>` element whose start tag — name and attributes —
    /// the cursor has just passed.
    pub fn parse_type(c: &mut Cursor, name: String, attributes: Vec<Attribute>) -> (r:
        ParseResult<TypeInfo>)
        requires
            old(c).wf(),
        ensures
            final(c).wf(),
            final(c).stream() == old(c).stream(),
            ({
                let es = old(c).stream();
                let p = old(c).at();
                match scan_scope(es, p, 1) {
                    ScanEnd::Closed(q) => {
                        &&& match type_info_of(NodeV {
                            name: name@,
                            attributes: crate::events::attrs_view(attributes@),
                            contents: node_contents(es, p),
                        }) {
                            Ok(t) => r matches Result::Ok(v) && v@ == t,
                            Err(e) => r matches Result::Err(err) && err@ == e,
                        }
                        &&& final(c).at() == q + 1
                    },
                    ScanEnd::Failed(q) => {
                        &&& r matches Result::Err(err) && err@ matches
                            ParseErrorV::MalformedSource(m) && EventV::Fault(m) == es[q]
                        &&& final(c).at() == q + 1
                    },
                    ScanEnd::Truncated => {
                        &&& r matches Result::Err(err) && err is UnexpectedEOF
                        &&& final(c).at() == es.len()
                    },
                }
            }),
    {
        match Node::parse(c, name, attributes) {
            Err(e) => Err(e),
            Ok(node) => TypeInfo::from_node(node),
        }
    }

    /// Produces the next `<type>` entity directly inside the current scope,
    /// or `None` when the scope closes or the stream ends.
    pub fn parse_next_type(s: &mut XmlContents, c: &mut Cursor) -> (r: Option<
        ParseResult<TypeInfo>,
    >)
        requires
            old(c).wf(),
            old(s).depth() >= 1,
            old(s).depth() <= old(c).at() + 1,
        ensures
            final(c).wf(),
            final(c).stream() == old(c).stream(),
            final(s).depth() <= final(c).at() + 1,
            ({
                let es = old(c).stream();
                let p = old(c).at();
                let d = old(s).depth();
                match find_in_scope(es, p, d, "type"@) {
                    FindOutcome::Found(q) => match scan_scope(es, q + 1, 1) {
                        ScanEnd::Closed(cc) => {
                            &&& match type_info_of(element_at(es, q)) {
                                Ok(t) => r matches Option::Some(Result::Ok(v)) && v@ == t,
                                Err(e) => r matches Option::Some(Result::Err(err)) && err@ == e,
                            }
                            &&& final(c).at() == cc + 1
                            &&& final(s).depth() == 1
                        },
                        ScanEnd::Failed(f) => {
                            &&& r matches Option::Some(Result::Err(err)) && err@ matches
                                ParseErrorV::MalformedSource(m) && EventV::Fault(m) == es[f]
                            &&& final(c).at() == f + 1
                        },
                        ScanEnd::Truncated => {
                            &&& r matches Option::Some(Result::Err(err)) && err is UnexpectedEOF
                            &&& final(c).at() == es.len()
                        },
                    },
                    FindOutcome::Ended(q) => {
                        &&& r is None
                        &&& final(c).at() == q + 1
                        &&& final(s).depth() == 0
                    },
                    FindOutcome::Failed(q) => {
                        &&& r matches Option::Some(Result::Err(err)) && err@ matches
                            ParseErrorV::MalformedSource(m) && EventV::Fault(m) == es[q]
                        &&& final(c).at() == q + 1
                    },
                    FindOutcome::Truncated => {
                        &&& r is None
                        &&& final(c).at() == es.len()
                    },
                }
            }),
    {
        let ghost es = c.stream();
        match find_child_tag(s, c, "type") {
            Err(e) => Some(Err(e)),
            Ok(None) => None,
            Ok(Some((name, attributes))) => {
                proof {
                    c.lemma_bounds();
                    lemma_scan_bounds(es, c.at(), 1);
                }
                let t = TypeInfo::parse_type(c, name, attributes);
                s.child_closed();
                Some(t)
            },
        }
    }
}

} // verus!
