//! Typed field parsers: enum value declarations, type references with their
//! pointer/const-ness chain, struct/union members and command parameters.

use vstd::prelude::*;
use vstd::string::*;
use crate::errors::{ParseError, ParseErrorV, ParseResult};
use crate::events::{Attribute, AttrV, clone_string};
use crate::strutil::{str_eq, has_sub, find_sub, csv_of, strings_view, split_csv,
    int_literal_ok, int_literal_val, uint_literal_ok, uint_literal_val, parse_isize, parse_u8};
use crate::xast::{Node, NodeV, attr_lookup, attr_of, attr_or_child_of, text_of};

verus! {

/// How an enum value is declared: a bit index (denoting the mask `1 << n`),
/// an explicit integer, or — where the literal is not a plain integer — the
/// raw literal text.
#[derive(Debug, Clone)]
pub enum EnumValue {
    Bitpos(u8),
    Value(isize),
    StrValue(String),
}

/// Spec-level value of an [`EnumValue`].
pub enum EnumValueV {
    Bitpos(u8),
    Value(isize),
    StrValue(Seq<char>),
}

impl View for EnumValue {
    type V = EnumValueV;

    open spec fn view(&self) -> EnumValueV {
        match self {
            EnumValue::Bitpos(b) => EnumValueV::Bitpos(*b),
            EnumValue::Value(v) => EnumValueV::Value(*v),
            EnumValue::StrValue(s) => EnumValueV::StrValue(s@),
        }
    }
}

impl EnumValue {
    /// Copies the value; the copy has the same spec value.
    pub fn dup(&self) -> (r: EnumValue)
        ensures
            r@ == self@,
    {
        match self {
            EnumValue::Bitpos(b) => EnumValue::Bitpos(*b),
            EnumValue::Value(v) => EnumValue::Value(*v),
            EnumValue::StrValue(s) => EnumValue::StrValue(clone_string(s)),
        }
    }

    /// The literal integer a bit-position declaration materialises as at
    /// emission time: `Bitpos(n)` denotes the bitmask `1 << n`; explicit
    /// values materialise as themselves; opaque strings do not materialise.
    pub fn materialized(&self) -> (r: Option<i64>)
        ensures
            match self@ {
                EnumValueV::Bitpos(b) => if b < 63 {
                    r matches Option::Some(v) && v == (1i64 << b)
                } else {
                    r is None
                },
                EnumValueV::Value(v) => {
                    if i64::MIN <= v as int <= i64::MAX {
                        r matches Option::Some(x) && x as int == v as int
                    } else {
                        r is None
                    }
                },
                EnumValueV::StrValue(_) => r is None,
            },
    {
        match self {
            EnumValue::Bitpos(b) => {
                if *b < 63 {
                    Some(1i64 << *b)
                } else {
                    None
                }
            },
            EnumValue::Value(v) => {
                let w = *v;
                if i64::MIN as i128 <= w as i128 && w as i128 <= i64::MAX as i128 {
                    Some(w as i64)
                } else {
                    None
                }
            },
            EnumValue::StrValue(_) => None,
        }
    }
}

/// The value an enum-value declaration denotes, from its attributes: a
/// `bitpos` attribute must read as a small unsigned integer; failing that, a
/// `value` attribute reads as a signed integer when it can, else stays as
/// raw text; a declaration with neither is an error — it never silently
/// defaults.
pub open spec fn enum_value_of(attrs: Seq<AttrV>) -> Result<EnumValueV, ParseErrorV> {
    match attr_lookup(attrs, "bitpos"@) {
        Some(bp) => if uint_literal_ok(bp) && uint_literal_val(bp) <= u8::MAX {
            Ok(EnumValueV::Bitpos(uint_literal_val(bp) as u8))
        } else {
            Err(ParseErrorV::MalformedNumericLiteral { field: "bitpos"@, raw: bp })
        },
        None => match attr_lookup(attrs, "value"@) {
            Some(v) => if int_literal_ok(v) && isize::MIN <= int_literal_val(v) <= isize::MAX {
                Ok(EnumValueV::Value(int_literal_val(v) as isize))
            } else {
                Ok(EnumValueV::StrValue(v))
            },
            None => Err(ParseErrorV::MissingRequiredAttributeOrChild {
                element: "enum"@,
                field: "value"@,
            }),
        },
    }
}

/// Parses an enum-value declaration from a tag's attributes.
pub fn parse_enum_value(attrs: &Vec<Attribute>) -> (r: ParseResult<EnumValue>)
    ensures
        match enum_value_of(crate::events::attrs_view(attrs@)) {
            Ok(v) => r matches Result::Ok(ev) && ev@ == v,
            Err(e) => r matches Result::Err(err) && err@ == e,
        },
{
    match crate::xast::find_attr(attrs, "bitpos") {
        Some(bp) => match parse_u8(bp.as_str()) {
            Some(b) => Ok(EnumValue::Bitpos(b)),
            None => Err(ParseError::MalformedNumericLiteral {
                field: "bitpos".to_owned(),
                raw: clone_string(bp),
            }),
        },
        None => match crate::xast::find_attr(attrs, "value") {
            Some(v) => match parse_isize(v.as_str()) {
                Some(x) => Ok(EnumValue::Value(x)),
                None => Ok(EnumValue::StrValue(clone_string(v))),
            },
            None => Err(ParseError::MissingRequiredAttributeOrChild {
                element: "enum".to_owned(),
                field: "value".to_owned(),
            }),
        },
    }
}

/// A referenced type: its name and one const-ness flag per pointer
/// indirection level, outermost first.  An empty chain is a non-pointer
/// value type.
#[derive(Debug, Clone)]
pub struct TyperefInfo {
    pub ty: String,
    pub constness: Vec<bool>,
}

/// Spec-level value of a [`TyperefInfo`].
pub struct TyperefInfoV {
    pub ty: Seq<char>,
    pub constness: Seq<bool>,
}

impl View for TyperefInfo {
    type V = TyperefInfoV;

    open spec fn view(&self) -> TyperefInfoV {
        TyperefInfoV { ty: self.ty@, constness: self.constness@ }
    }
}

/// The const-ness chain a declaration's text denotes: one entry per `*`, in
/// order, true where the text run since the previous `*` (or the start)
/// holds the token `const`.  `seg` is where the current run began.
pub open spec fn constness_from(s: Seq<char>, p: int, seg: int) -> Seq<bool>
    decreases s.len() - p,
{
    if p < 0 || p >= s.len() {
        Seq::empty()
    } else if s[p] == '*' {
        seq![has_sub(s, seg, p, "const"@)] + constness_from(s, p + 1, p + 1)
    } else {
        constness_from(s, p + 1, seg)
    }
}

/// The const-ness chain of a declaration's text.
pub open spec fn constness_of(s: Seq<char>) -> Seq<bool> {
    constness_from(s, 0, 0)
}

/// Derives the const-ness chain from a declaration's text: one flag per
/// `*`, true where the run before it mentions `const`.  A leading `const`
/// with no `*` means a constant value and yields no entry.
pub fn parse_constness(s: &str) -> (r: Vec<bool>)
    ensures
        r@ == constness_of(s@),
{
    let n = s.unicode_len();
    let mut r: Vec<bool> = Vec::new();
    let mut p: usize = 0;
    let mut seg: usize = 0;
    while p < n
        invariant
            0 <= seg <= p <= n,
            n == s@.len(),
            constness_of(s@) == r@ + constness_from(s@, p as int, seg as int),
        decreases n - p,
    {
        if s.get_char(p) == '*' {
            let flag = find_sub(s, seg, p, "const");
            proof {
                assert(constness_from(s@, p as int, seg as int) ==
                    seq![flag] + constness_from(s@, p + 1, p + 1));
                assert(r@.push(flag) + constness_from(s@, p + 1, p + 1) =~=
                    r@ + constness_from(s@, p as int, seg as int));
            }
            r.push(flag);
            seg = p + 1;
        }
        p += 1;
    }
    proof {
        assert(r@ =~= r@ + constness_from(s@, n as int, seg as int));
    }
    r
}

/// The type reference a typed declaration denotes: the `type`
/// attribute-or-child names the type; the node's own text carries the
/// pointer declarators.
pub open spec fn typeref_of(n: NodeV) -> Result<TyperefInfoV, ParseErrorV> {
    match attr_or_child_of(n, "type"@) {
        None => Err(ParseErrorV::MissingRequiredAttributeOrChild {
            element: n.name,
            field: "type"@,
        }),
        Some(ty) => Ok(TyperefInfoV { ty, constness: constness_of(text_of(n.contents)) }),
    }
}

impl TyperefInfo {
    /// Parses the type reference of a typed declaration node.
    pub fn parse_node(node: &Node) -> (r: ParseResult<TyperefInfo>)
        ensures
            match typeref_of(node@) {
                Ok(t) => r matches Result::Ok(v) && v@ == t,
                Err(e) => r matches Result::Err(err) && err@ == e,
            },
    {
        match node.get_attribute_or_child("type") {
            None => Err(ParseError::MissingRequiredAttributeOrChild {
                element: clone_string(&node.name),
                field: "type".to_owned(),
            }),
            Some(ty) => {
                let text = node.concat_text();
                let constness = parse_constness(text.as_str());
                Ok(TyperefInfo { ty, constness })
            },
        }
    }

    /// The reference written out as a declarator: `*const ` or `*mut ` per
    /// indirection level, outermost first, then the type name.
    pub fn describe(&self) -> (r: String)
        ensures
            r@ == typeref_text(self@),
    {
        let mut out = String::new();
        let mut i: usize = 0;
        proof {
            assert(self.constness@.skip(0int) =~= self.constness@);
            assert(typeref_text(self@) =~= out@ + ptr_prefix(self.constness@) + self.ty@);
        }
        while i < self.constness.len()
            invariant
                i <= self.constness.len(),
                typeref_text(self@) == out@ + ptr_prefix(self.constness@.skip(i as int)) + self.ty@,
        decreases self.constness.len() - i,
        {
            proof {
                assert(self.constness@.skip(i as int)[0] == self.constness@[i as int]);
                assert(self.constness@.skip(i as int).skip(1) =~= self.constness@.skip(i as int + 1));
            }
            if self.constness[i] {
                out.append("*const ");
            } else {
                out.append("*mut ");
            }
            i += 1;
        }
        proof {
            assert(ptr_prefix(self.constness@.skip(self.constness@.len() as int)) =~=
                Seq::<char>::empty());
            assert(out@ + self.ty@ =~= out@ + ptr_prefix(self.constness@.skip(
                self.constness@.len() as int)) + self.ty@);
        }
        out.append(self.ty.as_str());
        out
    }
}

/// The declarator text of a const-ness chain.
pub open spec fn ptr_prefix(c: Seq<bool>) -> Seq<char>
    decreases c.len(),
{
    if c.len() == 0 {
        Seq::empty()
    } else {
        (if c[0] {
            "*const "@
        } else {
            "*mut "@
        }) + ptr_prefix(c.skip(1))
    }
}

/// The full declarator text of a type reference.
pub open spec fn typeref_text(t: TyperefInfoV) -> Seq<char> {
    ptr_prefix(t.constness) + t.ty
}

/// One member of a struct or union.
#[derive(Debug, Clone)]
pub struct StructMember {
    pub name: String,
    pub ty: TyperefInfo,
    /// Legal discriminant values, where the member is a tagged-union kind
    /// field.
    pub values: Option<Vec<String>>,
    pub externsync: bool,
    pub len: Option<String>,
    pub altlen: Option<String>,
    pub optional: bool,
    pub noautovalidity: bool,
}

/// Spec-level value of a [`StructMember`].
pub struct StructMemberV {
    pub name: Seq<char>,
    pub ty: TyperefInfoV,
    pub values: Option<Seq<Seq<char>>>,
    pub externsync: bool,
    pub len: Option<Seq<char>>,
    pub altlen: Option<Seq<char>>,
    pub optional: bool,
    pub noautovalidity: bool,
}

impl View for StructMember {
    type V = StructMemberV;

    open spec fn view(&self) -> StructMemberV {
        StructMemberV {
            name: self.name@,
            ty: self.ty@,
            values: match self.values {
                Some(v) => Some(strings_view(v@)),
                None => None,
            },
            externsync: self.externsync,
            len: match self.len {
                Some(ref l) => Some(l@),
                None => None,
            },
            altlen: match self.altlen {
                Some(ref l) => Some(l@),
                None => None,
            },
            optional: self.optional,
            noautovalidity: self.noautovalidity,
        }
    }
}

/// A boolean attribute: absent, or anything but `true`, reads as false.
pub open spec fn bool_attr(n: NodeV, name: Seq<char>) -> bool {
    attr_of(n, name) == Some("true"@)
}

fn read_bool_attr(node: &Node, name: &str) -> (r: bool)
    ensures
        r == bool_attr(node@, name@),
{
    match node.get_attribute(name) {
        Some(v) => str_eq(v.as_str(), "true"),
        None => false,
    }
}

/// The member a `<member>` node denotes: a mandatory name
/// (attribute-or-child), its type reference, and the optional sync/length/
/// validity metadata.
pub open spec fn member_of(n: NodeV) -> Result<StructMemberV, ParseErrorV> {
    match attr_or_child_of(n, "name"@) {
        None => Err(ParseErrorV::MissingRequiredAttributeOrChild {
            element: n.name,
            field: "name"@,
        }),
        Some(name) => match typeref_of(n) {
            Err(e) => Err(e),
            Ok(ty) => Ok(StructMemberV {
                name,
                ty,
                values: match attr_of(n, "values"@) {
                    Some(v) => Some(csv_of(v)),
                    None => None,
                },
                externsync: bool_attr(n, "externsync"@),
                len: attr_of(n, "len"@),
                altlen: attr_of(n, "altlen"@),
                optional: bool_attr(n, "optional"@),
                noautovalidity: bool_attr(n, "noautovalidity"@),
            }),
        },
    }
}

impl StructMember {
    /// Parses a struct or union member node.
    pub fn parse_node(node: &Node) -> (r: ParseResult<StructMember>)
        ensures
            match member_of(node@) {
                Ok(m) => r matches Result::Ok(v) && v@ == m,
                Err(e) => r matches Result::Err(err) && err@ == e,
            },
    {
        let name = match node.get_attribute_or_child("name") {
            None => {
                return Err(ParseError::MissingRequiredAttributeOrChild {
                    element: clone_string(&node.name),
                    field: "name".to_owned(),
                });
            },
            Some(name) => name,
        };
        let ty = match TyperefInfo::parse_node(node) {
            Err(e) => {
                return Err(e);
            },
            Ok(ty) => ty,
        };
        let values = match node.get_attribute("values") {
            Some(v) => Some(split_csv(v.as_str())),
            None => None,
        };
        Ok(StructMember {
            name,
            ty,
            values,
            externsync: read_bool_attr(node, "externsync"),
            len: clone_opt_string(node.get_attribute("len")),
            altlen: clone_opt_string(node.get_attribute("altlen")),
            optional: read_bool_attr(node, "optional"),
            noautovalidity: read_bool_attr(node, "noautovalidity"),
        })
    }
}

fn clone_opt_string(v: Option<&String>) -> (r: Option<String>)
    ensures
        match v {
            Some(s) => r matches Option::Some(t) && t@ == s@,
            None => r is None,
        },
{
    match v {
        Some(s) => Some(clone_string(s)),
        None => None,
    }
}

/// View of a member list.
pub open spec fn members_view(v: Seq<StructMember>) -> Seq<StructMemberV> {
    v.map_values(|m: StructMember| m@)
}

/// Whether a member is informational only ("private" to the emitter):
/// another member's `len` attribute names it as a length-governing field, or
/// its own pointer chain denotes a length-governed array — it is a pointer
/// with a `len` of its own.
pub open spec fn member_is_private(ms: Seq<StructMemberV>, i: int) -> bool {
    ||| exists|j: int| 0 <= j < ms.len() && j != i && (match #[trigger] ms[j].len {
            Some(l) => csv_of(l).contains(ms[i].name),
            None => false,
        })
    ||| (ms[i].len is Some && ms[i].ty.constness.len() > 0)
}

/// Computes [`member_is_private`] for the member at `i`.
pub fn is_private_member(members: &Vec<StructMember>, i: usize) -> (r: bool)
    requires
        i < members@.len(),
    ensures
        r == member_is_private(members_view(members@), i as int),
{
    let ghost ms = members_view(members@);
    if members[i].len.is_some() && members[i].ty.constness.len() > 0 {
        return true;
    }
    let mut j: usize = 0;
    while j < members.len()
        invariant
            j <= members@.len(),
            i < members@.len(),
            ms == members_view(members@),
            forall|k: int| 0 <= k < j && k != i ==> !(match #[trigger] ms[k].len {
                Some(l) => csv_of(l).contains(ms[i as int].name),
                None => false,
            }),
        decreases members.len() - j,
    {
        if j != i {
            match &members[j].len {
                Some(l) => {
                    let fields = split_csv(l.as_str());
                    let mut k: usize = 0;
                    let mut hit: bool = false;
                    while k < fields.len()
                        invariant
                            k <= fields@.len(),
                            i < members@.len(),
                            j < members@.len(),
                            ms == members_view(members@),
                            strings_view(fields@) == csv_of(ms[j as int].len->Some_0),
                            hit == exists|x: int| 0 <= x < k &&
                                strings_view(fields@)[x] == ms[i as int].name,
                        decreases fields.len() - k,
                    {
                        if str_eq(fields[k].as_str(), members[i].name.as_str()) {
                            hit = true;
                            proof {
                                assert(strings_view(fields@)[k as int] == ms[i as int].name);
                            }
                        }
                        k += 1;
                    }
                    if hit {
                        proof {
                            let x = choose|x: int| 0 <= x < fields@.len() &&
                                strings_view(fields@)[x] == ms[i as int].name;
                            assert(csv_of(ms[j as int].len->Some_0).contains(ms[i as int].name));
                        }
                        return true;
                    }
                },
                None => {},
            }
        }
        j += 1;
    }
    false
}

/// One parameter of a command.
#[derive(Debug, Clone)]
pub struct ParameterInfo {
    pub name: String,
    pub ty: TyperefInfo,
    pub optional: bool,
}

/// Spec-level value of a [`ParameterInfo`].
pub struct ParameterInfoV {
    pub name: Seq<char>,
    pub ty: TyperefInfoV,
    pub optional: bool,
}

impl View for ParameterInfo {
    type V = ParameterInfoV;

    open spec fn view(&self) -> ParameterInfoV {
        ParameterInfoV { name: self.name@, ty: self.ty@, optional: self.optional }
    }
}

/// The parameter a `<param>` node denotes.
pub open spec fn param_of(n: NodeV) -> Result<ParameterInfoV, ParseErrorV> {
    match attr_or_child_of(n, "name"@) {
        None => Err(ParseErrorV::MissingRequiredAttributeOrChild {
            element: n.name,
            field: "name"@,
        }),
        Some(name) => match typeref_of(n) {
            Err(e) => Err(e),
            Ok(ty) => Ok(ParameterInfoV { name, ty, optional: bool_attr(n, "optional"@) }),
        },
    }
}

impl ParameterInfo {
    /// Parses a command parameter node.
    pub fn parse_node(node: &Node) -> (r: ParseResult<ParameterInfo>)
        ensures
            match param_of(node@) {
                Ok(p) => r matches Result::Ok(v) && v@ == p,
                Err(e) => r matches Result::Err(err) && err@ == e,
            },
    {
        let name = match node.get_attribute_or_child("name") {
            None => {
                return Err(ParseError::MissingRequiredAttributeOrChild {
                    element: clone_string(&node.name),
                    field: "name".to_owned(),
                });
            },
            Some(name) => name,
        };
        match TyperefInfo::parse_node(node) {
            Err(e) => Err(e),
            Ok(ty) => Ok(ParameterInfo { name, ty, optional: read_bool_attr(node, "optional") }),
        }
    }
}

} // verus!
