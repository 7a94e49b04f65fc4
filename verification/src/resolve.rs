//! The extension resolver: the second, fully sequential pass.
//!
//! After assembly, every `EnumExtension` requirement of every feature and
//! extension is resolved: the target enum is looked up — a missing target is
//! a fatal consistency error — and the concrete value is computed from the
//! requirement's strategy, using the owning extension's number for
//! Offset-strategy derivation.  Features carry no extension number, so an
//! Offset-strategy requirement of a feature is rejected.  Entities are
//! processed in document order, features before extensions; either the whole
//! registry resolves, or it is left untouched.

use vstd::prelude::*;
use crate::errors::{ParseError, ParseErrorV, ParseResult};
use crate::events::clone_string;
use crate::fields::{EnumValue, EnumValueV};
use crate::enums::{EnumsInfo, EnumsInfoV};
use crate::extension::{EnumExtensionStrategy, EnumExtensionStrategyV, Requirement, RequirementV,
    FeatureInfoV, ExtensionInfoV, reqs_view};
use crate::registry::{Registry, RegistryV, feats_view, exts_view};
use crate::namemap::{NameMap, pairs_map};
use crate::typeinfo::values_view;

verus! {

/// First reserved value of the extension-enum numbering scheme.  Fixed by
/// the schema's own numbering convention: changing it changes correctness.
pub const ENUM_BASE_VALUE: isize = 1000000000;

/// Size of each extension's reserved value range.
pub const ENUM_RANGE_SIZE: isize = 1000;

/// The value an Offset-strategy requirement of extension number
/// `extension_number` derives: `BASE + (number - 1) * RANGE + offset`.
pub fn enum_offset(extension_number: isize, offset: isize) -> (r: isize)
    requires
        isize::MIN <= ENUM_BASE_VALUE as int + (extension_number as int - 1)
            * ENUM_RANGE_SIZE as int + offset as int <= isize::MAX,
    ensures
        r as int == ENUM_BASE_VALUE as int + (extension_number as int - 1)
            * ENUM_RANGE_SIZE as int + offset as int,
{
    proof {
        let m = extension_number as int;
        assert(-18446744073709551616000 <= (m - 1) * (ENUM_RANGE_SIZE as int)
            <= 18446744073709551616000) by (nonlinear_arith)
            requires -0x8000_0000_0000_0000 <= m <= 0x7fff_ffff_ffff_ffff;
    }
    let v: i128 = (ENUM_BASE_VALUE as i128) + ((extension_number as i128) - 1)
        * (ENUM_RANGE_SIZE as i128) + (offset as i128);
    v as isize
}

/// The concrete enum value a derivation strategy denotes, given the owning
/// entity's extension number: a carried value stands as itself; an offset is
/// derived by the reserved-range formula, negated where the requirement says
/// so; a feature (no number) cannot use the offset strategy; a derived value
/// outside the machine range is an error.
pub open spec fn strategy_value(st: EnumExtensionStrategyV, number: Option<isize>) -> Result<
    EnumValueV,
    ParseErrorV,
> {
    match st {
        EnumExtensionStrategyV::Value(v) => Ok(v),
        EnumExtensionStrategyV::Offset { offset, negated } => match number {
            None => Err(ParseErrorV::InvalidStrategyForEntity),
            Some(n) => {
                let raw = ENUM_BASE_VALUE as int + (n as int - 1) * ENUM_RANGE_SIZE as int
                    + offset as int;
                let v = if negated {
                    -raw
                } else {
                    raw
                };
                if isize::MIN <= v <= isize::MAX {
                    Ok(EnumValueV::Value(v as isize))
                } else {
                    Err(ParseErrorV::NumericOverflow { field: "offset"@ })
                }
            },
        },
    }
}

impl EnumExtensionStrategy {
    /// Computes the concrete value this strategy denotes for an entity with
    /// that extension number (`None` for features).
    pub fn resolve(&self, extension_number: Option<isize>) -> (r: ParseResult<EnumValue>)
        ensures
            match strategy_value(self@, extension_number) {
                Ok(v) => r matches Result::Ok(ev) && ev@ == v,
                Err(e) => r matches Result::Err(err) && err@ == e,
            },
    {
        match self {
            EnumExtensionStrategy::Value(v) => Ok(v.dup()),
            EnumExtensionStrategy::Offset { offset, negated } => match extension_number {
                None => Err(ParseError::InvalidStrategyForEntity),
                Some(n) => {
                    proof {
                        let m = n as int;
                        assert(-18446744073709551616000 <= (m - 1) * (ENUM_RANGE_SIZE as int)
                            <= 18446744073709551616000) by (nonlinear_arith)
                            requires -0x8000_0000_0000_0000 <= m <= 0x7fff_ffff_ffff_ffff;
                    }
                    let raw: i128 = (ENUM_BASE_VALUE as i128) + ((n as i128) - 1)
                        * (ENUM_RANGE_SIZE as i128) + (*offset as i128);
                    let v: i128 = if *negated {
                        -raw
                    } else {
                        raw
                    };
                    if isize::MIN as i128 <= v && v <= isize::MAX as i128 {
                        Ok(EnumValue::Value(v as isize))
                    } else {
                        Err(ParseError::NumericOverflow { field: "offset".to_owned() })
                    }
                },
            },
        }
    }
}

/// Resolves one entity's requirements against the enum mapping: every
/// `EnumExtension` appends its derived `(name, value)` to its target enum's
/// value list; a missing target or a failing derivation aborts.
pub open spec fn resolve_reqs(
    enums: Map<Seq<char>, EnumsInfoV>,
    reqs: Seq<RequirementV>,
    number: Option<isize>,
    entity: Seq<char>,
) -> Result<Map<Seq<char>, EnumsInfoV>, ParseErrorV>
    decreases reqs.len(),
{
    if reqs.len() == 0 {
        Ok(enums)
    } else {
        match reqs[0] {
            RequirementV::EnumExtension { name, extends, value } => {
                if !enums.contains_key(extends) {
                    Err(ParseErrorV::UnknownEnumTarget { extension: entity, target: extends })
                } else {
                    match strategy_value(value, number) {
                        Err(e) => Err(e),
                        Ok(v) => {
                            let e0 = enums[extends];
                            resolve_reqs(
                                enums.insert(
                                    extends,
                                    EnumsInfoV {
                                        name: e0.name,
                                        ty: e0.ty,
                                        values: e0.values.push((name, v)),
                                    },
                                ),
                                reqs.skip(1),
                                number,
                                entity,
                            )
                        },
                    }
                }
            },
            _ => resolve_reqs(enums, reqs.skip(1), number, entity),
        }
    }
}

/// Resolves every feature's requirements, in document order.  Features have
/// no extension number.
pub open spec fn resolve_features(
    enums: Map<Seq<char>, EnumsInfoV>,
    feats: Seq<FeatureInfoV>,
) -> Result<Map<Seq<char>, EnumsInfoV>, ParseErrorV>
    decreases feats.len(),
{
    if feats.len() == 0 {
        Ok(enums)
    } else {
        match resolve_reqs(enums, feats[0].requirements, None, feats[0].name) {
            Err(e) => Err(e),
            Ok(m) => resolve_features(m, feats.skip(1)),
        }
    }
}

/// Resolves every extension's requirements, in document order, each using
/// its own extension number.
pub open spec fn resolve_exts(
    enums: Map<Seq<char>, EnumsInfoV>,
    exts: Seq<ExtensionInfoV>,
) -> Result<Map<Seq<char>, EnumsInfoV>, ParseErrorV>
    decreases exts.len(),
{
    if exts.len() == 0 {
        Ok(enums)
    } else {
        match resolve_reqs(enums, exts[0].requirements, Some(exts[0].number), exts[0].name) {
            Err(e) => Err(e),
            Ok(m) => resolve_exts(m, exts.skip(1)),
        }
    }
}

/// The fully resolved registry: the enum mapping after every feature's and
/// every extension's enum-extension requirements have been merged in.
pub open spec fn resolved_registry(r: RegistryV) -> Result<RegistryV, ParseErrorV> {
    match resolve_features(r.enums, r.features) {
        Err(e) => Err(e),
        Ok(m1) => match resolve_exts(m1, r.extensions) {
            Err(e) => Err(e),
            Ok(m2) => Ok(RegistryV {
                types: r.types,
                enums: m2,
                commands: r.commands,
                features: r.features,
                extensions: r.extensions,
            }),
        },
    }
}

fn dup_values(v: &Vec<(String, EnumValue)>) -> (r: Vec<(String, EnumValue)>)
    ensures
        values_view(r@) == values_view(v@),
{
    let mut r: Vec<(String, EnumValue)> = Vec::new();
    let mut i: usize = 0;
    while i < v.len()
        invariant
            i <= v@.len(),
            r@.len() == i as int,
            forall|j: int| 0 <= j < i ==> (#[trigger] r@[j]).0@ == v@[j].0@
                && r@[j].1@ == v@[j].1@,
        decreases v.len() - i,
    {
        r.push((clone_string(&v[i].0), v[i].1.dup()));
        i += 1;
    }
    proof {
        assert(values_view(r@) =~= values_view(v@));
    }
    r
}

fn dup_enums_info(e: &EnumsInfo) -> (r: EnumsInfo)
    ensures
        r@ == e@,
{
    EnumsInfo { name: clone_string(&e.name), ty: e.ty, values: dup_values(&e.values) }
}

fn dup_enums_map(m: &NameMap<EnumsInfo>) -> (r: NameMap<EnumsInfo>)
    requires
        m.wf(),
    ensures
        r.wf(),
        r@ == m@,
{
    let mut r: NameMap<EnumsInfo> = NameMap::new();
    let n = m.len();
    let mut i: usize = 0;
    proof {
        assert(m.entry_seq().subrange(0, 0) =~= Seq::<(Seq<char>, EnumsInfoV)>::empty());
    }
    while i < n
        invariant
            i <= n,
            n == m.entry_seq().len(),
            m.wf(),
            r.wf(),
            r@ == pairs_map(m.entry_seq().subrange(0, i as int)),
        decreases n - i,
    {
        let entry = m.entry_at(i);
        let key = clone_string(&entry.0);
        let value = dup_enums_info(&entry.1);
        proof {
            let pre = m.entry_seq().subrange(0, i as int);
            let ext = m.entry_seq().subrange(0, i as int + 1);
            assert(ext.drop_last() =~= pre);
            assert(ext.last() == m.entry_seq()[i as int]);
        }
        r.insert(key, value);
        i += 1;
    }
    proof {
        assert(m.entry_seq().subrange(0, n as int) =~= m.entry_seq());
        m.lemma_view_is_pairs_map();
    }
    r
}

/// Resolves one entity's requirements into the scratch enum mapping.
fn apply_entity_reqs(
    work: &mut NameMap<EnumsInfo>,
    reqs: &Vec<Requirement>,
    number: Option<isize>,
    entity: &String,
) -> (r: Result<(), ParseError>)
    requires
        old(work).wf(),
    ensures
        final(work).wf(),
        match resolve_reqs(old(work)@, reqs_view(reqs@), number, entity@) {
            Ok(m) => r is Ok && final(work)@ == m,
            Err(e) => r matches Result::Err(err) && err@ == e,
        },
{
    let ghost rv = reqs_view(reqs@);
    let ghost m0 = work@;
    let mut i: usize = 0;
    proof {
        assert(rv.skip(0int) =~= rv);
    }
    while i < reqs.len()
        invariant
            i <= reqs@.len(),
            rv == reqs_view(reqs@),
            m0 == old(work)@,
            work.wf(),
            match resolve_reqs(work@, rv.skip(i as int), number, entity@) {
                Ok(m) => resolve_reqs(m0, rv, number, entity@) == Ok::<_, ParseErrorV>(m),
                Err(e) => resolve_reqs(m0, rv, number, entity@) == Err::<
                    Map<Seq<char>, EnumsInfoV>,
                    _,
                >(e),
            },
        decreases reqs.len() - i,
    {
        proof {
            assert(rv.skip(i as int)[0] == reqs@[i as int]@);
            assert(rv.skip(i as int).skip(1) =~= rv.skip(i as int + 1));
        }
        match &reqs[i] {
            Requirement::EnumExtension { name, extends, value } => {
                let target = match work.get(extends.as_str()) {
                    None => {
                        return Err(ParseError::UnknownEnumTarget {
                            extension: clone_string(entity),
                            target: clone_string(extends),
                        });
                    },
                    Some(t) => t,
                };
                let mut updated = dup_enums_info(target);
                let v = match value.resolve(number) {
                    Err(e) => {
                        return Err(e);
                    },
                    Ok(v) => v,
                };
                let name2 = clone_string(name);
                proof {
                    assert(values_view(updated.values@.push((name2, v))) =~=
                        values_view(updated.values@).push((name2@, v@)));
                }
                updated.values.push((name2, v));
                work.insert(clone_string(extends), updated);
            },
            _ => {},
        }
        i += 1;
    }
    proof {
        assert(rv.skip(reqs@.len() as int).len() == 0);
    }
    Ok(())
}

/// Resolves every enum-extension requirement of the registry's features and
/// extensions, merging the derived values into the owning enums.
///
/// Either the whole registry resolves — its enum mapping becomes exactly
/// the resolved one, everything else unchanged — or the first error is
/// returned and the registry is left untouched: a failing resolution never
/// partially mutates any enum.
pub fn resolve_registry(r: &mut Registry) -> (res: Result<(), ParseError>)
    requires
        old(r).wf(),
    ensures
        final(r).wf(),
        match resolved_registry(old(r)@) {
            Ok(rv) => res is Ok && final(r)@ == rv,
            Err(e) => {
                &&& res matches Result::Err(err) && err@ == e
                &&& final(r)@ == old(r)@
                &&& *final(r) == *old(r)
            },
        },
{
    let ghost r0 = r@;
    let mut work = dup_enums_map(&r.enums);
    let ghost feats = feats_view(r.features@);
    let mut i: usize = 0;
    proof {
        assert(feats.skip(0int) =~= feats);
    }
    while i < r.features.len()
        invariant
            i <= r.features@.len(),
            r == old(r),
            r@ == r0,
            r.wf(),
            feats == feats_view(r.features@),
            work.wf(),
            match resolve_features(work@, feats.skip(i as int)) {
                Ok(m) => resolve_features(r0.enums, feats) == Ok::<_, ParseErrorV>(m),
                Err(e) => resolve_features(r0.enums, feats) == Err::<
                    Map<Seq<char>, EnumsInfoV>,
                    _,
                >(e),
            },
        decreases r.features.len() - i,
    {
        proof {
            assert(feats.skip(i as int)[0] == r.features@[i as int]@);
            assert(feats.skip(i as int).skip(1) =~= feats.skip(i as int + 1));
        }
        let f = &r.features[i];
        match apply_entity_reqs(&mut work, &f.requirements, None, &f.name) {
            Err(e) => {
                return Err(e);
            },
            Ok(()) => {},
        }
        i += 1;
    }
    proof {
        assert(feats.skip(r.features@.len() as int).len() == 0);
    }
    let ghost exts = exts_view(r.extensions@);
    let mut k: usize = 0;
    proof {
        assert(exts.skip(0int) =~= exts);
    }
    while k < r.extensions.len()
        invariant
            k <= r.extensions@.len(),
            r == old(r),
            r@ == r0,
            r.wf(),
            exts == exts_view(r.extensions@),
            work.wf(),
            resolve_features(r0.enums, feats_view(r.features@)) is Ok,
            match resolve_exts(work@, exts.skip(k as int)) {
                Ok(m) => resolve_exts(
                    resolve_features(r0.enums, feats_view(r.features@))->Ok_0,
                    exts,
                ) == Ok::<_, ParseErrorV>(m),
                Err(e) => resolve_exts(
                    resolve_features(r0.enums, feats_view(r.features@))->Ok_0,
                    exts,
                ) == Err::<Map<Seq<char>, EnumsInfoV>, _>(e),
            },
        decreases r.extensions.len() - k,
    {
        proof {
            assert(exts.skip(k as int)[0] == r.extensions@[k as int]@);
            assert(exts.skip(k as int).skip(1) =~= exts.skip(k as int + 1));
        }
        let x = &r.extensions[k];
        let number = Some(x.number);
        match apply_entity_reqs(&mut work, &x.requirements, number, &x.name) {
            Err(e) => {
                return Err(e);
            },
            Ok(()) => {},
        }
        k += 1;
    }
    proof {
        assert(exts.skip(r.extensions@.len() as int).len() == 0);
    }
    r.enums = work;
    Ok(())
}

/// Between two enum mappings: the same enums exist, each keeping its name,
/// its semantics and its declared values in order and in place; the second
/// may only have further values appended after them.
pub open spec fn only_appends(
    before: Map<Seq<char>, EnumsInfoV>,
    after: Map<Seq<char>, EnumsInfoV>,
) -> bool {
    &&& after.dom() == before.dom()
    &&& forall|k: Seq<char>| before.contains_key(k) ==> {
        &&& (#[trigger] after[k]).name == before[k].name
        &&& after[k].ty == before[k].ty
        &&& after[k].values.len() >= before[k].values.len()
        &&& after[k].values.subrange(0, before[k].values.len() as int) == before[k].values
    }
}

/// `only_appends` composes.
proof fn lemma_only_appends_trans(
    a: Map<Seq<char>, EnumsInfoV>,
    b: Map<Seq<char>, EnumsInfoV>,
    c: Map<Seq<char>, EnumsInfoV>,
)
    requires
        only_appends(a, b),
        only_appends(b, c),
    ensures
        only_appends(a, c),
{
    assert forall|k: Seq<char>| a.contains_key(k) implies {
        &&& (#[trigger] c[k]).name == a[k].name
        &&& c[k].ty == a[k].ty
        &&& c[k].values.len() >= a[k].values.len()
        &&& c[k].values.subrange(0, a[k].values.len() as int) == a[k].values
    } by {
        assert(b.contains_key(k));
        let la = a[k].values.len() as int;
        let lb = b[k].values.len() as int;
        assert(c[k].values.subrange(0, lb) == b[k].values);
        assert(b[k].values.subrange(0, la) == a[k].values);
        assert forall|i: int| 0 <= i < la implies
            c[k].values.subrange(0, la)[i] == a[k].values[i] by {
            assert(c[k].values.subrange(0, lb)[i] == b[k].values[i]);
        }
        assert(c[k].values.subrange(0, la) =~= a[k].values);
    }
}

/// Resolving one entity's requirements only appends to enums.
proof fn lemma_resolve_reqs_appends(
    enums: Map<Seq<char>, EnumsInfoV>,
    reqs: Seq<RequirementV>,
    number: Option<isize>,
    entity: Seq<char>,
)
    requires
        resolve_reqs(enums, reqs, number, entity) is Ok,
    ensures
        only_appends(enums, resolve_reqs(enums, reqs, number, entity)->Ok_0),
    decreases reqs.len(),
{
    if reqs.len() == 0 {
        assert(only_appends(enums, enums)) by {
            assert(forall|k: Seq<char>| enums.contains_key(k) ==>
                (#[trigger] enums[k]).values.subrange(0, enums[k].values.len() as int)
                    =~= enums[k].values);
        }
    } else {
        match reqs[0] {
            RequirementV::EnumExtension { name, extends, value } => {
                let v = strategy_value(value, number)->Ok_0;
                let e0 = enums[extends];
                let step = enums.insert(
                    extends,
                    EnumsInfoV { name: e0.name, ty: e0.ty, values: e0.values.push((name, v)) },
                );
                assert(only_appends(enums, step)) by {
                    assert(step.dom() =~= enums.dom());
                    assert forall|k: Seq<char>| enums.contains_key(k) implies {
                        &&& (#[trigger] step[k]).name == enums[k].name
                        &&& step[k].ty == enums[k].ty
                        &&& step[k].values.len() >= enums[k].values.len()
                        &&& step[k].values.subrange(0, enums[k].values.len() as int)
                            == enums[k].values
                    } by {
                        if k == extends {
                            assert(step[k].values.subrange(0, enums[k].values.len() as int)
                                =~= enums[k].values);
                        } else {
                            assert(step[k].values.subrange(0, enums[k].values.len() as int)
                                =~= enums[k].values);
                        }
                    }
                }
                lemma_resolve_reqs_appends(step, reqs.skip(1), number, entity);
                lemma_only_appends_trans(
                    enums,
                    step,
                    resolve_reqs(step, reqs.skip(1), number, entity)->Ok_0,
                );
            },
            _ => {
                lemma_resolve_reqs_appends(enums, reqs.skip(1), number, entity);
            },
        }
    }
}

/// Resolving every feature only appends to enums.
proof fn lemma_resolve_features_appends(
    enums: Map<Seq<char>, EnumsInfoV>,
    feats: Seq<FeatureInfoV>,
)
    requires
        resolve_features(enums, feats) is Ok,
    ensures
        only_appends(enums, resolve_features(enums, feats)->Ok_0),
    decreases feats.len(),
{
    if feats.len() == 0 {
        lemma_resolve_reqs_appends(enums, Seq::empty(), None, Seq::empty());
    } else {
        let m = resolve_reqs(enums, feats[0].requirements, None, feats[0].name)->Ok_0;
        lemma_resolve_reqs_appends(enums, feats[0].requirements, None, feats[0].name);
        lemma_resolve_features_appends(m, feats.skip(1));
        lemma_only_appends_trans(enums, m, resolve_features(m, feats.skip(1))->Ok_0);
    }
}

/// Resolving every extension only appends to enums.
proof fn lemma_resolve_exts_appends(
    enums: Map<Seq<char>, EnumsInfoV>,
    exts: Seq<ExtensionInfoV>,
)
    requires
        resolve_exts(enums, exts) is Ok,
    ensures
        only_appends(enums, resolve_exts(enums, exts)->Ok_0),
    decreases exts.len(),
{
    if exts.len() == 0 {
        lemma_resolve_reqs_appends(enums, Seq::empty(), None, Seq::empty());
    } else {
        let m = resolve_reqs(
            enums,
            exts[0].requirements,
            Some(exts[0].number),
            exts[0].name,
        )->Ok_0;
        lemma_resolve_reqs_appends(enums, exts[0].requirements, Some(exts[0].number), exts[0].name);
        lemma_resolve_exts_appends(m, exts.skip(1));
        lemma_only_appends_trans(enums, m, resolve_exts(m, exts.skip(1))->Ok_0);
    }
}

/// Resolution only appends: a registry that resolves keeps every type,
/// command, feature and extension exactly as assembled, keeps exactly the
/// enums it had — each with its name, semantics and declared values in
/// order and in place — and may only add derived values after them.
pub proof fn lemma_resolution_only_appends(r: RegistryV)
    requires
        resolved_registry(r) is Ok,
    ensures
        ({
            let rv = resolved_registry(r)->Ok_0;
            &&& rv.types == r.types
            &&& rv.commands == r.commands
            &&& rv.features == r.features
            &&& rv.extensions == r.extensions
            &&& only_appends(r.enums, rv.enums)
        }),
{
    let m1 = resolve_features(r.enums, r.features)->Ok_0;
    lemma_resolve_features_appends(r.enums, r.features);
    lemma_resolve_exts_appends(m1, r.extensions);
    lemma_only_appends_trans(r.enums, m1, resolve_exts(m1, r.extensions)->Ok_0);
}

} // verus!
