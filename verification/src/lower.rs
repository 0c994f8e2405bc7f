//! The declaration lowering engine: converts each surviving declaration of
//! the type model into zero or more output declarations, converts every type
//! reference into a target type expression, and groups the variable and
//! function declarations into the single foreign-linkage block.
//!
//! Each executable step has a specification function over the ghost lowering
//! state [`LowerSt`]; the executable code is proved to compute exactly what
//! the specification says, so the whole run is deterministic by construction.

use vstd::prelude::*;
use vstd::string::StringExecFns;

use crate::ident::{dec_numeral, dec_rep, rust_id, spec_rust_id};
use crate::model::{
    st_matches, st_ok, spec_ensure_comp_named, spec_ensure_enum_named, ty_wf, ty_wf_m, CField,
    CParam, CType, FloatKind, Global, IntKind, LowerCtx, LowerSt, TypeModel,
};
use crate::output::{
    items_view, RsArg, RsArgV, RsField, RsFieldV, RsFn, RsFnV, RsItem, RsItemV, RsLinkBlock,
    RsLinkBlockV, RsType, RsTypeV, RsVar, RsVarV,
};

verus! {

/// The platform alias each integer kind lowers to.  Every kind keeps a
/// distinct alias so the reported type intent survives lowering.
pub open spec fn int_ty_name(k: IntKind) -> Seq<char> {
    match k {
        IntKind::IBool => "c_bool"@,
        IntKind::ISChar => "c_schar"@,
        IntKind::IUChar => "c_uchar"@,
        IntKind::IShort => "c_short"@,
        IntKind::IUShort => "c_ushort"@,
        IntKind::IInt => "c_int"@,
        IntKind::IUInt => "c_uint"@,
        IntKind::ILong => "c_long"@,
        IntKind::IULong => "c_ulong"@,
        IntKind::ILongLong => "c_longlong"@,
        IntKind::IULongLong => "c_ulonglong"@,
    }
}

/// The platform alias each floating-point kind lowers to.
pub open spec fn float_ty_name(k: FloatKind) -> Seq<char> {
    match k {
        FloatKind::FFloat => "c_float"@,
        FloatKind::FDouble => "c_double"@,
    }
}

/// The identifier under which a reference to aggregate identity `i` is
/// emitted, given the name `nm` the identity carries.
pub open spec fn comp_ref_name(m: TypeModel, i: int, nm: Seq<char>) -> Seq<char> {
    if m.comps@[i].cstruct {
        "Struct_"@ + nm
    } else {
        "Union_"@ + nm
    }
}

/// What lowering one type reference yields: the state after (anonymous
/// identities encountered for the first time receive their synthetic name
/// here) and the target type expression.
pub open spec fn spec_cty_to_rs(m: TypeModel, st: LowerSt, t: CType) -> (LowerSt, RsTypeV)
    decreases t,
{
    match t {
        CType::Void => (st, RsTypeV::Path("c_void"@)),
        CType::Int(k) => (st, RsTypeV::Path(int_ty_name(k))),
        CType::Float(k) => (st, RsTypeV::Path(float_ty_name(k))),
        CType::Ptr(t2) => {
            let p = spec_cty_to_rs(m, st, *t2);
            (p.0, RsTypeV::Ptr(Box::new(p.1)))
        },
        CType::Array(t2, n) => {
            let p = spec_cty_to_rs(m, st, *t2);
            (p.0, RsTypeV::Array(Box::new(p.1), n))
        },
        CType::Func(_, _, _) => (st, RsTypeV::Ptr(Box::new(RsTypeV::Path("u8"@)))),
        CType::Named(n) => (st, RsTypeV::Path(spec_rust_id(n@))),
        CType::Comp(i) => {
            let p = spec_ensure_comp_named(st, i as int);
            (p.0, RsTypeV::Path(comp_ref_name(m, i as int, p.1)))
        },
        CType::EnumRef(i) => {
            let p = spec_ensure_enum_named(st, i as int);
            (p.0, RsTypeV::Path("Enum_"@ + p.1))
        },
    }
}

/// A named target type.
pub fn mk_ty(name: String) -> (t: RsType)
    ensures
        t@ == RsTypeV::Path(name@),
{
    RsType::Path(name)
}

/// A pointer to a target type.
pub fn mk_ptrty(base: RsType) -> (t: RsType)
    ensures
        t@ == RsTypeV::Ptr(Box::new(base@)),
{
    RsType::Ptr(Box::new(base))
}

/// A fixed-length sequence of a target type; the length is kept exactly.
pub fn mk_arrty(base: RsType, n: usize) -> (t: RsType)
    ensures
        t@ == RsTypeV::Array(Box::new(base@), n),
{
    RsType::Array(Box::new(base), n)
}

/// The opaque callback-pointer placeholder every C function type reference
/// lowers to; the parameter and return shape is reproduced only at top-level
/// function declarations.
pub fn mk_fnty() -> (t: RsType)
    ensures
        t@ == RsTypeV::Ptr(Box::new(RsTypeV::Path("u8"@))),
{
    let inner = RsType::Path(String::from_str("u8"));
    assert(inner@ == RsTypeV::Path("u8"@));
    RsType::Ptr(Box::new(inner))
}

fn int_ty(k: IntKind) -> (t: RsType)
    ensures
        t@ == RsTypeV::Path(int_ty_name(k)),
{
    match k {
        IntKind::IBool => mk_ty(String::from_str("c_bool")),
        IntKind::ISChar => mk_ty(String::from_str("c_schar")),
        IntKind::IUChar => mk_ty(String::from_str("c_uchar")),
        IntKind::IShort => mk_ty(String::from_str("c_short")),
        IntKind::IUShort => mk_ty(String::from_str("c_ushort")),
        IntKind::IInt => mk_ty(String::from_str("c_int")),
        IntKind::IUInt => mk_ty(String::from_str("c_uint")),
        IntKind::ILong => mk_ty(String::from_str("c_long")),
        IntKind::IULong => mk_ty(String::from_str("c_ulong")),
        IntKind::ILongLong => mk_ty(String::from_str("c_longlong")),
        IntKind::IULongLong => mk_ty(String::from_str("c_ulonglong")),
    }
}

fn float_ty(k: FloatKind) -> (t: RsType)
    ensures
        t@ == RsTypeV::Path(float_ty_name(k)),
{
    match k {
        FloatKind::FFloat => mk_ty(String::from_str("c_float")),
        FloatKind::FDouble => mk_ty(String::from_str("c_double")),
    }
}

/// Lower one type reference.  Anonymous aggregate or enum identities met here
/// for the first time receive their synthetic name, written into the shared
/// context so every later reference observes it.
pub fn cty_to_rs(m: &TypeModel, ctx: &mut LowerCtx, t: &CType) -> (r: RsType)
    requires
        st_ok(old(ctx)@),
        st_matches(old(ctx)@, *m),
        ty_wf_m(*m, *t),
    ensures
        final(ctx)@ == spec_cty_to_rs(*m, old(ctx)@, *t).0,
        r@ == spec_cty_to_rs(*m, old(ctx)@, *t).1,
        st_ok(final(ctx)@),
        st_matches(final(ctx)@, *m),
    decreases *t,
{
    match t {
        CType::Void => mk_ty(String::from_str("c_void")),
        CType::Int(k) => int_ty(*k),
        CType::Float(k) => float_ty(*k),
        CType::Ptr(t2) => {
            let base = cty_to_rs(m, ctx, &**t2);
            mk_ptrty(base)
        },
        CType::Array(t2, n) => {
            let base = cty_to_rs(m, ctx, &**t2);
            mk_arrty(base, *n)
        },
        CType::Func(_, _, _) => mk_fnty(),
        CType::Named(n) => mk_ty(rust_id(n.as_str())),
        CType::Comp(i) => {
            let nm = ctx.ensure_comp_named(*i);
            let s = if m.comps[*i].cstruct {
                String::from_str("Struct_").concat(nm.as_str())
            } else {
                String::from_str("Union_").concat(nm.as_str())
            };
            mk_ty(s)
        },
        CType::EnumRef(i) => {
            let nm = ctx.ensure_enum_named(*i);
            mk_ty(String::from_str("Enum_").concat(nm.as_str()))
        },
    }
}

/// How many of the first `j` fields are unnamed; the 1-based occurrence
/// count behind `unnamed_field<K>` names.
pub open spec fn unnamed_before(fields: Seq<CField>, j: int) -> int
    decreases j,
{
    if j <= 0 {
        0
    } else {
        unnamed_before(fields, j - 1) + if fields[j - 1].name@.len() == 0 {
            1int
        } else {
            0int
        }
    }
}

/// The emitted name of field `j`: the escaped model name, or a synthesized
/// `unnamed_field<K>` where the model name is empty.
pub open spec fn spec_field_name(fields: Seq<CField>, j: int) -> Seq<char> {
    if fields[j].name@.len() == 0 {
        "unnamed_field"@ + dec_rep(unnamed_before(fields, j) + 1)
    } else {
        spec_rust_id(fields[j].name@)
    }
}

/// What lowering the first `j` fields of a record yields.
pub open spec fn spec_lower_fields(m: TypeModel, st: LowerSt, fields: Seq<CField>, j: int) -> (
    LowerSt,
    Seq<RsFieldV>,
)
    decreases j,
{
    if j <= 0 {
        (st, Seq::<RsFieldV>::empty())
    } else {
        let p = spec_lower_fields(m, st, fields, j - 1);
        let q = spec_cty_to_rs(m, p.0, fields[j - 1].ty);
        (q.0, p.1.push(RsFieldV { name: spec_field_name(fields, j - 1), ty: q.1 }))
    }
}

/// The deep view of a field list under construction.
pub open spec fn rsfields_view(s: Seq<RsField>) -> Seq<RsFieldV> {
    Seq::new(s.len(), |i: int| s[i]@)
}

/// The deep view of an argument list under construction.
pub open spec fn rsargs_view(s: Seq<RsArg>) -> Seq<RsArgV> {
    Seq::new(s.len(), |i: int| s[i]@)
}

/// The deep view of a foreign-variable list under construction.
pub open spec fn rsvars_view(s: Seq<RsVar>) -> Seq<RsVarV> {
    Seq::new(s.len(), |i: int| s[i]@)
}

/// The deep view of a foreign-function list under construction.
pub open spec fn rsfns_view(s: Seq<RsFn>) -> Seq<RsFnV> {
    Seq::new(s.len(), |i: int| s[i]@)
}

/// What lowering the full definition of struct-kind aggregate `i` yields:
/// a record named `Struct_<name>` with one field per model field, in model
/// order.
pub open spec fn spec_cstruct_item(m: TypeModel, st: LowerSt, i: int) -> (LowerSt, RsItemV) {
    let nm = st.comp_names[i];
    let p = spec_lower_fields(m, st, m.comps@[i].fields@, m.comps@[i].fields@.len() as int);
    (p.0, RsItemV::Record(spec_rust_id("Struct_"@ + nm), p.1))
}

/// What lowering the definition of union-kind aggregate `i` yields: an
/// opaque placeholder `Union_<name>`, a documented simplification.
pub open spec fn spec_cunion_item(st: LowerSt, i: int) -> RsItemV {
    RsItemV::TyAlias(spec_rust_id("Union_"@ + st.comp_names[i]), RsTypeV::Path("c_void"@))
}

/// What lowering the definition of aggregate `i` (already named) yields.
pub open spec fn spec_comp_def(m: TypeModel, st: LowerSt, i: int) -> (LowerSt, Seq<RsItemV>) {
    if m.comps@[i].cstruct {
        let p = spec_cstruct_item(m, st, i);
        (p.0, seq![p.1])
    } else {
        (st, seq![spec_cunion_item(st, i)])
    }
}

/// Lower the definition of a struct-kind aggregate to a record type.  Empty
/// field names get synthesized `unnamed_field<K>` names, `K` counting unnamed
/// fields within this record from 1.
pub fn cstruct_to_rs(m: &TypeModel, ctx: &mut LowerCtx, i: usize) -> (it: RsItem)
    requires
        st_ok(old(ctx)@),
        st_matches(old(ctx)@, *m),
        crate::model::model_wf(*m),
        i < m.comps@.len(),
        m.comps@[i as int].cstruct,
    ensures
        final(ctx)@ == spec_cstruct_item(*m, old(ctx)@, i as int).0,
        it@ == spec_cstruct_item(*m, old(ctx)@, i as int).1,
        st_ok(final(ctx)@),
        st_matches(final(ctx)@, *m),
{
    let ghost st0 = ctx@;
    let ghost fseq = m.comps@[i as int].fields@;
    let nm = ctx.comp_names[i].clone();
    let mut fs: Vec<RsField> = Vec::new();
    let mut u: usize = 0;
    let mut j: usize = 0;
    let nfields = m.comps[i].fields.len();
    while j < nfields
        invariant
            st_ok(ctx@),
            st_matches(ctx@, *m),
            crate::model::model_wf(*m),
            i < m.comps@.len(),
            m.comps@[i as int].cstruct,
            nfields == fseq.len(),
            fseq == m.comps@[i as int].fields@,
            j <= nfields,
            u <= j,
            u as int == unnamed_before(fseq, j as int),
            ctx@ == spec_lower_fields(*m, st0, fseq, j as int).0,
            rsfields_view(fs@) == spec_lower_fields(*m, st0, fseq, j as int).1,
        decreases nfields - j,
    {
        let f = &m.comps[i].fields[j];
        proof {
            assert(ty_wf(m.comps@.len() as int, m.enums@.len() as int, fseq[j as int].ty));
        }
        let fname: String = if f.name.as_str().is_empty() {
            u = u + 1;
            String::from_str("unnamed_field").concat(dec_numeral(u as u128).as_str())
        } else {
            rust_id(f.name.as_str())
        };
        let fty = cty_to_rs(m, ctx, &f.ty);
        fs.push(RsField { name: fname, ty: fty });
        proof {
            assert(fname@ == spec_field_name(fseq, j as int));
            assert(rsfields_view(fs@) =~= spec_lower_fields(*m, st0, fseq, j as int + 1).1);
        }
        j = j + 1;
    }
    let name = rust_id(String::from_str("Struct_").concat(nm.as_str()).as_str());
    let it = RsItem::Record(name, fs);
    proof {
        assert(it@ =~~= spec_cstruct_item(*m, st0, i as int).1);
    }
    it
}

/// Lower the definition of a union-kind aggregate to an opaque placeholder:
/// layout-accurate union emulation is intentionally out of scope.
pub fn cunion_to_rs(m: &TypeModel, ctx: &mut LowerCtx, i: usize) -> (it: RsItem)
    requires
        i < old(ctx)@.comp_names.len(),
    ensures
        final(ctx)@ == old(ctx)@,
        it@ == spec_cunion_item(old(ctx)@, i as int),
{
    let nm = ctx.comp_names[i].clone();
    let name = rust_id(String::from_str("Union_").concat(nm.as_str()).as_str());
    RsItem::TyAlias(name, mk_ty(String::from_str("c_void")))
}

/// Lower the definition of aggregate `i`, which already carries its name.
pub fn ccomp_to_rs(m: &TypeModel, ctx: &mut LowerCtx, i: usize) -> (out: Vec<RsItem>)
    requires
        st_ok(old(ctx)@),
        st_matches(old(ctx)@, *m),
        crate::model::model_wf(*m),
        i < m.comps@.len(),
    ensures
        final(ctx)@ == spec_comp_def(*m, old(ctx)@, i as int).0,
        items_view(out@) == spec_comp_def(*m, old(ctx)@, i as int).1,
        st_ok(final(ctx)@),
        st_matches(final(ctx)@, *m),
{
    let mut out: Vec<RsItem> = Vec::new();
    if m.comps[i].cstruct {
        let it = cstruct_to_rs(m, ctx, i);
        out.push(it);
    } else {
        let it = cunion_to_rs(m, ctx, i);
        out.push(it);
    }
    proof {
        assert(items_view(out@) =~= spec_comp_def(*m, old(ctx)@, i as int).1);
    }
    out
}

/// The constant emitted for enumerator `j` of enum `i`: its escaped name,
/// the enum's alias as its type, and the stored value copied verbatim.
pub open spec fn spec_cenum_const(m: TypeModel, st: LowerSt, i: int, j: int) -> RsItemV {
    let alias = spec_rust_id("Enum_"@ + st.enum_names[i]);
    RsItemV::IntConst(
        spec_rust_id(m.enums@[i].items@[j].name@),
        RsTypeV::Path(alias),
        m.enums@[i].items@[j].val,
    )
}

/// The constants for the first `j` enumerators of enum `i`, in model order.
pub open spec fn spec_cenum_consts(m: TypeModel, st: LowerSt, i: int, j: int) -> Seq<RsItemV>
    decreases j,
{
    if j <= 0 {
        Seq::<RsItemV>::empty()
    } else {
        spec_cenum_consts(m, st, i, j - 1).push(spec_cenum_const(m, st, i, j - 1))
    }
}

/// What lowering the definition of enum `i` (already named) yields: an
/// integer-type alias `Enum_<name>` followed by one constant per enumerator,
/// typed with the alias, values copied verbatim and in order.
pub open spec fn spec_cenum_items(m: TypeModel, st: LowerSt, i: int) -> Seq<RsItemV> {
    let alias = spec_rust_id("Enum_"@ + st.enum_names[i]);
    seq![RsItemV::TyAlias(alias, RsTypeV::Path(int_ty_name(m.enums@[i].kind)))]
        + spec_cenum_consts(m, st, i, m.enums@[i].items@.len() as int)
}

/// Lower the definition of enum `i`, which already carries its name.
pub fn cenum_to_rs(m: &TypeModel, ctx: &mut LowerCtx, i: usize) -> (out: Vec<RsItem>)
    requires
        i < m.enums@.len(),
        i < old(ctx)@.enum_names.len(),
    ensures
        final(ctx)@ == old(ctx)@,
        items_view(out@) == spec_cenum_items(*m, old(ctx)@, i as int),
{
    let ghost st0 = ctx@;
    let ghost alias_v = spec_rust_id("Enum_"@ + st0.enum_names[i as int]);
    let nm = ctx.enum_names[i].clone();
    let alias = rust_id(String::from_str("Enum_").concat(nm.as_str()).as_str());
    proof {
        assert(alias@ == alias_v);
    }
    let mut out: Vec<RsItem> = Vec::new();
    let head = RsItem::TyAlias(alias.clone(), int_ty(m.enums[i].kind));
    proof {
        assert(head@ == RsItemV::TyAlias(alias_v, RsTypeV::Path(int_ty_name(m.enums@[i as int].kind))));
    }
    out.push(head);
    proof {
        assert(items_view(out@) =~= seq![
            RsItemV::TyAlias(alias_v, RsTypeV::Path(int_ty_name(m.enums@[i as int].kind))),
        ] + spec_cenum_consts(*m, st0, i as int, 0));
    }
    let mut j: usize = 0;
    let nitems = m.enums[i].items.len();
    while j < nitems
        invariant
            i < m.enums@.len(),
            i < st0.enum_names.len(),
            nitems == m.enums@[i as int].items@.len(),
            j <= nitems,
            alias@ == alias_v,
            alias_v == spec_rust_id("Enum_"@ + st0.enum_names[i as int]),
            ctx@ == st0,
            items_view(out@) == seq![
                RsItemV::TyAlias(alias_v, RsTypeV::Path(int_ty_name(m.enums@[i as int].kind))),
            ] + spec_cenum_consts(*m, st0, i as int, j as int),
        decreases nitems - j,
    {
        let it = &m.enums[i].items[j];
        let c = RsItem::IntConst(rust_id(it.name.as_str()), RsType::Path(alias.clone()), it.val);
        proof {
            assert(c@ == spec_cenum_const(*m, st0, i as int, j as int));
        }
        let ghost out0 = out@;
        out.push(c);
        proof {
            let ghost head_v = seq![
                RsItemV::TyAlias(alias_v, RsTypeV::Path(int_ty_name(m.enums@[i as int].kind))),
            ];
            assert(items_view(out@) =~= items_view(out0).push(c@));
            assert(spec_cenum_consts(*m, st0, i as int, j as int + 1) == spec_cenum_consts(
                *m,
                st0,
                i as int,
                j as int,
            ).push(spec_cenum_const(*m, st0, i as int, j as int)));
            assert((head_v + spec_cenum_consts(*m, st0, i as int, j as int)).push(c@) =~= head_v
                + spec_cenum_consts(*m, st0, i as int, j as int + 1));
        }
        j = j + 1;
    }
    out
}

/// What lowering a typedef yields.  A typedef of a still-unnamed aggregate
/// or enum assigns its name to that identity and collapses into the full
/// definition; any other typedef becomes a plain type alias.
pub open spec fn spec_ctypedef(m: TypeModel, st: LowerSt, name: Seq<char>, ty: CType) -> (
    LowerSt,
    Seq<RsItemV>,
) {
    match ty {
        CType::Comp(i) => {
            if st.comp_names[i as int].len() == 0 {
                let st1 = LowerSt { comp_names: st.comp_names.update(i as int, name), ..st };
                spec_comp_def(m, st1, i as int)
            } else {
                let q = spec_cty_to_rs(m, st, ty);
                (q.0, seq![RsItemV::TyAlias(spec_rust_id(name), q.1)])
            }
        },
        CType::EnumRef(i) => {
            if st.enum_names[i as int].len() == 0 {
                let st1 = LowerSt { enum_names: st.enum_names.update(i as int, name), ..st };
                (st1, spec_cenum_items(m, st1, i as int))
            } else {
                let q = spec_cty_to_rs(m, st, ty);
                (q.0, seq![RsItemV::TyAlias(spec_rust_id(name), q.1)])
            }
        },
        _ => {
            let q = spec_cty_to_rs(m, st, ty);
            (q.0, seq![RsItemV::TyAlias(spec_rust_id(name), q.1)])
        },
    }
}

/// Lower one typedef declaration.
pub fn ctypedef_to_rs(m: &TypeModel, ctx: &mut LowerCtx, name: &str, ty: &CType) -> (out: Vec<
    RsItem,
>)
    requires
        st_ok(old(ctx)@),
        st_matches(old(ctx)@, *m),
        crate::model::model_wf(*m),
        ty_wf_m(*m, *ty),
    ensures
        final(ctx)@ == spec_ctypedef(*m, old(ctx)@, name@, *ty).0,
        items_view(out@) == spec_ctypedef(*m, old(ctx)@, name@, *ty).1,
        st_ok(final(ctx)@),
        st_matches(final(ctx)@, *m),
{
    let ghost st0 = ctx@;
    match ty {
        CType::Comp(i) => {
            if ctx.comp_names[*i].as_str().is_empty() {
                proof {
                    let flags = crate::model::named_flags(st0.comp_names);
                    crate::model::lemma_count_true_update_ge(flags, *i as int, name@.len() > 0);
                }
                ctx.comp_names[*i] = name.to_owned();
                proof {
                    assert(ctx@.comp_names =~= st0.comp_names.update(*i as int, name@));
                    assert(ctx@.enum_names =~= st0.enum_names);
                    assert(ctx@ =~= LowerSt {
                        comp_names: st0.comp_names.update(*i as int, name@),
                        ..st0
                    });
                    assert(crate::model::named_flags(ctx@.comp_names) =~= crate::model::named_flags(
                        st0.comp_names,
                    ).update(*i as int, name@.len() > 0));
                }
                ccomp_to_rs(m, ctx, *i)
            } else {
                let rt = cty_to_rs(m, ctx, ty);
                let mut out: Vec<RsItem> = Vec::new();
                out.push(RsItem::TyAlias(rust_id(name), rt));
                proof {
                    assert(items_view(out@) =~= spec_ctypedef(*m, st0, name@, *ty).1);
                }
                out
            }
        },
        CType::EnumRef(i) => {
            if ctx.enum_names[*i].as_str().is_empty() {
                proof {
                    let flags = crate::model::named_flags(st0.enum_names);
                    crate::model::lemma_count_true_update_ge(flags, *i as int, name@.len() > 0);
                }
                ctx.enum_names[*i] = name.to_owned();
                proof {
                    assert(ctx@.enum_names =~= st0.enum_names.update(*i as int, name@));
                    assert(ctx@.comp_names =~= st0.comp_names);
                    assert(ctx@ =~= LowerSt {
                        enum_names: st0.enum_names.update(*i as int, name@),
                        ..st0
                    });
                    assert(crate::model::named_flags(ctx@.enum_names) =~= crate::model::named_flags(
                        st0.enum_names,
                    ).update(*i as int, name@.len() > 0));
                }
                cenum_to_rs(m, ctx, *i)
            } else {
                let rt = cty_to_rs(m, ctx, ty);
                let mut out: Vec<RsItem> = Vec::new();
                out.push(RsItem::TyAlias(rust_id(name), rt));
                proof {
                    assert(items_view(out@) =~= spec_ctypedef(*m, st0, name@, *ty).1);
                }
                out
            }
        },
        _ => {
            let rt = cty_to_rs(m, ctx, ty);
            let mut out: Vec<RsItem> = Vec::new();
            out.push(RsItem::TyAlias(rust_id(name), rt));
            proof {
                assert(items_view(out@) =~= spec_ctypedef(*m, st0, name@, *ty).1);
            }
            out
        },
    }
}

/// What lowering a global variable yields: a foreign constant declaration
/// with the escaped name and the lowered type.
pub open spec fn spec_cvar(m: TypeModel, st: LowerSt, name: Seq<char>, ty: CType) -> (
    LowerSt,
    RsVarV,
) {
    let q = spec_cty_to_rs(m, st, ty);
    (q.0, RsVarV { name: spec_rust_id(name), ty: q.1 })
}

/// Lower one global variable declaration.
pub fn cvar_to_rs(m: &TypeModel, ctx: &mut LowerCtx, name: &str, ty: &CType) -> (v: RsVar)
    requires
        st_ok(old(ctx)@),
        st_matches(old(ctx)@, *m),
        ty_wf_m(*m, *ty),
    ensures
        final(ctx)@ == spec_cvar(*m, old(ctx)@, name@, *ty).0,
        v@ == spec_cvar(*m, old(ctx)@, name@, *ty).1,
        st_ok(final(ctx)@),
        st_matches(final(ctx)@, *m),
{
    let rt = cty_to_rs(m, ctx, ty);
    RsVar { name: rust_id(name), ty: rt }
}

/// The emitted name of parameter `j`: the escaped model name, or `arg<K>`
/// with `K` the 1-based position where the model name is empty.
pub open spec fn spec_arg_name(ps: Seq<CParam>, j: int) -> Seq<char> {
    if ps[j].name@.len() == 0 {
        "arg"@ + dec_rep(j + 1)
    } else {
        spec_rust_id(ps[j].name@)
    }
}

/// What lowering the first `j` parameters of a function yields.
pub open spec fn spec_lower_args(m: TypeModel, st: LowerSt, ps: Seq<CParam>, j: int) -> (
    LowerSt,
    Seq<RsArgV>,
)
    decreases j,
{
    if j <= 0 {
        (st, Seq::<RsArgV>::empty())
    } else {
        let p = spec_lower_args(m, st, ps, j - 1);
        let q = spec_cty_to_rs(m, p.0, ps[j - 1].ty);
        (q.0, p.1.push(RsArgV { name: spec_arg_name(ps, j - 1), ty: q.1 }))
    }
}

/// What lowering a function declaration yields: a foreign function with the
/// escaped name, a void return mapped to no return value, parameters in
/// order, and the variadic flag preserved.
pub open spec fn spec_cfunc(
    m: TypeModel,
    st: LowerSt,
    name: Seq<char>,
    rty: CType,
    ps: Seq<CParam>,
    variadic: bool,
) -> (LowerSt, RsFnV) {
    let retp = match rty {
        CType::Void => (st, Option::<RsTypeV>::None),
        _ => {
            let q = spec_cty_to_rs(m, st, rty);
            (q.0, Option::<RsTypeV>::Some(q.1))
        },
    };
    let p = spec_lower_args(m, retp.0, ps, ps.len() as int);
    (p.0, RsFnV { name: spec_rust_id(name), ret: retp.1, args: p.1, variadic })
}

/// Lower one function declaration.
pub fn cfunc_to_rs(
    m: &TypeModel,
    ctx: &mut LowerCtx,
    name: &str,
    rty: &CType,
    aty: &Vec<CParam>,
    variadic: bool,
) -> (f: RsFn)
    requires
        st_ok(old(ctx)@),
        st_matches(old(ctx)@, *m),
        ty_wf_m(*m, *rty),
        crate::model::params_wf(m.comps@.len() as int, m.enums@.len() as int, *aty),
    ensures
        final(ctx)@ == spec_cfunc(*m, old(ctx)@, name@, *rty, aty@, variadic).0,
        f@ == spec_cfunc(*m, old(ctx)@, name@, *rty, aty@, variadic).1,
        st_ok(final(ctx)@),
        st_matches(final(ctx)@, *m),
{
    let ghost st0 = ctx@;
    let ret: Option<RsType> = match rty {
        CType::Void => None,
        _ => Some(cty_to_rs(m, ctx, rty)),
    };
    let ghost st1 = ctx@;
    let mut args: Vec<RsArg> = Vec::new();
    let mut j: usize = 0;
    let nargs = aty.len();
    while j < nargs
        invariant
            st_ok(ctx@),
            st_matches(ctx@, *m),
            crate::model::params_wf(m.comps@.len() as int, m.enums@.len() as int, *aty),
            nargs == aty@.len(),
            j <= nargs,
            ctx@ == spec_lower_args(*m, st1, aty@, j as int).0,
            rsargs_view(args@) == spec_lower_args(*m, st1, aty@, j as int).1,
        decreases nargs - j,
    {
        let p = &aty[j];
        let aname: String = if p.name.as_str().is_empty() {
            proof {
                vstd::std_specs::vec::axiom_spec_len(aty);
            }
            dec_numeral_arg(j)
        } else {
            rust_id(p.name.as_str())
        };
        let aty_l = cty_to_rs(m, ctx, &p.ty);
        let a = RsArg { name: aname, ty: aty_l };
        proof {
            assert(a@ == RsArgV {
                name: spec_arg_name(aty@, j as int),
                ty: spec_cty_to_rs(*m, spec_lower_args(*m, st1, aty@, j as int).0, aty@[j as int].ty).1,
            });
        }
        let ghost args0 = args@;
        args.push(a);
        proof {
            assert(rsargs_view(args@) =~= rsargs_view(args0).push(a@));
            assert(rsargs_view(args0).push(a@) =~= spec_lower_args(*m, st1, aty@, j as int + 1).1);
        }
        j = j + 1;
    }
    let f = RsFn { name: rust_id(name), ret, args, variadic };
    proof {
        assert(f@ =~~= spec_cfunc(*m, st0, name@, *rty, aty@, variadic).1);
    }
    f
}

/// The synthesized name `arg<K>` for the unnamed parameter at position `j`
/// (zero-based).
fn dec_numeral_arg(j: usize) -> (r: String)
    ensures
        r@ == "arg"@ + dec_rep(j as int + 1),
{
    String::from_str("arg").concat(dec_numeral(j as u128 + 1).as_str())
}

/// The error of a lowering run: a variable or function declaration carried
/// an underlying type incompatible with its declared kind, a broken
/// invariant of the upstream model.  No other error kind exists.
#[derive(Debug, Clone, Copy, PartialEq, Eq, Structural)]
pub enum GenError {
    MalformedDecl,
}

/// Declarations lowered in the type block: everything but variables,
/// functions and the irrelevant records.
pub open spec fn is_other_kept(g: Global) -> bool {
    match g {
        Global::TypeDef(_) => true,
        Global::CompDecl(_) => true,
        Global::CompDef(_) => true,
        Global::EnumDecl(_) => true,
        Global::EnumDef(_) => true,
        _ => false,
    }
}

pub open spec fn is_var_decl(g: Global) -> bool {
    g matches Global::Var(_)
}

pub open spec fn is_func_decl(g: Global) -> bool {
    g matches Global::Func(_)
}

/// The positions of the first `j` declarations that belong to the type
/// block, in input order.
pub open spec fn sel_others(gs: Seq<Global>, j: int) -> Seq<int>
    decreases j,
{
    if j <= 0 {
        Seq::<int>::empty()
    } else if is_other_kept(gs[j - 1]) {
        sel_others(gs, j - 1).push(j - 1)
    } else {
        sel_others(gs, j - 1)
    }
}

/// The positions of the first `j` declarations that are variables.
pub open spec fn sel_vars(gs: Seq<Global>, j: int) -> Seq<int>
    decreases j,
{
    if j <= 0 {
        Seq::<int>::empty()
    } else if is_var_decl(gs[j - 1]) {
        sel_vars(gs, j - 1).push(j - 1)
    } else {
        sel_vars(gs, j - 1)
    }
}

/// The positions of the first `j` declarations that are functions.
pub open spec fn sel_funcs(gs: Seq<Global>, j: int) -> Seq<int>
    decreases j,
{
    if j <= 0 {
        Seq::<int>::empty()
    } else if is_func_decl(gs[j - 1]) {
        sel_funcs(gs, j - 1).push(j - 1)
    } else {
        sel_funcs(gs, j - 1)
    }
}

/// Whether declaration `g` is a typedef whose aliased type is aggregate
/// identity `i`.
pub open spec fn is_typedef_of_comp(g: Global, i: int) -> bool {
    match g {
        Global::TypeDef(ti) => match ti.ty {
            CType::Comp(i2) => i2 as int == i,
            _ => false,
        },
        _ => false,
    }
}

/// Whether declaration `g` is a typedef whose aliased type is enum identity
/// `i`.
pub open spec fn is_typedef_of_enum(g: Global, i: int) -> bool {
    match g {
        Global::TypeDef(ti) => match ti.ty {
            CType::EnumRef(i2) => i2 as int == i,
            _ => false,
        },
        _ => false,
    }
}

pub open spec fn typedef_aliases_comp(m: TypeModel, i: int) -> bool {
    exists|k: int|
        0 <= k < m.globals@.len() && #[trigger] is_typedef_of_comp(m.globals@[k], i)
}

pub open spec fn typedef_aliases_enum(m: TypeModel, i: int) -> bool {
    exists|k: int|
        0 <= k < m.globals@.len() && #[trigger] is_typedef_of_enum(m.globals@[k], i)
}

/// A redundant declaration: a full aggregate or enum definition whose
/// identity is still unnamed and is already captured by some typedef, which
/// will collapse into the definition itself.  Named identities referenced by
/// typedefs are kept: the typedef becomes a true alias.
pub open spec fn is_redundant(m: TypeModel, g: Global) -> bool {
    match g {
        Global::CompDef(i) => m.comps@[i as int].name@.len() == 0 && typedef_aliases_comp(
            m,
            i as int,
        ),
        Global::EnumDef(i) => m.enums@[i as int].name@.len() == 0 && typedef_aliases_enum(
            m,
            i as int,
        ),
        _ => false,
    }
}

/// The first `j` selected positions whose declarations are not redundant.
pub open spec fn sel_kept(m: TypeModel, sel: Seq<int>, j: int) -> Seq<int>
    decreases j,
{
    if j <= 0 {
        Seq::<int>::empty()
    } else if !is_redundant(m, m.globals@[sel[j - 1]]) {
        sel_kept(m, sel, j - 1).push(sel[j - 1])
    } else {
        sel_kept(m, sel, j - 1)
    }
}

/// The integer view of a position list.
pub open spec fn idx_view(s: Seq<usize>) -> Seq<int> {
    Seq::new(s.len(), |i: int| s[i] as int)
}

fn typedef_aliases_comp_exec(m: &TypeModel, i: usize) -> (r: bool)
    ensures
        r == typedef_aliases_comp(*m, i as int),
{
    let mut k: usize = 0;
    while k < m.globals.len()
        invariant
            k <= m.globals@.len(),
            forall|k2: int| 0 <= k2 < k ==> !is_typedef_of_comp(#[trigger] m.globals@[k2], i as int),
        decreases m.globals@.len() - k,
    {
        match &m.globals[k] {
            Global::TypeDef(ti) => match &ti.ty {
                CType::Comp(i2) => {
                    if *i2 == i {
                        proof {
                            assert(is_typedef_of_comp(m.globals@[k as int], i as int));
                        }
                        return true;
                    }
                },
                _ => {},
            },
            _ => {},
        }
        k = k + 1;
    }
    false
}

fn typedef_aliases_enum_exec(m: &TypeModel, i: usize) -> (r: bool)
    ensures
        r == typedef_aliases_enum(*m, i as int),
{
    let mut k: usize = 0;
    while k < m.globals.len()
        invariant
            k <= m.globals@.len(),
            forall|k2: int| 0 <= k2 < k ==> !is_typedef_of_enum(#[trigger] m.globals@[k2], i as int),
        decreases m.globals@.len() - k,
    {
        match &m.globals[k] {
            Global::TypeDef(ti) => match &ti.ty {
                CType::EnumRef(i2) => {
                    if *i2 == i {
                        proof {
                            assert(is_typedef_of_enum(m.globals@[k as int], i as int));
                        }
                        return true;
                    }
                },
                _ => {},
            },
            _ => {},
        }
        k = k + 1;
    }
    false
}

/// Remove the aggregate and enum definitions that duplicate an anonymous
/// type already captured by a typedef: a single left-to-right filter over
/// the selected positions.
pub fn remove_redundent_decl(m: &TypeModel, gs: Vec<usize>) -> (out: Vec<usize>)
    requires
        crate::model::model_wf(*m),
        forall|k: int| 0 <= k < gs@.len() ==> #[trigger] gs@[k] < m.globals@.len(),
    ensures
        idx_view(out@) == sel_kept(*m, idx_view(gs@), gs@.len() as int),
        forall|k: int| 0 <= k < out@.len() ==> #[trigger] out@[k] < m.globals@.len(),
{
    let mut out: Vec<usize> = Vec::new();
    let mut t: usize = 0;
    while t < gs.len()
        invariant
            t <= gs@.len(),
            crate::model::model_wf(*m),
            forall|k: int| 0 <= k < gs@.len() ==> #[trigger] gs@[k] < m.globals@.len(),
            forall|k: int| 0 <= k < out@.len() ==> #[trigger] out@[k] < m.globals@.len(),
            idx_view(out@) == sel_kept(*m, idx_view(gs@), t as int),
        decreases gs@.len() - t,
    {
        let idx = gs[t];
        let red: bool = match &m.globals[idx] {
            Global::CompDef(i) => {
                proof {
                    assert(crate::model::global_wf(
                        m.comps@.len() as int,
                        m.enums@.len() as int,
                        m.globals@[idx as int],
                    ));
                }
                m.comps[*i].name.as_str().is_empty() && typedef_aliases_comp_exec(m, *i)
            },
            Global::EnumDef(i) => {
                proof {
                    assert(crate::model::global_wf(
                        m.comps@.len() as int,
                        m.enums@.len() as int,
                        m.globals@[idx as int],
                    ));
                }
                m.enums[*i].name.as_str().is_empty() && typedef_aliases_enum_exec(m, *i)
            },
            _ => false,
        };
        proof {
            assert(red == is_redundant(*m, m.globals@[idx as int]));
            assert(idx_view(gs@)[t as int] == idx as int);
        }
        if !red {
            let ghost out0 = out@;
            out.push(idx);
            proof {
                assert(idx_view(out@) =~= idx_view(out0).push(idx as int));
            }
        }
        proof {
            assert(idx_view(out@) =~= sel_kept(*m, idx_view(gs@), t as int + 1));
        }
        t = t + 1;
    }
    out
}

/// A name, once assigned, is frozen: lowering a type reference never
/// changes an already-assigned (non-empty) aggregate name.
pub proof fn lemma_cty_keeps_comp_name(m: TypeModel, st: LowerSt, t: CType, i: int)
    requires
        st_matches(st, *&m),
        ty_wf_m(m, t),
        0 <= i < st.comp_names.len(),
        st.comp_names[i].len() > 0,
    ensures
        spec_cty_to_rs(m, st, t).0.comp_names.len() == st.comp_names.len(),
        spec_cty_to_rs(m, st, t).0.enum_names.len() == st.enum_names.len(),
        spec_cty_to_rs(m, st, t).0.comp_names[i] == st.comp_names[i],
    decreases t,
{
    match t {
        CType::Ptr(t2) => lemma_cty_keeps_comp_name(m, st, *t2, i),
        CType::Array(t2, _) => lemma_cty_keeps_comp_name(m, st, *t2, i),
        CType::Comp(i2) => {
            if st.comp_names[i2 as int].len() == 0 {
                assert(i2 as int != i);
            }
        },
        _ => {},
    }
}

/// A name, once assigned, is frozen through the lowering of a whole field
/// list.
pub proof fn lemma_lower_fields_keeps_comp_name(
    m: TypeModel,
    st: LowerSt,
    fields: Seq<CField>,
    j: int,
    i: int,
)
    requires
        st_matches(st, *&m),
        forall|k: int| 0 <= k < fields.len() ==> ty_wf_m(m, #[trigger] fields[k].ty),
        j <= fields.len(),
        0 <= i < st.comp_names.len(),
        st.comp_names[i].len() > 0,
    ensures
        spec_lower_fields(m, st, fields, j).0.comp_names.len() == st.comp_names.len(),
        spec_lower_fields(m, st, fields, j).0.enum_names.len() == st.enum_names.len(),
        spec_lower_fields(m, st, fields, j).0.comp_names[i] == st.comp_names[i],
    decreases j,
{
    if j > 0 {
        lemma_lower_fields_keeps_comp_name(m, st, fields, j - 1, i);
        let p = spec_lower_fields(m, st, fields, j - 1);
        lemma_cty_keeps_comp_name(m, p.0, fields[j - 1].ty, i);
    }
}

/// What lowering one surviving type-block declaration yields.
pub open spec fn spec_lower_global(m: TypeModel, st: LowerSt, g: Global) -> (
    LowerSt,
    Seq<RsItemV>,
) {
    match g {
        Global::TypeDef(ti) => spec_ctypedef(m, st, ti.name@, ti.ty),
        Global::CompDecl(i) => {
            let p = spec_ensure_comp_named(st, i as int);
            (
                p.0,
                seq![
                    RsItemV::TyAlias(
                        spec_rust_id(comp_ref_name(m, i as int, p.1)),
                        RsTypeV::Path("c_void"@),
                    ),
                ],
            )
        },
        Global::CompDef(i) => {
            let p = spec_ensure_comp_named(st, i as int);
            spec_comp_def(m, p.0, i as int)
        },
        Global::EnumDecl(i) => {
            let p = spec_ensure_enum_named(st, i as int);
            (
                p.0,
                seq![RsItemV::TyAlias(spec_rust_id("Enum_"@ + p.1), RsTypeV::Path("c_void"@))],
            )
        },
        Global::EnumDef(i) => {
            let p = spec_ensure_enum_named(st, i as int);
            (p.0, spec_cenum_items(m, p.0, i as int))
        },
        _ => (st, Seq::<RsItemV>::empty()),
    }
}

/// What lowering the first `j` selected type-block declarations yields.
pub open spec fn spec_lower_others(m: TypeModel, st: LowerSt, sel: Seq<int>, j: int) -> (
    LowerSt,
    Seq<RsItemV>,
)
    decreases j,
{
    if j <= 0 {
        (st, Seq::<RsItemV>::empty())
    } else {
        let p = spec_lower_others(m, st, sel, j - 1);
        let q = spec_lower_global(m, p.0, m.globals@[sel[j - 1]]);
        (q.0, p.1 + q.1)
    }
}

/// What lowering the first `j` selected variable declarations yields.
pub open spec fn spec_lower_vars(m: TypeModel, st: LowerSt, sel: Seq<int>, j: int) -> (
    LowerSt,
    Seq<RsVarV>,
)
    decreases j,
{
    if j <= 0 {
        (st, Seq::<RsVarV>::empty())
    } else {
        let p = spec_lower_vars(m, st, sel, j - 1);
        match m.globals@[sel[j - 1]] {
            Global::Var(vi) => {
                let q = spec_cvar(m, p.0, vi.name@, vi.ty);
                (q.0, p.1.push(q.1))
            },
            _ => p,
        }
    }
}

/// What lowering the first `j` selected function declarations yields.
pub open spec fn spec_lower_funcs(m: TypeModel, st: LowerSt, sel: Seq<int>, j: int) -> (
    LowerSt,
    Seq<RsFnV>,
)
    decreases j,
{
    if j <= 0 {
        (st, Seq::<RsFnV>::empty())
    } else {
        let p = spec_lower_funcs(m, st, sel, j - 1);
        match m.globals@[sel[j - 1]] {
            Global::Func(vi) => match vi.ty {
                CType::Func(r, ps, variadic) => {
                    let q = spec_cfunc(m, p.0, vi.name@, *r, ps@, variadic);
                    (q.0, p.1.push(q.1))
                },
                _ => p,
            },
            _ => p,
        }
    }
}

/// A function declaration carries a function type; anything else on a
/// function record is an upstream invariant violation.
pub open spec fn func_ty_ok(g: Global) -> bool {
    match g {
        Global::Func(vi) => match vi.ty {
            CType::Func(_, _, _) => true,
            _ => false,
        },
        _ => true,
    }
}

/// No function declaration of the model carries a malformed type.
pub open spec fn funcs_ok(m: TypeModel) -> bool {
    forall|k: int| 0 <= k < m.globals@.len() ==> func_ty_ok(#[trigger] m.globals@[k])
}

/// What a whole lowering run yields: the final naming state and the output
/// declaration list, the single linkage block standing last.
pub open spec fn spec_gen(m: TypeModel, link: Seq<char>) -> (LowerSt, Seq<RsItemV>) {
    let n = m.globals@.len() as int;
    let st0 = crate::model::init_st(m);
    let others0 = sel_others(m.globals@, n);
    let kept = sel_kept(m, others0, others0.len() as int);
    let p = spec_lower_others(m, st0, kept, kept.len() as int);
    let vsel = sel_vars(m.globals@, n);
    let q = spec_lower_vars(m, p.0, vsel, vsel.len() as int);
    let fsel = sel_funcs(m.globals@, n);
    let r = spec_lower_funcs(m, q.0, fsel, fsel.len() as int);
    (r.0, p.1 + seq![RsItemV::LinkBlock(RsLinkBlockV { link, vars: q.1, funcs: r.1 })])
}

/// Build the foreign-linkage block tagged with the native library name.
pub fn mk_extern(link: &str, vars: Vec<RsVar>, funcs: Vec<RsFn>) -> (it: RsItem)
    ensures
        it@ == RsItemV::LinkBlock(
            RsLinkBlockV { link: link@, vars: rsvars_view(vars@), funcs: rsfns_view(funcs@) },
        ),
{
    let it = RsItem::LinkBlock(RsLinkBlock { link: link.to_owned(), vars, funcs });
    proof {
        assert(it@ =~~= RsItemV::LinkBlock(
            RsLinkBlockV {
                link: link@,
                vars: rsvars_view(it.arrow_LinkBlock_0().vars@),
                funcs: rsfns_view(it.arrow_LinkBlock_0().funcs@),
            },
        ));
    }
    it
}

/// Lower a whole type model to the output declaration list for native
/// library `link`.
///
/// The run fails, with nothing emitted, exactly when some function
/// declaration carries a non-function underlying type: a broken invariant of
/// the upstream model.  Otherwise the output holds, in order: the lowered
/// type-block declarations (redundant definitions removed, anonymous
/// identities named in encounter order), then the single linkage block with
/// every variable and function declaration.
pub fn gen_rs(link: &str, m: &TypeModel) -> (r: Result<Vec<RsItem>, GenError>)
    requires
        crate::model::model_wf(*m),
    ensures
        r is Ok <==> funcs_ok(*m),
        r matches Ok(out) ==> items_view(out@) == spec_gen(*m, link@).1,
{
    let ghost nc = m.comps@.len() as int;
    let ghost ne = m.enums@.len() as int;
    let n = m.globals.len();

    let mut k: usize = 0;
    while k < n
        invariant
            n == m.globals@.len(),
            k <= n,
            forall|k2: int| 0 <= k2 < k ==> func_ty_ok(#[trigger] m.globals@[k2]),
        decreases n - k,
    {
        match &m.globals[k] {
            Global::Func(vi) => match &vi.ty {
                CType::Func(_, _, _) => {},
                _ => {
                    proof {
                        assert(!func_ty_ok(m.globals@[k as int]));
                    }
                    return Err(GenError::MalformedDecl);
                },
            },
            _ => {},
        }
        k = k + 1;
    }
    proof {
        assert(funcs_ok(*m));
    }

    let mut fs: Vec<usize> = Vec::new();
    let mut vs: Vec<usize> = Vec::new();
    let mut gs: Vec<usize> = Vec::new();
    let mut k2: usize = 0;
    while k2 < n
        invariant
            n == m.globals@.len(),
            k2 <= n,
            idx_view(fs@) == sel_funcs(m.globals@, k2 as int),
            idx_view(vs@) == sel_vars(m.globals@, k2 as int),
            idx_view(gs@) == sel_others(m.globals@, k2 as int),
            forall|t: int| 0 <= t < fs@.len() ==> #[trigger] fs@[t] < m.globals@.len(),
            forall|t: int| 0 <= t < vs@.len() ==> #[trigger] vs@[t] < m.globals@.len(),
            forall|t: int| 0 <= t < gs@.len() ==> #[trigger] gs@[t] < m.globals@.len(),
        decreases n - k2,
    {
        let ghost fs0 = fs@;
        let ghost vs0 = vs@;
        let ghost gs0 = gs@;
        match &m.globals[k2] {
            Global::Other => {},
            Global::Func(_) => fs.push(k2),
            Global::Var(_) => vs.push(k2),
            _ => gs.push(k2),
        }
        proof {
            if fs@ != fs0 {
                assert(idx_view(fs@) =~= idx_view(fs0).push(k2 as int));
            }
            if vs@ != vs0 {
                assert(idx_view(vs@) =~= idx_view(vs0).push(k2 as int));
            }
            if gs@ != gs0 {
                assert(idx_view(gs@) =~= idx_view(gs0).push(k2 as int));
            }
        }
        k2 = k2 + 1;
    }

    let ghost others0 = idx_view(gs@);
    let gs = remove_redundent_decl(m, gs);
    let ghost kept = sel_kept(*m, others0, others0.len() as int);

    let mut ctx = LowerCtx::for_model(m);
    let ghost st0 = ctx@;
    let mut defs: Vec<RsItem> = Vec::new();
    let mut t: usize = 0;
    while t < gs.len()
        invariant
            crate::model::model_wf(*m),
            n == m.globals@.len(),
            t <= gs@.len(),
            idx_view(gs@) == kept,
            forall|t2: int| 0 <= t2 < gs@.len() ==> #[trigger] gs@[t2] < m.globals@.len(),
            st_ok(ctx@),
            st_matches(ctx@, *m),
            ctx@ == spec_lower_others(*m, st0, kept, t as int).0,
            items_view(defs@) == spec_lower_others(*m, st0, kept, t as int).1,
        decreases gs@.len() - t,
    {
        let idx = gs[t];
        let ghost g = m.globals@[idx as int];
        proof {
            assert(crate::model::model_wf(*m));
            assert((idx as int) < m.globals@.len());
            assert(crate::model::global_wf(
                m.comps@.len() as int,
                m.enums@.len() as int,
                m.globals@[idx as int],
            ));
            assert(kept[t as int] == idx as int);
        }
        let ghost defs0 = defs@;
        let ghost stpre = ctx@;
        match &m.globals[idx] {
            Global::TypeDef(ti) => {
                let mut its = ctypedef_to_rs(m, &mut ctx, ti.name.as_str(), &ti.ty);
                proof {
                    assert(items_view(defs0 + its@) =~= items_view(defs0) + items_view(its@));
                }
                defs.append(&mut its);
            },
            Global::CompDecl(i) => {
                let nm = ctx.ensure_comp_named(*i);
                let s = if m.comps[*i].cstruct {
                    String::from_str("Struct_").concat(nm.as_str())
                } else {
                    String::from_str("Union_").concat(nm.as_str())
                };
                let it = RsItem::TyAlias(rust_id(s.as_str()), mk_ty(String::from_str("c_void")));
                proof {
                    assert(it@ == spec_lower_global(*m, stpre, g).1[0]);
                }
                defs.push(it);
                proof {
                    assert(items_view(defs@) =~= items_view(defs0) + spec_lower_global(
                        *m,
                        stpre,
                        g,
                    ).1);
                }
            },
            Global::CompDef(i) => {
                let _nm = ctx.ensure_comp_named(*i);
                let mut its = ccomp_to_rs(m, &mut ctx, *i);
                proof {
                    assert(items_view(defs0 + its@) =~= items_view(defs0) + items_view(its@));
                }
                defs.append(&mut its);
            },
            Global::EnumDecl(i) => {
                let nm = ctx.ensure_enum_named(*i);
                let it = RsItem::TyAlias(
                    rust_id(String::from_str("Enum_").concat(nm.as_str()).as_str()),
                    mk_ty(String::from_str("c_void")),
                );
                proof {
                    assert(it@ == spec_lower_global(*m, stpre, g).1[0]);
                }
                defs.push(it);
                proof {
                    assert(items_view(defs@) =~= items_view(defs0) + spec_lower_global(
                        *m,
                        stpre,
                        g,
                    ).1);
                }
            },
            Global::EnumDef(i) => {
                let _nm = ctx.ensure_enum_named(*i);
                let mut its = cenum_to_rs(m, &mut ctx, *i);
                proof {
                    assert(items_view(defs0 + its@) =~= items_view(defs0) + items_view(its@));
                }
                defs.append(&mut its);
            },
            _ => {},
        }
        proof {
            assert(ctx@ == spec_lower_others(*m, st0, kept, t as int + 1).0);
            assert(items_view(defs@) =~= spec_lower_others(*m, st0, kept, t as int + 1).1);
        }
        t = t + 1;
    }
    let ghost stv0 = ctx@;
    let ghost vsel = sel_vars(m.globals@, n as int);

    let mut vars: Vec<RsVar> = Vec::new();
    let mut t2: usize = 0;
    while t2 < vs.len()
        invariant
            crate::model::model_wf(*m),
            n == m.globals@.len(),
            t2 <= vs@.len(),
            idx_view(vs@) == vsel,
            forall|t3: int| 0 <= t3 < vs@.len() ==> #[trigger] vs@[t3] < m.globals@.len(),
            st_ok(ctx@),
            st_matches(ctx@, *m),
            ctx@ == spec_lower_vars(*m, stv0, vsel, t2 as int).0,
            rsvars_view(vars@) == spec_lower_vars(*m, stv0, vsel, t2 as int).1,
        decreases vs@.len() - t2,
    {
        let idx = vs[t2];
        proof {
            assert((idx as int) < m.globals@.len());
            assert(crate::model::global_wf(
                m.comps@.len() as int,
                m.enums@.len() as int,
                m.globals@[idx as int],
            ));
            assert(vsel[t2 as int] == idx as int);
        }
        let ghost vars0 = vars@;
        match &m.globals[idx] {
            Global::Var(vi) => {
                let v = cvar_to_rs(m, &mut ctx, vi.name.as_str(), &vi.ty);
                vars.push(v);
                proof {
                    assert(rsvars_view(vars@) =~= rsvars_view(vars0).push(v@));
                }
            },
            _ => {},
        }
        proof {
            assert(rsvars_view(vars@) =~= spec_lower_vars(*m, stv0, vsel, t2 as int + 1).1);
        }
        t2 = t2 + 1;
    }
    let ghost stf0 = ctx@;
    let ghost fsel = sel_funcs(m.globals@, n as int);

    let mut funcs: Vec<RsFn> = Vec::new();
    let mut t4: usize = 0;
    while t4 < fs.len()
        invariant
            crate::model::model_wf(*m),
            funcs_ok(*m),
            n == m.globals@.len(),
            t4 <= fs@.len(),
            idx_view(fs@) == fsel,
            forall|t5: int| 0 <= t5 < fs@.len() ==> #[trigger] fs@[t5] < m.globals@.len(),
            st_ok(ctx@),
            st_matches(ctx@, *m),
            ctx@ == spec_lower_funcs(*m, stf0, fsel, t4 as int).0,
            rsfns_view(funcs@) == spec_lower_funcs(*m, stf0, fsel, t4 as int).1,
        decreases fs@.len() - t4,
    {
        let idx = fs[t4];
        proof {
            assert((idx as int) < m.globals@.len());
            assert(crate::model::global_wf(
                m.comps@.len() as int,
                m.enums@.len() as int,
                m.globals@[idx as int],
            ));
            assert(func_ty_ok(m.globals@[idx as int]));
            assert(fsel[t4 as int] == idx as int);
        }
        let ghost funcs0 = funcs@;
        match &m.globals[idx] {
            Global::Func(vi) => match &vi.ty {
                CType::Func(rty, ps, variadic) => {
                    let f = cfunc_to_rs(m, &mut ctx, vi.name.as_str(), &**rty, ps, *variadic);
                    funcs.push(f);
                    proof {
                        assert(rsfns_view(funcs@) =~= rsfns_view(funcs0).push(f@));
                    }
                },
                _ => {
                    proof {
                        assert(false);
                    }
                },
            },
            _ => {},
        }
        proof {
            assert(rsfns_view(funcs@) =~= spec_lower_funcs(*m, stf0, fsel, t4 as int + 1).1);
        }
        t4 = t4 + 1;
    }

    let ghost defs0 = defs@;
    let block = mk_extern(link, vars, funcs);
    defs.push(block);
    proof {
        assert(items_view(defs@) =~= items_view(defs0).push(block@));
        assert(items_view(defs@) =~~= spec_gen(*m, link@).1);
    }
    Ok(defs)
}

} // verus!
