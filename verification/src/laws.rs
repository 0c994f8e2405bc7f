//! The guarantees the lowering engine gives as a whole, stated and proved
//! over the specification functions that the executable code is proved to
//! compute: redundancy elimination, identity preservation, naming
//! determinism, enum expansion, escaping, and linkage grouping.

use vstd::prelude::*;

use crate::ident::{
    dec_rep, lemma_concat_injective, lemma_dec_rep_injective, spec_escaped, spec_is_reserved,
    spec_rust_id,
};
use crate::model::{
    alloc_name, spec_ensure_comp_named, CType, LowerSt, TypeModel,
};
use crate::lower::{
    is_redundant, sel_kept, spec_cenum_const, spec_cenum_consts, spec_cenum_items, spec_ctypedef,
    spec_gen, spec_lower_global, spec_lower_others,
};
use crate::output::RsItemV;

verus! {

/// Escaping: an identifier equal to a reserved word is emitted with the
/// escape prefix.
pub proof fn lemma_escape_reserved(n: Seq<char>)
    requires
        spec_is_reserved(n),
    ensures
        spec_rust_id(n) == spec_escaped(n),
{
}

/// Escaping: a non-reserved identifier is emitted unchanged.
pub proof fn lemma_escape_unreserved(n: Seq<char>)
    requires
        !spec_is_reserved(n),
    ensures
        spec_rust_id(n) == n,
{
}

/// The escaped form of any identifier is itself never reserved: every
/// reserved word starts with a letter, never with the escape character.
pub proof fn lemma_escaped_not_reserved(n: Seq<char>)
    ensures
        !spec_is_reserved(spec_escaped(n)),
{
    reveal_strlit("as");
    reveal_strlit("break");
    reveal_strlit("const");
    reveal_strlit("continue");
    reveal_strlit("crate");
    reveal_strlit("else");
    reveal_strlit("enum");
    reveal_strlit("false");
    reveal_strlit("fn");
    reveal_strlit("for");
    reveal_strlit("if");
    reveal_strlit("impl");
    reveal_strlit("in");
    reveal_strlit("let");
    reveal_strlit("loop");
    reveal_strlit("match");
    reveal_strlit("mod");
    reveal_strlit("move");
    reveal_strlit("mut");
    reveal_strlit("pub");
    reveal_strlit("ref");
    reveal_strlit("return");
    reveal_strlit("self");
    reveal_strlit("struct");
    reveal_strlit("super");
    reveal_strlit("trait");
    reveal_strlit("true");
    reveal_strlit("type");
    reveal_strlit("use");
    reveal_strlit("where");
    reveal_strlit("while");
    assert(spec_escaped(n)[0] == '_');
}

/// Escaping is idempotent: escaping an already-escaped name does not
/// reapply the prefix, since the prefixed form is not itself reserved.
pub proof fn lemma_escape_idempotent(n: Seq<char>)
    ensures
        spec_rust_id(spec_rust_id(n)) == spec_rust_id(n),
{
    if spec_is_reserved(n) {
        lemma_escaped_not_reserved(n);
    }
}

/// Synthetic names allocated at distinct counter values are distinct.
pub proof fn lemma_alloc_name_injective(c1: int, c2: int)
    requires
        0 <= c1,
        0 <= c2,
        c1 != c2,
    ensures
        alloc_name(c1) != alloc_name(c2),
{
    lemma_dec_rep_injective(c1 + 1, c2 + 1);
    lemma_concat_injective("Unnamed"@, dec_rep(c1 + 1), dec_rep(c2 + 1));
}

/// Identity preservation: two distinct anonymous aggregate identities each
/// receive distinct synthetic names, written back so every later reference
/// observes them; they are never merged, however alike their fields.
pub proof fn lemma_identity_preservation(st: LowerSt, i: int, j: int)
    requires
        crate::model::st_ok(st),
        0 <= i < st.comp_names.len(),
        0 <= j < st.comp_names.len(),
        i != j,
        st.comp_names[i].len() == 0,
        st.comp_names[j].len() == 0,
    ensures
        ({
            let p1 = spec_ensure_comp_named(st, i);
            let p2 = spec_ensure_comp_named(p1.0, j);
            &&& p1.1 != p2.1
            &&& p2.0.comp_names[i] == p1.1
            &&& p2.0.comp_names[j] == p2.1
        }),
{
    let p1 = spec_ensure_comp_named(st, i);
    assert(p1.0.comp_names[j] == st.comp_names[j]);
    lemma_alloc_name_injective(st.counter, st.counter + 1);
}

/// Naming determinism: the output declaration list is a function of the
/// model and the library name alone, so lowering an unchanged model twice
/// yields identical names and identical declarations.
pub proof fn lemma_lowering_deterministic(
    m: TypeModel,
    link: Seq<char>,
    out1: Seq<RsItemV>,
    out2: Seq<RsItemV>,
)
    requires
        out1 == spec_gen(m, link).1,
        out2 == spec_gen(m, link).1,
    ensures
        out1 == out2,
{
}

/// Synthetic names are assigned in strict encounter order: an allocation at
/// counter value `c` yields `Unnamed<c+1>` and leaves the counter at `c+1`,
/// so the names run `Unnamed1, Unnamed2, …` through the single lowering
/// pass.
pub proof fn lemma_naming_in_encounter_order(st: LowerSt, i: int)
    requires
        0 <= i < st.comp_names.len(),
        st.comp_names[i].len() == 0,
    ensures
        spec_ensure_comp_named(st, i).1 == "Unnamed"@ + dec_rep(st.counter + 1),
        spec_ensure_comp_named(st, i).0.counter == st.counter + 1,
{
}

/// The constants prefix of an enum lowering: one constant per enumerator,
/// in enumerator order, each with the verbatim stored value.
proof fn lemma_cenum_consts_shape(m: TypeModel, st: LowerSt, i: int, j: int)
    requires
        j >= 0,
    ensures
        spec_cenum_consts(m, st, i, j).len() == j,
        forall|k: int|
            0 <= k < j ==> spec_cenum_consts(m, st, i, j)[k] == spec_cenum_const(m, st, i, k),
    decreases j,
{
    if j > 0 {
        lemma_cenum_consts_shape(m, st, i, j - 1);
    }
}

/// Enum expansion: an enum definition with N enumerators yields exactly N+1
/// output declarations — one type alias and N constants — with the values
/// copied verbatim and in enumerator order.
pub proof fn lemma_enum_expansion(m: TypeModel, st: LowerSt, i: int)
    requires
        0 <= i < m.enums@.len(),
    ensures
        spec_cenum_items(m, st, i).len() == m.enums@[i].items@.len() + 1,
        spec_cenum_items(m, st, i)[0] is TyAlias,
        forall|k: int|
            0 <= k < m.enums@[i].items@.len() ==> spec_cenum_items(m, st, i)[k + 1]
                == RsItemV::IntConst(
                spec_rust_id(m.enums@[i].items@[k].name@),
                crate::output::RsTypeV::Path(spec_rust_id("Enum_"@ + st.enum_names[i])),
                m.enums@[i].items@[k].val,
            ),
{
    let n = m.enums@[i].items@.len() as int;
    lemma_cenum_consts_shape(m, st, i, n);
    assert forall|k: int| 0 <= k < m.enums@[i].items@.len() implies spec_cenum_items(m, st, i)[k
        + 1] == RsItemV::IntConst(
        spec_rust_id(m.enums@[i].items@[k].name@),
        crate::output::RsTypeV::Path(spec_rust_id("Enum_"@ + st.enum_names[i])),
        m.enums@[i].items@[k].val,
    ) by {
        assert(spec_cenum_items(m, st, i)[k + 1] == spec_cenum_consts(m, st, i, n)[k]);
        assert(spec_cenum_consts(m, st, i, n)[k] == spec_cenum_const(m, st, i, k));
    }
}

/// Redundancy elimination removes exactly the redundant declarations: no
/// surviving position holds a redundant definition, and every non-redundant
/// position survives, in order.
pub proof fn lemma_redundancy_filter(m: TypeModel, sel: Seq<int>, j: int)
    requires
        j >= 0,
    ensures
        forall|k: int|
            0 <= k < sel_kept(m, sel, j).len() ==> !is_redundant(
                m,
                m.globals@[#[trigger] sel_kept(m, sel, j)[k]],
            ),
        forall|t: int|
            0 <= t < j && !is_redundant(m, m.globals@[#[trigger] sel[t]]) ==> sel_kept(
                m,
                sel,
                j,
            ).contains(sel[t]),
    decreases j,
{
    if j > 0 {
        lemma_redundancy_filter(m, sel, j - 1);
        let prev = sel_kept(m, sel, j - 1);
        let cur = sel_kept(m, sel, j);
        assert forall|t: int|
            0 <= t < j && !is_redundant(m, m.globals@[#[trigger] sel[t]]) implies cur.contains(
            sel[t],
        ) by {
            if t < j - 1 {
                let w = choose|w: int| 0 <= w < prev.len() && prev[w] == sel[t];
                if !is_redundant(m, m.globals@[sel[j - 1]]) {
                    assert(cur[w] == sel[t]);
                } else {
                    assert(cur[w] == sel[t]);
                }
            } else {
                assert(cur[cur.len() - 1] == sel[t]);
            }
        }
    }
}

/// Redundancy collapse: a typedef of a still-unnamed aggregate assigns the
/// typedef's name to the identity and emits exactly one definition, the
/// record named after the typedef; no separate alias remains.
pub proof fn lemma_typedef_collapse(m: TypeModel, st: LowerSt, name: Seq<char>, i: usize)
    requires
        crate::model::model_wf(m),
        crate::model::st_matches(st, m),
        st.comp_names[i as int].len() == 0,
        (i as int) < m.comps@.len(),
        m.comps@[i as int].cstruct,
        name.len() > 0,
    ensures
        ({
            let p = spec_ctypedef(m, st, name, CType::Comp(i));
            &&& p.1.len() == 1
            &&& p.1[0] is Record
            &&& p.1[0]->Record_0 == spec_rust_id("Struct_"@ + name)
            &&& p.0.comp_names[i as int] == name
        }),
{
    let st1 = LowerSt { comp_names: st.comp_names.update(i as int, name), ..st };
    assert(st1.comp_names[i as int] == name);
    crate::lower::lemma_lower_fields_keeps_comp_name(
        m,
        st1,
        m.comps@[i as int].fields@,
        m.comps@[i as int].fields@.len() as int,
        i as int,
    );
}

/// Lowering a type reference reads only the identity arenas, never the
/// declaration list: two models with the same arenas lower types alike.
proof fn lemma_cty_arenas_only(ma: TypeModel, mb: TypeModel, st: LowerSt, t: CType)
    requires
        ma.comps@ == mb.comps@,
        ma.enums@ == mb.enums@,
    ensures
        crate::lower::spec_cty_to_rs(ma, st, t) == crate::lower::spec_cty_to_rs(mb, st, t),
    decreases t,
{
    match t {
        CType::Ptr(t2) => lemma_cty_arenas_only(ma, mb, st, *t2),
        CType::Array(t2, _) => lemma_cty_arenas_only(ma, mb, st, *t2),
        _ => {},
    }
}

proof fn lemma_fields_arenas_only(
    ma: TypeModel,
    mb: TypeModel,
    st: LowerSt,
    fields: Seq<crate::model::CField>,
    j: int,
)
    requires
        ma.comps@ == mb.comps@,
        ma.enums@ == mb.enums@,
    ensures
        crate::lower::spec_lower_fields(ma, st, fields, j) == crate::lower::spec_lower_fields(
            mb,
            st,
            fields,
            j,
        ),
    decreases j,
{
    if j > 0 {
        lemma_fields_arenas_only(ma, mb, st, fields, j - 1);
        let p = crate::lower::spec_lower_fields(ma, st, fields, j - 1);
        lemma_cty_arenas_only(ma, mb, p.0, fields[j - 1].ty);
    }
}

proof fn lemma_cenum_consts_arenas_only(ma: TypeModel, mb: TypeModel, st: LowerSt, i: int, j: int)
    requires
        ma.comps@ == mb.comps@,
        ma.enums@ == mb.enums@,
    ensures
        spec_cenum_consts(ma, st, i, j) == spec_cenum_consts(mb, st, i, j),
    decreases j,
{
    if j > 0 {
        lemma_cenum_consts_arenas_only(ma, mb, st, i, j - 1);
    }
}

proof fn lemma_cenum_arenas_only(ma: TypeModel, mb: TypeModel, st: LowerSt, i: int)
    requires
        ma.comps@ == mb.comps@,
        ma.enums@ == mb.enums@,
    ensures
        spec_cenum_items(ma, st, i) == spec_cenum_items(mb, st, i),
{
    lemma_cenum_consts_arenas_only(ma, mb, st, i, m_items_len(ma, i));
}

/// The enumerator count of enum `i`.
spec fn m_items_len(m: TypeModel, i: int) -> int {
    m.enums@[i].items@.len() as int
}

proof fn lemma_comp_def_arenas_only(ma: TypeModel, mb: TypeModel, st: LowerSt, i: int)
    requires
        ma.comps@ == mb.comps@,
        ma.enums@ == mb.enums@,
    ensures
        crate::lower::spec_comp_def(ma, st, i) == crate::lower::spec_comp_def(mb, st, i),
{
    lemma_fields_arenas_only(
        ma,
        mb,
        st,
        ma.comps@[i].fields@,
        ma.comps@[i].fields@.len() as int,
    );
}

proof fn lemma_ctypedef_arenas_only(
    ma: TypeModel,
    mb: TypeModel,
    st: LowerSt,
    name: Seq<char>,
    ty: CType,
)
    requires
        ma.comps@ == mb.comps@,
        ma.enums@ == mb.enums@,
    ensures
        spec_ctypedef(ma, st, name, ty) == spec_ctypedef(mb, st, name, ty),
{
    match ty {
        CType::Comp(i) => {
            if st.comp_names[i as int].len() == 0 {
                let st1 = LowerSt {
                    comp_names: st.comp_names.update(i as int, name),
                    ..st
                };
                lemma_comp_def_arenas_only(ma, mb, st1, i as int);
            } else {
                lemma_cty_arenas_only(ma, mb, st, ty);
            }
        },
        CType::EnumRef(i) => {
            if st.enum_names[i as int].len() == 0 {
                let st1 = LowerSt {
                    enum_names: st.enum_names.update(i as int, name),
                    ..st
                };
                lemma_cenum_arenas_only(ma, mb, st1, i as int);
            } else {
                lemma_cty_arenas_only(ma, mb, st, ty);
            }
        },
        _ => lemma_cty_arenas_only(ma, mb, st, ty),
    }
}

/// Redundancy, order independence: a typedef and the full definition of the
/// same anonymous aggregate yield one collapsed definition, and reversing
/// their discovery order yields exactly the same output.
pub proof fn lemma_redundancy_order_independent(
    ma: TypeModel,
    mb: TypeModel,
    link: Seq<char>,
    ti: crate::model::TypeInfo,
    i: usize,
)
    requires
        ma.comps@ == mb.comps@,
        ma.enums@ == mb.enums@,
        ti.ty == CType::Comp(i),
        (i as int) < ma.comps@.len(),
        ma.comps@[i as int].name@.len() == 0,
        ma.globals@ == seq![
            crate::model::Global::TypeDef(ti),
            crate::model::Global::CompDef(i),
        ],
        mb.globals@ == seq![
            crate::model::Global::CompDef(i),
            crate::model::Global::TypeDef(ti),
        ],
    ensures
        spec_gen(ma, link).1 == spec_gen(mb, link).1,
{
    let st0a = crate::model::init_st(ma);
    let st0b = crate::model::init_st(mb);
    assert(st0a =~= st0b);

    let ga = ma.globals@;
    let gb = mb.globals@;
    assert(crate::lower::sel_others(ga, 0) =~= Seq::<int>::empty());
    assert(crate::lower::sel_others(ga, 1) =~= seq![0int]);
    assert(crate::lower::sel_others(ga, 2) =~= seq![0int, 1int]);
    assert(crate::lower::sel_others(gb, 0) =~= Seq::<int>::empty());
    assert(crate::lower::sel_others(gb, 1) =~= seq![0int]);
    assert(crate::lower::sel_others(gb, 2) =~= seq![0int, 1int]);
    assert(crate::lower::sel_vars(ga, 0) =~= Seq::<int>::empty());
    assert(crate::lower::sel_vars(ga, 1) =~= Seq::<int>::empty());
    assert(crate::lower::sel_vars(ga, 2) =~= Seq::<int>::empty());
    assert(crate::lower::sel_vars(gb, 0) =~= Seq::<int>::empty());
    assert(crate::lower::sel_vars(gb, 1) =~= Seq::<int>::empty());
    assert(crate::lower::sel_vars(gb, 2) =~= Seq::<int>::empty());
    assert(crate::lower::sel_funcs(ga, 0) =~= Seq::<int>::empty());
    assert(crate::lower::sel_funcs(ga, 1) =~= Seq::<int>::empty());
    assert(crate::lower::sel_funcs(ga, 2) =~= Seq::<int>::empty());
    assert(crate::lower::sel_funcs(gb, 0) =~= Seq::<int>::empty());
    assert(crate::lower::sel_funcs(gb, 1) =~= Seq::<int>::empty());
    assert(crate::lower::sel_funcs(gb, 2) =~= Seq::<int>::empty());

    assert(crate::lower::is_typedef_of_comp(ga[0], i as int));
    assert(typedef_aliases(ma, i));
    assert(crate::lower::is_typedef_of_comp(gb[1], i as int));
    assert(typedef_aliases(mb, i));
    assert(is_redundant(ma, ga[1]));
    assert(is_redundant(mb, gb[0]));
    assert(!is_redundant(ma, ga[0]));
    assert(!is_redundant(mb, gb[1]));

    let sa = crate::lower::sel_others(ga, 2);
    let sb = crate::lower::sel_others(gb, 2);
    assert(sel_kept(ma, sa, 0) =~= Seq::<int>::empty());
    assert(sel_kept(ma, sa, 1) =~= seq![0int]);
    assert(sel_kept(ma, sa, 2) =~= seq![0int]);
    assert(sel_kept(mb, sb, 0) =~= Seq::<int>::empty());
    assert(sel_kept(mb, sb, 1) =~= Seq::<int>::empty());
    assert(sel_kept(mb, sb, 2) =~= seq![1int]);

    let ka = sel_kept(ma, sa, 2);
    let kb = sel_kept(mb, sb, 2);
    lemma_ctypedef_arenas_only(ma, mb, st0a, ti.name@, ti.ty);
    assert(spec_lower_global(ma, st0a, ga[0]) == spec_lower_global(mb, st0b, gb[1]));
    assert(spec_lower_others(ma, st0a, ka, 0).1 =~= Seq::<RsItemV>::empty());
    assert(spec_lower_others(mb, st0b, kb, 0).1 =~= Seq::<RsItemV>::empty());
    assert(spec_lower_others(ma, st0a, ka, 1).1 =~= spec_lower_global(ma, st0a, ga[0]).1);
    assert(spec_lower_others(mb, st0b, kb, 1).1 =~= spec_lower_global(mb, st0b, gb[1]).1);
    assert(crate::lower::spec_lower_vars(ma, spec_lower_others(ma, st0a, ka, 1).0, crate::lower::sel_vars(ga, 2), 0).1 =~= Seq::<crate::output::RsVarV>::empty());
    assert(crate::lower::spec_lower_vars(mb, spec_lower_others(mb, st0b, kb, 1).0, crate::lower::sel_vars(gb, 2), 0).1 =~= Seq::<crate::output::RsVarV>::empty());
    assert(spec_gen(ma, link).1 =~= spec_gen(mb, link).1);
}

/// Shorthand used by the order-independence proof.
spec fn typedef_aliases(m: TypeModel, i: usize) -> bool {
    crate::lower::typedef_aliases_comp(m, i as int)
}

/// No type-block declaration lowers to a linkage block.
proof fn lemma_lower_global_no_block(m: TypeModel, st: LowerSt, g: crate::model::Global)
    ensures
        forall|k: int|
            0 <= k < spec_lower_global(m, st, g).1.len() ==> !(#[trigger] spec_lower_global(
                m,
                st,
                g,
            ).1[k] is LinkBlock),
{
    match g {
        crate::model::Global::TypeDef(ti) => {
            lemma_ctypedef_no_block(m, st, ti.name@, ti.ty);
        },
        crate::model::Global::CompDef(i) => {
            let p = spec_ensure_comp_named(st, i as int);
            lemma_comp_def_no_block(m, p.0, i as int);
        },
        crate::model::Global::EnumDef(i) => {
            let p = crate::model::spec_ensure_enum_named(st, i as int);
            lemma_cenum_no_block(m, p.0, i as int);
        },
        _ => {},
    }
}

proof fn lemma_cenum_no_block(m: TypeModel, st: LowerSt, i: int)
    ensures
        forall|k: int|
            0 <= k < spec_cenum_items(m, st, i).len() ==> !(#[trigger] spec_cenum_items(
                m,
                st,
                i,
            )[k] is LinkBlock),
{
    let n = m.enums@[i].items@.len() as int;
    lemma_cenum_consts_shape(m, st, i, n);
    let items = spec_cenum_items(m, st, i);
    assert forall|k: int| 0 <= k < items.len() implies !(items[k] is LinkBlock) by {
        if k == 0 {
            assert(items[0] is TyAlias);
        } else {
            assert(items[k] == spec_cenum_consts(m, st, i, n)[k - 1]);
            assert(spec_cenum_consts(m, st, i, n)[k - 1] == spec_cenum_const(m, st, i, k - 1));
            assert(spec_cenum_const(m, st, i, k - 1) is IntConst);
        }
    }
}

proof fn lemma_comp_def_no_block(m: TypeModel, st: LowerSt, i: int)
    ensures
        forall|k: int|
            0 <= k < crate::lower::spec_comp_def(m, st, i).1.len() ==> !(
            #[trigger] crate::lower::spec_comp_def(m, st, i).1[k] is LinkBlock),
{
}

proof fn lemma_ctypedef_no_block(m: TypeModel, st: LowerSt, name: Seq<char>, ty: CType)
    ensures
        forall|k: int|
            0 <= k < spec_ctypedef(m, st, name, ty).1.len() ==> !(#[trigger] spec_ctypedef(
                m,
                st,
                name,
                ty,
            ).1[k] is LinkBlock),
{
    match ty {
        CType::Comp(i) => {
            if st.comp_names[i as int].len() == 0 {
                let st1 = LowerSt { comp_names: st.comp_names.update(i as int, name), ..st };
                lemma_comp_def_no_block(m, st1, i as int);
            }
        },
        CType::EnumRef(i) => {
            if st.enum_names[i as int].len() == 0 {
                let st1 = LowerSt { enum_names: st.enum_names.update(i as int, name), ..st };
                lemma_cenum_no_block(m, st1, i as int);
            }
        },
        _ => {},
    }
}

proof fn lemma_lower_others_no_block(m: TypeModel, st: LowerSt, sel: Seq<int>, j: int)
    ensures
        forall|k: int|
            0 <= k < spec_lower_others(m, st, sel, j).1.len() ==> !(
            #[trigger] spec_lower_others(m, st, sel, j).1[k] is LinkBlock),
    decreases j,
{
    if j > 0 {
        let p = spec_lower_others(m, st, sel, j - 1);
        lemma_lower_others_no_block(m, st, sel, j - 1);
        lemma_lower_global_no_block(m, p.0, m.globals@[sel[j - 1]]);
    }
}

/// Linkage grouping: all variable and function declarations land in one
/// foreign-linkage block, the last output declaration; every declaration
/// before it belongs to the type block, whatever the interleaving of the
/// input.
pub proof fn lemma_linkage_grouping(m: TypeModel, link: Seq<char>)
    ensures
        ({
            let out = spec_gen(m, link).1;
            &&& out.len() >= 1
            &&& out.last() is LinkBlock
            &&& out.last()->LinkBlock_0.link == link
            &&& forall|k: int| 0 <= k < out.len() - 1 ==> !(#[trigger] out[k] is LinkBlock)
        }),
{
    let n = m.globals@.len() as int;
    let st0 = crate::model::init_st(m);
    let others0 = crate::lower::sel_others(m.globals@, n);
    let kept = sel_kept(m, others0, others0.len() as int);
    lemma_lower_others_no_block(m, st0, kept, kept.len() as int);
}

} // verus!
