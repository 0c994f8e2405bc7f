//! The type model: the ordered, upstream-produced representation of all
//! relevant C declarations, consumed read-mostly by the lowering engine.
//!
//! Aggregate and enum definitions are shared identities referenced by possibly
//! many declaration records; they live in arenas addressed by stable index,
//! and every type reference stores the index.  Identity equality is by index,
//! never by structural shape.  The only mutable state of a lowering run, the
//! names assigned to identities and the synthetic-name counter, is kept in a
//! [`LowerCtx`] threaded through every lowering call.

use vstd::prelude::*;
use vstd::string::StringExecFns;
use crate::ident::dec_rep;

verus! {

/// Signedness and width class of a C integer type.  Each class maps to a
/// distinct target alias, so the reported type intent survives even where
/// widths coincide on a given platform.
#[derive(Clone, Copy, PartialEq, Eq, Structural, Debug)]
pub enum IntKind {
    IBool,
    ISChar,
    IUChar,
    IShort,
    IUShort,
    IInt,
    IUInt,
    ILong,
    IULong,
    ILongLong,
    IULongLong,
}

/// Width class of a C floating-point type.
#[derive(Clone, Copy, PartialEq, Eq, Structural, Debug)]
pub enum FloatKind {
    FFloat,
    FDouble,
}

/// A C type reference.  `Comp` and `EnumRef` hold the index of a shared
/// aggregate or enum identity in the model's arenas.
#[derive(Debug)]
pub enum CType {
    Void,
    Int(IntKind),
    Float(FloatKind),
    Ptr(Box<CType>),
    Array(Box<CType>, usize),
    Func(Box<CType>, Vec<CParam>, bool),
    Named(String),
    Comp(usize),
    EnumRef(usize),
}

/// One function parameter: its name (possibly empty) and type.
#[derive(Debug)]
pub struct CParam {
    pub name: String,
    pub ty: CType,
}

/// One aggregate field: its name (possibly empty) and type.
#[derive(Debug)]
pub struct CField {
    pub name: String,
    pub ty: CType,
}

/// A shared aggregate identity: struct kind or union kind, with its fields in
/// authoritative layout order.  The name is empty until a typedef or the
/// anonymous-name allocator assigns one.
#[derive(Debug)]
pub struct CompInfo {
    pub name: String,
    pub cstruct: bool,
    pub fields: Vec<CField>,
}

/// One enumerator: its name and stored integer value.
#[derive(Debug)]
pub struct EnumItem {
    pub name: String,
    pub val: i64,
}

/// A shared enum identity: underlying integer kind and enumerators in order.
#[derive(Debug)]
pub struct EnumInfo {
    pub name: String,
    pub kind: IntKind,
    pub items: Vec<EnumItem>,
}

/// A typedef: the alias name and the aliased type.
#[derive(Debug)]
pub struct TypeInfo {
    pub name: String,
    pub ty: CType,
}

/// A global variable or function declaration: its name and underlying type.
/// For a function declaration the type must be `CType::Func`.
#[derive(Debug)]
pub struct VarInfo {
    pub name: String,
    pub ty: CType,
}

/// One declaration record of the type model, in the order the upstream parser
/// produced them.  `Other` marks declarations irrelevant to lowering.
#[derive(Debug)]
pub enum Global {
    TypeDef(TypeInfo),
    CompDecl(usize),
    CompDef(usize),
    EnumDecl(usize),
    EnumDef(usize),
    Var(VarInfo),
    Func(VarInfo),
    Other,
}

/// The whole input model: the identity arenas and the ordered declaration
/// list.
#[derive(Debug)]
pub struct TypeModel {
    pub comps: Vec<CompInfo>,
    pub enums: Vec<EnumInfo>,
    pub globals: Vec<Global>,
}

/// Every identity index a type mentions lies inside the arenas of a model
/// with `nc` aggregates and `ne` enums.
pub open spec fn ty_wf(nc: int, ne: int, t: CType) -> bool
    decreases t,
{
    match t {
        CType::Void => true,
        CType::Int(_) => true,
        CType::Float(_) => true,
        CType::Ptr(t2) => ty_wf(nc, ne, *t2),
        CType::Array(t2, _) => ty_wf(nc, ne, *t2),
        CType::Func(r, ps, _) => ty_wf(nc, ne, *r) && params_wf(nc, ne, ps),
        CType::Named(_) => true,
        CType::Comp(i) => i < nc,
        CType::EnumRef(i) => i < ne,
    }
}

/// All parameter types are well formed.
pub open spec fn params_wf(nc: int, ne: int, ps: Vec<CParam>) -> bool
    decreases ps,
{
    forall|j: int| 0 <= j < ps@.len() ==> ty_wf(nc, ne, ps@[j].ty)
}

/// Every identity index a declaration record mentions lies inside the arenas.
pub open spec fn global_wf(nc: int, ne: int, g: Global) -> bool {
    match g {
        Global::TypeDef(ti) => ty_wf(nc, ne, ti.ty),
        Global::CompDecl(i) => i < nc,
        Global::CompDef(i) => i < nc,
        Global::EnumDecl(i) => i < ne,
        Global::EnumDef(i) => i < ne,
        Global::Var(vi) => ty_wf(nc, ne, vi.ty),
        Global::Func(vi) => ty_wf(nc, ne, vi.ty),
        Global::Other => true,
    }
}

/// Shorthand: the type is well formed with respect to the model's arenas.
pub open spec fn ty_wf_m(m: TypeModel, t: CType) -> bool {
    ty_wf(m.comps@.len() as int, m.enums@.len() as int, t)
}

/// The structural invariant the upstream parser guarantees: every identity
/// index anywhere in the model lies inside the arenas.
pub open spec fn model_wf(m: TypeModel) -> bool {
    let nc = m.comps@.len() as int;
    let ne = m.enums@.len() as int;
    &&& forall|i: int|
        0 <= i < m.comps@.len() ==> forall|j: int|
            0 <= j < #[trigger] m.comps@[i].fields@.len() ==> ty_wf(
                nc,
                ne,
                #[trigger] m.comps@[i].fields@[j].ty,
            )
    &&& forall|i: int| 0 <= i < m.globals@.len() ==> global_wf(nc, ne, #[trigger] m.globals@[i])
}

/// The ghost state of one lowering run: the name column of the two identity
/// arenas, and the synthetic-name counter.
#[verifier::ext_equal]
pub struct LowerSt {
    pub comp_names: Seq<Seq<char>>,
    pub enum_names: Seq<Seq<char>>,
    pub counter: int,
}

/// How many entries of a flag sequence are set.
pub open spec fn count_true(s: Seq<bool>) -> int
    decreases s.len(),
{
    if s.len() == 0 {
        0
    } else {
        count_true(s.drop_last()) + if s.last() {
            1int
        } else {
            0int
        }
    }
}

/// Which names of a name column are assigned (non-empty).
pub open spec fn named_flags(names: Seq<Seq<char>>) -> Seq<bool> {
    names.map(|i: int, n: Seq<char>| n.len() > 0)
}

/// The number of assigned names in a name column.
pub open spec fn count_named(names: Seq<Seq<char>>) -> int {
    count_true(named_flags(names))
}

pub proof fn lemma_count_true_le(s: Seq<bool>)
    ensures
        0 <= count_true(s) <= s.len(),
    decreases s.len(),
{
    if s.len() > 0 {
        lemma_count_true_le(s.drop_last());
    }
}

pub proof fn lemma_count_true_lt(s: Seq<bool>, i: int)
    requires
        0 <= i < s.len(),
        !s[i],
    ensures
        count_true(s) < s.len(),
    decreases s.len(),
{
    if i == s.len() - 1 {
        lemma_count_true_le(s.drop_last());
    } else {
        lemma_count_true_lt(s.drop_last(), i);
    }
}

pub proof fn lemma_count_true_update(s: Seq<bool>, i: int)
    requires
        0 <= i < s.len(),
        !s[i],
    ensures
        count_true(s.update(i, true)) == count_true(s) + 1,
    decreases s.len(),
{
    let u = s.update(i, true);
    if i == s.len() - 1 {
        assert(u.drop_last() =~= s.drop_last());
    } else {
        lemma_count_true_update(s.drop_last(), i);
        assert(u.drop_last() =~= s.drop_last().update(i, true));
        assert(u.last() == s.last());
    }
}

pub proof fn lemma_count_true_update_ge(s: Seq<bool>, i: int, v: bool)
    requires
        0 <= i < s.len(),
        !s[i],
    ensures
        count_true(s.update(i, v)) >= count_true(s),
{
    if v {
        lemma_count_true_update(s, i);
    } else {
        assert(s.update(i, v) =~= s);
    }
}

/// The invariant of a lowering run: the counter never exceeds the number of
/// assigned names, so a fresh increment always fits.
pub open spec fn st_ok(st: LowerSt) -> bool {
    0 <= st.counter <= count_named(st.comp_names) + count_named(st.enum_names)
}

/// The name column lengths match the model's arenas.
pub open spec fn st_matches(st: LowerSt, m: TypeModel) -> bool {
    st.comp_names.len() == m.comps@.len() && st.enum_names.len() == m.enums@.len()
}

/// The synthetic name allocated when the counter stands at `counter`:
/// the counter is incremented first, so the names run `Unnamed1, Unnamed2, …`
/// in strict encounter order.
pub open spec fn alloc_name(counter: int) -> Seq<char> {
    "Unnamed"@ + dec_rep(counter + 1)
}

/// What ensuring a name for aggregate identity `i` yields: the state after
/// and the name every later reference observes.
pub open spec fn spec_ensure_comp_named(st: LowerSt, i: int) -> (LowerSt, Seq<char>) {
    if st.comp_names[i].len() > 0 {
        (st, st.comp_names[i])
    } else {
        let fresh = alloc_name(st.counter);
        (
            LowerSt {
                comp_names: st.comp_names.update(i, fresh),
                counter: st.counter + 1,
                ..st
            },
            fresh,
        )
    }
}

/// What ensuring a name for enum identity `i` yields.
pub open spec fn spec_ensure_enum_named(st: LowerSt, i: int) -> (LowerSt, Seq<char>) {
    if st.enum_names[i].len() > 0 {
        (st, st.enum_names[i])
    } else {
        let fresh = alloc_name(st.counter);
        (
            LowerSt {
                enum_names: st.enum_names.update(i, fresh),
                counter: st.counter + 1,
                ..st
            },
            fresh,
        )
    }
}

/// The mutable state of one lowering run: the names assigned so far to the
/// aggregate and enum identities (a name, once assigned, is frozen), and the
/// monotonically increasing counter behind synthetic `Unnamed<N>` names.
pub struct LowerCtx {
    pub comp_names: Vec<String>,
    pub enum_names: Vec<String>,
    pub unnamed_ty: u128,
}

impl View for LowerCtx {
    type V = LowerSt;

    open spec fn view(&self) -> LowerSt {
        LowerSt {
            comp_names: Seq::new(self.comp_names@.len(), |i: int| self.comp_names@[i]@),
            enum_names: Seq::new(self.enum_names@.len(), |i: int| self.enum_names@[i]@),
            counter: self.unnamed_ty as int,
        }
    }
}

/// The initial lowering state for a model: the names the model came with, and
/// a counter at zero.
pub open spec fn init_st(m: TypeModel) -> LowerSt {
    LowerSt {
        comp_names: Seq::new(m.comps@.len(), |i: int| m.comps@[i].name@),
        enum_names: Seq::new(m.enums@.len(), |i: int| m.enums@[i].name@),
        counter: 0,
    }
}

impl LowerCtx {
    /// Set up the lowering context for a model, adopting the names the model
    /// already carries.
    pub fn for_model(m: &TypeModel) -> (r: LowerCtx)
        ensures
            r@ == init_st(*m),
            st_ok(r@),
            st_matches(r@, *m),
    {
        let mut comp_names: Vec<String> = Vec::new();
        let mut i: usize = 0;
        while i < m.comps.len()
            invariant
                i <= m.comps@.len(),
                comp_names@.len() == i as int,
                forall|k: int| 0 <= k < i ==> #[trigger] comp_names@[k]@ == m.comps@[k].name@,
            decreases m.comps@.len() - i,
        {
            comp_names.push(m.comps[i].name.clone());
            i += 1;
        }
        let mut enum_names: Vec<String> = Vec::new();
        let mut j: usize = 0;
        while j < m.enums.len()
            invariant
                j <= m.enums@.len(),
                enum_names@.len() == j as int,
                forall|k: int| 0 <= k < j ==> #[trigger] enum_names@[k]@ == m.enums@[k].name@,
            decreases m.enums@.len() - j,
        {
            enum_names.push(m.enums[j].name.clone());
            j += 1;
        }
        let r = LowerCtx { comp_names, enum_names, unnamed_ty: 0 };
        proof {
            assert(r@.comp_names =~= init_st(*m).comp_names);
            assert(r@.enum_names =~= init_st(*m).enum_names);
            assert(r@ =~= init_st(*m));
            lemma_count_true_le(named_flags(r@.comp_names));
            lemma_count_true_le(named_flags(r@.enum_names));
        }
        r
    }

    /// Ensure aggregate identity `i` has a concrete name: return the assigned
    /// name, allocating the next synthetic `Unnamed<N>` if it has none yet.
    pub fn ensure_comp_named(&mut self, i: usize) -> (r: String)
        requires
            st_ok(old(self)@),
            i < old(self)@.comp_names.len(),
        ensures
            final(self)@ == spec_ensure_comp_named(old(self)@, i as int).0,
            r@ == spec_ensure_comp_named(old(self)@, i as int).1,
            st_ok(final(self)@),
            final(self)@.comp_names.len() == old(self)@.comp_names.len(),
            final(self)@.enum_names == old(self)@.enum_names,
    {
        if !self.comp_names[i].as_str().is_empty() {
            let r = self.comp_names[i].clone();
            proof {
                assert(self@ =~= spec_ensure_comp_named(old(self)@, i as int).0);
            }
            r
        } else {
            proof {
                let flags = named_flags(old(self)@.comp_names);
                lemma_count_true_lt(flags, i as int);
                lemma_count_true_le(named_flags(old(self)@.enum_names));
                assert(old(self)@.comp_names.len() == self.comp_names@.len());
                assert(old(self)@.enum_names.len() == self.enum_names@.len());
                vstd::std_specs::vec::axiom_spec_len(&self.comp_names);
                vstd::std_specs::vec::axiom_spec_len(&self.enum_names);
                assert(self.comp_names@.len() <= usize::MAX);
                assert(self.enum_names@.len() <= usize::MAX);
                assert(usize::MAX as int <= u64::MAX as int);
                assert(old(self)@.counter < 2 * (u64::MAX as int));
            }
            self.unnamed_ty = self.unnamed_ty + 1;
            let num = crate::ident::dec_numeral(self.unnamed_ty);
            let fresh = String::from_str("Unnamed").concat(num.as_str());
            let stored = fresh.clone();
            self.comp_names[i] = stored;
            proof {
                let st0 = old(self)@;
                let flags = named_flags(st0.comp_names);
                assert(fresh@ =~= alloc_name(st0.counter));
                assert(self@.comp_names =~= st0.comp_names.update(i as int, alloc_name(st0.counter)));
                assert(self@.enum_names =~= st0.enum_names);
                assert(self@ =~= spec_ensure_comp_named(st0, i as int).0);
                lemma_count_true_update(flags, i as int);
                assert(named_flags(self@.comp_names) =~= flags.update(i as int, true));
            }
            fresh
        }
    }

    /// Ensure enum identity `i` has a concrete name, as for aggregates.
    pub fn ensure_enum_named(&mut self, i: usize) -> (r: String)
        requires
            st_ok(old(self)@),
            i < old(self)@.enum_names.len(),
        ensures
            final(self)@ == spec_ensure_enum_named(old(self)@, i as int).0,
            r@ == spec_ensure_enum_named(old(self)@, i as int).1,
            st_ok(final(self)@),
            final(self)@.enum_names.len() == old(self)@.enum_names.len(),
            final(self)@.comp_names == old(self)@.comp_names,
    {
        if !self.enum_names[i].as_str().is_empty() {
            let r = self.enum_names[i].clone();
            proof {
                assert(self@ =~= spec_ensure_enum_named(old(self)@, i as int).0);
            }
            r
        } else {
            proof {
                let flags = named_flags(old(self)@.enum_names);
                lemma_count_true_lt(flags, i as int);
                lemma_count_true_le(named_flags(old(self)@.comp_names));
                assert(old(self)@.comp_names.len() == self.comp_names@.len());
                assert(old(self)@.enum_names.len() == self.enum_names@.len());
                vstd::std_specs::vec::axiom_spec_len(&self.comp_names);
                vstd::std_specs::vec::axiom_spec_len(&self.enum_names);
                assert(self.comp_names@.len() <= usize::MAX);
                assert(self.enum_names@.len() <= usize::MAX);
                assert(usize::MAX as int <= u64::MAX as int);
                assert(old(self)@.counter < 2 * (u64::MAX as int));
            }
            self.unnamed_ty = self.unnamed_ty + 1;
            let num = crate::ident::dec_numeral(self.unnamed_ty);
            let fresh = String::from_str("Unnamed").concat(num.as_str());
            let stored = fresh.clone();
            self.enum_names[i] = stored;
            proof {
                let st0 = old(self)@;
                let flags = named_flags(st0.enum_names);
                assert(fresh@ =~= alloc_name(st0.counter));
                assert(self@.enum_names =~= st0.enum_names.update(i as int, alloc_name(st0.counter)));
                assert(self@.comp_names =~= st0.comp_names);
                assert(self@ =~= spec_ensure_enum_named(st0, i as int).0);
                lemma_count_true_update(flags, i as int);
                assert(named_flags(self@.enum_names) =~= flags.update(i as int, true));
            }
            fresh
        }
    }
}

} // verus!
