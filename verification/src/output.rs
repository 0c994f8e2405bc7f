//! The output declaration list handed to the serialization collaborator:
//! type aliases, record definitions, opaque placeholders (aliases of the
//! opaque byte type), integer constants, and one foreign-linkage block tagged
//! with the native library name.
//!
//! Each executable type has a ghost mirror (`…V`) over `Seq<char>` names, the
//! form in which contracts and the lowering specification speak of output.

use vstd::prelude::*;

verus! {

/// A target type expression.
#[derive(Debug, PartialEq)]
pub enum RsType {
    /// A named type: a platform alias such as `c_int`, or an identifier
    /// assigned to an aggregate or enum identity.
    Path(String),
    /// An immutable pointer to the base type.
    Ptr(Box<RsType>),
    /// A fixed-length sequence of the base type; the length is preserved
    /// exactly, never decayed to a pointer.
    Array(Box<RsType>, usize),
}

/// One field of an emitted record type.
#[derive(Debug, PartialEq)]
pub struct RsField {
    pub name: String,
    pub ty: RsType,
}

/// One parameter of an emitted foreign function.
#[derive(Debug, PartialEq)]
pub struct RsArg {
    pub name: String,
    pub ty: RsType,
}

/// A foreign constant declaration for a global variable.
#[derive(Debug, PartialEq)]
pub struct RsVar {
    pub name: String,
    pub ty: RsType,
}

/// A foreign function declaration.  `ret` is `None` for a void return.
#[derive(Debug, PartialEq)]
pub struct RsFn {
    pub name: String,
    pub ret: Option<RsType>,
    pub args: Vec<RsArg>,
    pub variadic: bool,
}

/// The single foreign-linkage block: the native library name used for the
/// link directive, and all variable and function declarations.
#[derive(Debug, PartialEq)]
pub struct RsLinkBlock {
    pub link: String,
    pub vars: Vec<RsVar>,
    pub funcs: Vec<RsFn>,
}

/// One output declaration.
#[derive(Debug, PartialEq)]
pub enum RsItem {
    /// `name` aliased to a type expression.
    TyAlias(String, RsType),
    /// A record type with named, ordered fields.
    Record(String, Vec<RsField>),
    /// A named integer constant with its type and verbatim value.
    IntConst(String, RsType, i64),
    /// The foreign-linkage block; emitted once, after all type declarations.
    LinkBlock(RsLinkBlock),
}

/// Ghost mirror of [`RsType`].
#[verifier::ext_equal]
pub enum RsTypeV {
    Path(Seq<char>),
    Ptr(Box<RsTypeV>),
    Array(Box<RsTypeV>, usize),
}

/// Ghost mirror of [`RsField`].
#[verifier::ext_equal]
pub struct RsFieldV {
    pub name: Seq<char>,
    pub ty: RsTypeV,
}

/// Ghost mirror of [`RsArg`].
#[verifier::ext_equal]
pub struct RsArgV {
    pub name: Seq<char>,
    pub ty: RsTypeV,
}

/// Ghost mirror of [`RsVar`].
#[verifier::ext_equal]
pub struct RsVarV {
    pub name: Seq<char>,
    pub ty: RsTypeV,
}

/// Ghost mirror of [`RsFn`].
#[verifier::ext_equal]
pub struct RsFnV {
    pub name: Seq<char>,
    pub ret: Option<RsTypeV>,
    pub args: Seq<RsArgV>,
    pub variadic: bool,
}

/// Ghost mirror of [`RsLinkBlock`].
#[verifier::ext_equal]
pub struct RsLinkBlockV {
    pub link: Seq<char>,
    pub vars: Seq<RsVarV>,
    pub funcs: Seq<RsFnV>,
}

/// Ghost mirror of [`RsItem`].
#[verifier::ext_equal]
pub enum RsItemV {
    TyAlias(Seq<char>, RsTypeV),
    Record(Seq<char>, Seq<RsFieldV>),
    IntConst(Seq<char>, RsTypeV, i64),
    LinkBlock(RsLinkBlockV),
}

pub open spec fn rs_type_view(t: RsType) -> RsTypeV
    decreases t,
{
    match t {
        RsType::Path(s) => RsTypeV::Path(s@),
        RsType::Ptr(b) => RsTypeV::Ptr(Box::new(rs_type_view(*b))),
        RsType::Array(b, n) => RsTypeV::Array(Box::new(rs_type_view(*b)), n),
    }
}

impl View for RsType {
    type V = RsTypeV;

    open spec fn view(&self) -> RsTypeV {
        rs_type_view(*self)
    }
}

impl View for RsField {
    type V = RsFieldV;

    open spec fn view(&self) -> RsFieldV {
        RsFieldV { name: self.name@, ty: self.ty@ }
    }
}

impl View for RsArg {
    type V = RsArgV;

    open spec fn view(&self) -> RsArgV {
        RsArgV { name: self.name@, ty: self.ty@ }
    }
}

impl View for RsVar {
    type V = RsVarV;

    open spec fn view(&self) -> RsVarV {
        RsVarV { name: self.name@, ty: self.ty@ }
    }
}

impl View for RsFn {
    type V = RsFnV;

    open spec fn view(&self) -> RsFnV {
        RsFnV {
            name: self.name@,
            ret: match self.ret {
                Some(t) => Some(t@),
                None => None,
            },
            args: Seq::new(self.args@.len(), |i: int| self.args@[i]@),
            variadic: self.variadic,
        }
    }
}

impl View for RsLinkBlock {
    type V = RsLinkBlockV;

    open spec fn view(&self) -> RsLinkBlockV {
        RsLinkBlockV {
            link: self.link@,
            vars: Seq::new(self.vars@.len(), |i: int| self.vars@[i]@),
            funcs: Seq::new(self.funcs@.len(), |i: int| self.funcs@[i]@),
        }
    }
}

impl View for RsItem {
    type V = RsItemV;

    open spec fn view(&self) -> RsItemV {
        match *self {
            RsItem::TyAlias(ref n, ref t) => RsItemV::TyAlias(n@, t@),
            RsItem::Record(ref n, ref fs) => RsItemV::Record(
                n@,
                Seq::new(fs@.len(), |i: int| fs@[i]@),
            ),
            RsItem::IntConst(ref n, ref t, v) => RsItemV::IntConst(n@, t@, v),
            RsItem::LinkBlock(ref b) => RsItemV::LinkBlock(b@),
        }
    }
}

/// The deep view of an output declaration sequence.
pub open spec fn items_view(s: Seq<RsItem>) -> Seq<RsItemV> {
    Seq::new(s.len(), |i: int| s[i]@)
}

} // verus!
