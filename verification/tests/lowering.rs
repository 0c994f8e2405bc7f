//! End-to-end lowering runs over hand-built type models.

use bindgen_core::lower::{gen_rs, GenError};
use bindgen_core::model::{
    CField, CParam, CType, CompInfo, EnumInfo, EnumItem, FloatKind, Global, IntKind, TypeInfo,
    TypeModel, VarInfo,
};
use bindgen_core::output::{RsItem, RsType};

fn cint() -> CType {
    CType::Int(IntKind::IInt)
}

fn path(s: &str) -> RsType {
    RsType::Path(s.to_string())
}

fn model(comps: Vec<CompInfo>, enums: Vec<EnumInfo>, globals: Vec<Global>) -> TypeModel {
    TypeModel { comps, enums, globals }
}

fn point_comp(name: &str) -> CompInfo {
    CompInfo {
        name: name.to_string(),
        cstruct: true,
        fields: vec![
            CField { name: "x".to_string(), ty: cint() },
            CField { name: "y".to_string(), ty: cint() },
        ],
    }
}

/// An anonymous struct reachable only through a typedef collapses into one
/// record named after the typedef, with no separate alias.
#[test]
fn typedef_of_anonymous_struct_collapses() {
    let m = model(
        vec![point_comp("")],
        vec![],
        vec![
            Global::TypeDef(TypeInfo { name: "Point".to_string(), ty: CType::Comp(0) }),
            Global::CompDef(0),
        ],
    );
    let out = gen_rs("m", &m).unwrap();
    assert_eq!(out.len(), 2);
    match &out[0] {
        RsItem::Record(name, fields) => {
            assert_eq!(name, "Struct_Point");
            assert_eq!(fields.len(), 2);
            assert_eq!(fields[0].name, "x");
            assert_eq!(fields[0].ty, path("c_int"));
            assert_eq!(fields[1].name, "y");
            assert_eq!(fields[1].ty, path("c_int"));
        }
        other => panic!("expected a record, got {:?}", other),
    }
    match &out[1] {
        RsItem::LinkBlock(b) => {
            assert_eq!(b.link, "m");
            assert!(b.vars.is_empty());
            assert!(b.funcs.is_empty());
        }
        other => panic!("expected the linkage block, got {:?}", other),
    }
}

/// Reversing the discovery order of the typedef and the definition yields
/// exactly the same single definition.
#[test]
fn redundancy_is_order_independent() {
    let td = || Global::TypeDef(TypeInfo { name: "Point".to_string(), ty: CType::Comp(0) });
    let ma = model(vec![point_comp("")], vec![], vec![td(), Global::CompDef(0)]);
    let mb = model(vec![point_comp("")], vec![], vec![Global::CompDef(0), td()]);
    let outa = gen_rs("m", &ma).unwrap();
    let outb = gen_rs("m", &mb).unwrap();
    assert_eq!(outa, outb);
    assert_eq!(outa.len(), 2);
    assert!(matches!(&outa[0], RsItem::Record(name, _) if name == "Struct_Point"));
}

/// A typedef of a struct that already has its own name stays a true alias,
/// and the definition is kept.
#[test]
fn typedef_of_named_struct_stays_alias() {
    let m = model(
        vec![point_comp("pt")],
        vec![],
        vec![
            Global::TypeDef(TypeInfo { name: "Point".to_string(), ty: CType::Comp(0) }),
            Global::CompDef(0),
        ],
    );
    let out = gen_rs("m", &m).unwrap();
    assert_eq!(out.len(), 3);
    assert_eq!(out[0], RsItem::TyAlias("Point".to_string(), path("Struct_pt")));
    assert!(matches!(&out[1], RsItem::Record(name, _) if name == "Struct_pt"));
}

/// A forward declaration with no matching definition becomes one opaque
/// placeholder.
#[test]
fn forward_declaration_is_opaque() {
    let m = model(
        vec![CompInfo { name: "FILE".to_string(), cstruct: true, fields: vec![] }],
        vec![],
        vec![Global::CompDecl(0)],
    );
    let out = gen_rs("m", &m).unwrap();
    assert_eq!(out.len(), 2);
    assert_eq!(out[0], RsItem::TyAlias("Struct_FILE".to_string(), path("c_void")));
}

/// A union definition is lowered to an opaque placeholder, a documented
/// simplification.
#[test]
fn union_definition_is_opaque() {
    let m = model(
        vec![CompInfo {
            name: "U".to_string(),
            cstruct: false,
            fields: vec![CField { name: "a".to_string(), ty: cint() }],
        }],
        vec![],
        vec![Global::CompDef(0)],
    );
    let out = gen_rs("m", &m).unwrap();
    assert_eq!(out[0], RsItem::TyAlias("Union_U".to_string(), path("c_void")));
}

/// A function declaration becomes one foreign function inside the linkage
/// block.
#[test]
fn function_declaration_lowers_into_block() {
    let m = model(
        vec![],
        vec![],
        vec![Global::Func(VarInfo {
            name: "add".to_string(),
            ty: CType::Func(
                Box::new(cint()),
                vec![
                    CParam { name: "a".to_string(), ty: cint() },
                    CParam { name: "b".to_string(), ty: cint() },
                ],
                false,
            ),
        })],
    );
    let out = gen_rs("m", &m).unwrap();
    assert_eq!(out.len(), 1);
    match &out[0] {
        RsItem::LinkBlock(b) => {
            assert_eq!(b.funcs.len(), 1);
            let f = &b.funcs[0];
            assert_eq!(f.name, "add");
            assert_eq!(f.ret, Some(path("c_int")));
            assert_eq!(f.args.len(), 2);
            assert_eq!(f.args[0].name, "a");
            assert_eq!(f.args[0].ty, path("c_int"));
            assert_eq!(f.args[1].name, "b");
            assert!(!f.variadic);
        }
        other => panic!("expected the linkage block, got {:?}", other),
    }
}

/// An enum definition with N enumerators yields the alias plus N constants,
/// values copied verbatim and in order.
#[test]
fn enum_definition_expands_to_alias_and_constants() {
    let m = model(
        vec![],
        vec![EnumInfo {
            name: "Color".to_string(),
            kind: IntKind::IInt,
            items: vec![
                EnumItem { name: "RED".to_string(), val: 0 },
                EnumItem { name: "GREEN".to_string(), val: 1 },
                EnumItem { name: "BLUE".to_string(), val: 2 },
            ],
        }],
        vec![Global::EnumDef(0)],
    );
    let out = gen_rs("m", &m).unwrap();
    assert_eq!(out.len(), 5);
    assert_eq!(out[0], RsItem::TyAlias("Enum_Color".to_string(), path("c_int")));
    assert_eq!(out[1], RsItem::IntConst("RED".to_string(), path("Enum_Color"), 0));
    assert_eq!(out[2], RsItem::IntConst("GREEN".to_string(), path("Enum_Color"), 1));
    assert_eq!(out[3], RsItem::IntConst("BLUE".to_string(), path("Enum_Color"), 2));
}

/// An enum forward declaration becomes an opaque placeholder, named
/// synthetically when the identity is anonymous.
#[test]
fn enum_forward_declaration_is_opaque() {
    let m = model(
        vec![],
        vec![EnumInfo { name: String::new(), kind: IntKind::IInt, items: vec![] }],
        vec![Global::EnumDecl(0)],
    );
    let out = gen_rs("m", &m).unwrap();
    assert_eq!(out[0], RsItem::TyAlias("Enum_Unnamed1".to_string(), path("c_void")));
}

/// A field named by a reserved word is emitted with the escape prefix.
#[test]
fn reserved_field_name_is_escaped() {
    let m = model(
        vec![CompInfo {
            name: "S".to_string(),
            cstruct: true,
            fields: vec![CField { name: "type".to_string(), ty: cint() }],
        }],
        vec![],
        vec![Global::CompDef(0)],
    );
    let out = gen_rs("m", &m).unwrap();
    match &out[0] {
        RsItem::Record(_, fields) => assert_eq!(fields[0].name, "_type"),
        other => panic!("expected a record, got {:?}", other),
    }
}

/// A parameter named by a reserved word is emitted with the escape prefix.
#[test]
fn reserved_parameter_name_is_escaped() {
    let m = model(
        vec![],
        vec![],
        vec![Global::Func(VarInfo {
            name: "f".to_string(),
            ty: CType::Func(
                Box::new(CType::Void),
                vec![CParam { name: "type".to_string(), ty: cint() }],
                false,
            ),
        })],
    );
    let out = gen_rs("m", &m).unwrap();
    match &out[0] {
        RsItem::LinkBlock(b) => {
            assert_eq!(b.funcs[0].args[0].name, "_type");
            assert_eq!(b.funcs[0].ret, None);
        }
        other => panic!("expected the linkage block, got {:?}", other),
    }
}

/// Two distinct anonymous structs with identical field shapes get distinct
/// synthetic names, assigned in encounter order; they are never merged.
#[test]
fn distinct_anonymous_structs_stay_distinct() {
    let m = model(
        vec![point_comp(""), point_comp("")],
        vec![],
        vec![Global::CompDef(0), Global::CompDef(1)],
    );
    let out = gen_rs("m", &m).unwrap();
    assert_eq!(out.len(), 3);
    assert!(matches!(&out[0], RsItem::Record(name, _) if name == "Struct_Unnamed1"));
    assert!(matches!(&out[1], RsItem::Record(name, _) if name == "Struct_Unnamed2"));
}

/// Re-running lowering on an unchanged model yields identical names and
/// identical output.
#[test]
fn lowering_is_deterministic() {
    let make = || {
        model(
            vec![point_comp(""), point_comp("")],
            vec![EnumInfo { name: String::new(), kind: IntKind::IInt, items: vec![] }],
            vec![
                Global::CompDef(0),
                Global::EnumDecl(0),
                Global::CompDef(1),
                Global::Var(VarInfo { name: "v".to_string(), ty: CType::Comp(1) }),
            ],
        )
    };
    let out1 = gen_rs("m", &make()).unwrap();
    let out2 = gen_rs("m", &make()).unwrap();
    assert_eq!(out1, out2);
}

/// Empty field names get `unnamed_field<K>`, K counting unnamed fields of
/// the record from 1; empty parameter names get `arg<K>`, K the 1-based
/// position.
#[test]
fn synthesized_member_and_parameter_names() {
    let m = model(
        vec![CompInfo {
            name: "S".to_string(),
            cstruct: true,
            fields: vec![
                CField { name: String::new(), ty: cint() },
                CField { name: "y".to_string(), ty: cint() },
                CField { name: String::new(), ty: cint() },
            ],
        }],
        vec![],
        vec![
            Global::CompDef(0),
            Global::Func(VarInfo {
                name: "f".to_string(),
                ty: CType::Func(
                    Box::new(CType::Void),
                    vec![
                        CParam { name: String::new(), ty: cint() },
                        CParam { name: "b".to_string(), ty: cint() },
                        CParam { name: String::new(), ty: cint() },
                    ],
                    false,
                ),
            }),
        ],
    );
    let out = gen_rs("m", &m).unwrap();
    match &out[0] {
        RsItem::Record(_, fields) => {
            assert_eq!(fields[0].name, "unnamed_field1");
            assert_eq!(fields[1].name, "y");
            assert_eq!(fields[2].name, "unnamed_field2");
        }
        other => panic!("expected a record, got {:?}", other),
    }
    match &out[1] {
        RsItem::LinkBlock(b) => {
            assert_eq!(b.funcs[0].args[0].name, "arg1");
            assert_eq!(b.funcs[0].args[1].name, "b");
            assert_eq!(b.funcs[0].args[2].name, "arg3");
        }
        other => panic!("expected the linkage block, got {:?}", other),
    }
}

/// Variables and functions land in one block after all type declarations,
/// whatever their interleaving in the input; irrelevant records are dropped.
#[test]
fn linkage_block_groups_and_stands_last() {
    let m = model(
        vec![],
        vec![],
        vec![
            Global::Var(VarInfo { name: "a".to_string(), ty: cint() }),
            Global::Other,
            Global::TypeDef(TypeInfo { name: "t".to_string(), ty: cint() }),
            Global::Func(VarInfo {
                name: "g".to_string(),
                ty: CType::Func(Box::new(CType::Void), vec![], true),
            }),
            Global::Var(VarInfo { name: "b".to_string(), ty: CType::Float(FloatKind::FDouble) }),
        ],
    );
    let out = gen_rs("m", &m).unwrap();
    assert_eq!(out.len(), 2);
    assert_eq!(out[0], RsItem::TyAlias("t".to_string(), path("c_int")));
    match &out[1] {
        RsItem::LinkBlock(b) => {
            assert_eq!(b.vars.len(), 2);
            assert_eq!(b.vars[0].name, "a");
            assert_eq!(b.vars[0].ty, path("c_int"));
            assert_eq!(b.vars[1].name, "b");
            assert_eq!(b.vars[1].ty, path("c_double"));
            assert_eq!(b.funcs.len(), 1);
            assert_eq!(b.funcs[0].name, "g");
            assert!(b.funcs[0].variadic);
        }
        other => panic!("expected the linkage block, got {:?}", other),
    }
}

/// Pointer, array, named and function-pointer type references lower to
/// pointer, fixed-length array, identifier and opaque callback pointer.
#[test]
fn type_reference_lowering() {
    let m = model(
        vec![],
        vec![],
        vec![
            Global::TypeDef(TypeInfo {
                name: "p".to_string(),
                ty: CType::Ptr(Box::new(CType::Void)),
            }),
            Global::TypeDef(TypeInfo {
                name: "buf".to_string(),
                ty: CType::Array(Box::new(CType::Int(IntKind::IUChar)), 16),
            }),
            Global::TypeDef(TypeInfo {
                name: "cb".to_string(),
                ty: CType::Func(Box::new(cint()), vec![], false),
            }),
            Global::TypeDef(TypeInfo {
                name: "q".to_string(),
                ty: CType::Named("FILE".to_string()),
            }),
        ],
    );
    let out = gen_rs("m", &m).unwrap();
    assert_eq!(out[0], RsItem::TyAlias("p".to_string(), RsType::Ptr(Box::new(path("c_void")))));
    assert_eq!(
        out[1],
        RsItem::TyAlias("buf".to_string(), RsType::Array(Box::new(path("c_uchar")), 16))
    );
    assert_eq!(out[2], RsItem::TyAlias("cb".to_string(), RsType::Ptr(Box::new(path("u8")))));
    assert_eq!(out[3], RsItem::TyAlias("q".to_string(), path("FILE")));
}

/// Every integer width class keeps its own platform alias.
#[test]
fn integer_kinds_keep_distinct_aliases() {
    let kinds = [
        (IntKind::IBool, "c_bool"),
        (IntKind::ISChar, "c_schar"),
        (IntKind::IUChar, "c_uchar"),
        (IntKind::IShort, "c_short"),
        (IntKind::IUShort, "c_ushort"),
        (IntKind::IInt, "c_int"),
        (IntKind::IUInt, "c_uint"),
        (IntKind::ILong, "c_long"),
        (IntKind::IULong, "c_ulong"),
        (IntKind::ILongLong, "c_longlong"),
        (IntKind::IULongLong, "c_ulonglong"),
    ];
    for (kind, alias) in kinds {
        let m = model(
            vec![],
            vec![],
            vec![Global::TypeDef(TypeInfo { name: "t".to_string(), ty: CType::Int(kind) })],
        );
        let out = gen_rs("m", &m).unwrap();
        assert_eq!(out[0], RsItem::TyAlias("t".to_string(), path(alias)));
    }
    let m = model(
        vec![],
        vec![],
        vec![Global::TypeDef(TypeInfo {
            name: "f".to_string(),
            ty: CType::Float(FloatKind::FFloat),
        })],
    );
    let out = gen_rs("m", &m).unwrap();
    assert_eq!(out[0], RsItem::TyAlias("f".to_string(), path("c_float")));
}

/// A variable whose type is an anonymous struct sees the name allocated
/// during the type pass, and names keep running in encounter order.
#[test]
fn anonymous_names_run_in_encounter_order_across_passes() {
    let m = model(
        vec![point_comp(""), point_comp("")],
        vec![],
        vec![
            Global::Var(VarInfo { name: "v".to_string(), ty: CType::Comp(1) }),
            Global::CompDef(0),
        ],
    );
    let out = gen_rs("m", &m).unwrap();
    // The type block is lowered first: identity 0 takes Unnamed1; the
    // variable's anonymous type is named afterwards and takes Unnamed2.
    assert!(matches!(&out[0], RsItem::Record(name, _) if name == "Struct_Unnamed1"));
    match &out[1] {
        RsItem::LinkBlock(b) => assert_eq!(b.vars[0].ty, path("Struct_Unnamed2")),
        other => panic!("expected the linkage block, got {:?}", other),
    }
}

/// A function record with a non-function underlying type is an upstream
/// invariant violation: the run aborts with the one error kind.
#[test]
fn malformed_function_type_is_fatal() {
    let m = model(
        vec![],
        vec![],
        vec![Global::Func(VarInfo { name: "f".to_string(), ty: cint() })],
    );
    assert_eq!(gen_rs("m", &m), Err(GenError::MalformedDecl));
}
