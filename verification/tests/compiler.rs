use gdrs_parse::input::{
    Decl, DeclKind, EnumeratorDecl, EvalResult, Expr, Loc, NamedKind, ParamDecl, PrimKind,
    Storage, TypeNode, Visibility,
};
use gdrs_parse::merge::merge_namespace;
use gdrs_parse::report::Diag;
use gdrs_parse::resolve::{parse_type, ParseError};
use gdrs_parse::schema::{
    Access, Const, Function, FunctionSemantic, Namespace, TypeName, TypeRef, TypeSemantic, Value,
};
use gdrs_parse::value::parse_value;
use gdrs_parse::walk::{check_decl, parse_namespace};

fn header_loc() -> Loc {
    Loc {
        in_system_header: false,
        path: "/src/core/api.h".to_string(),
        segments: vec![
            "src".to_string(),
            "core".to_string(),
            "api.h".to_string(),
        ],
    }
}

fn decl(kind: DeclKind) -> Decl {
    Decl { loc: header_loc(), access: None, kind }
}

fn member(access: Visibility, kind: DeclKind) -> Decl {
    Decl { loc: header_loc(), access: Some(access), kind }
}

fn prim(kind: PrimKind) -> TypeNode {
    TypeNode::Prim { kind, is_const: false }
}

fn const_prim(kind: PrimKind) -> TypeNode {
    TypeNode::Prim { kind, is_const: true }
}

fn int_expr(v: i64) -> Expr {
    Expr { ty: Some(prim(PrimKind::Int)), eval: Some(EvalResult::Integer(v)) }
}

fn const_var(name: &str, v: i64) -> Decl {
    decl(DeclKind::Var {
        name: name.to_string(),
        ty: const_prim(PrimKind::Int),
        const_qualified: true,
        storage: Storage::Other,
        init: Some(int_expr(v)),
    })
}

fn ns_decl(name: &str, children: Vec<Decl>) -> Decl {
    decl(DeclKind::NamespaceDecl { name: Some(name.to_string()), children })
}

fn walk(d: &Decl) -> (Option<Namespace>, Vec<Diag>) {
    assert!(check_decl(d));
    let mut diags = Vec::new();
    let ns = parse_namespace(d, &mut diags);
    (ns, diags)
}


fn tn_eq(a: &TypeName, b: &TypeName) -> bool {
    match (a, b) {
        (TypeName::Void, TypeName::Void) => true,
        (TypeName::Bool, TypeName::Bool) => true,
        (TypeName::Char, TypeName::Char) => true,
        (TypeName::UChar, TypeName::UChar) => true,
        (TypeName::WChar, TypeName::WChar) => true,
        (TypeName::Short, TypeName::Short) => true,
        (TypeName::UShort, TypeName::UShort) => true,
        (TypeName::Int, TypeName::Int) => true,
        (TypeName::UInt, TypeName::UInt) => true,
        (TypeName::Long, TypeName::Long) => true,
        (TypeName::ULong, TypeName::ULong) => true,
        (TypeName::LongLong, TypeName::LongLong) => true,
        (TypeName::ULongLong, TypeName::ULongLong) => true,
        (TypeName::Float, TypeName::Float) => true,
        (TypeName::Double, TypeName::Double) => true,
        (TypeName::TypeName(p), TypeName::TypeName(q)) => p == q,
        (TypeName::Class(p, x), TypeName::Class(q, y)) => {
            p == q && x.len() == y.len() && x.iter().zip(y.iter()).all(|(a, b)| tr_eq(a, b))
        }
        _ => false,
    }
}

fn tr_eq(a: &TypeRef, b: &TypeRef) -> bool {
    tn_eq(&a.name, &b.name) && a.semantic == b.semantic && a.is_const == b.is_const
}

// Every supported primitive kind resolves to a plain value of the matching
// primitive tag.
#[test]
fn primitive_kinds_resolve_to_value() {
    let cases = [
        (PrimKind::Bool, TypeName::Bool),
        (PrimKind::Char, TypeName::Char),
        (PrimKind::UChar, TypeName::UChar),
        (PrimKind::WChar, TypeName::WChar),
        (PrimKind::Short, TypeName::Short),
        (PrimKind::UShort, TypeName::UShort),
        (PrimKind::Int, TypeName::Int),
        (PrimKind::UInt, TypeName::UInt),
        (PrimKind::Long, TypeName::Long),
        (PrimKind::ULong, TypeName::ULong),
        (PrimKind::LongLong, TypeName::LongLong),
        (PrimKind::ULongLong, TypeName::ULongLong),
        (PrimKind::Float, TypeName::Float),
        (PrimKind::Double, TypeName::Double),
    ];
    for (k, expect) in cases {
        let r = parse_type(&prim(k)).unwrap();
        assert!(tn_eq(&r.name, &expect));
        assert_eq!(r.semantic, TypeSemantic::Value);
        assert!(!r.is_const);
    }
}

#[test]
fn bare_void_is_unsupported() {
    assert!(matches!(parse_type(&prim(PrimKind::Void)), Err(ParseError::Unsupported)));
}

#[test]
fn void_pointer_is_supported() {
    let t = TypeNode::Pointer { pointee: Box::new(prim(PrimKind::Void)) };
    let r = parse_type(&t).unwrap();
    assert!(matches!(r.name, TypeName::Void));
    assert_eq!(r.semantic, TypeSemantic::Pointer);
}

// A pointer to a pointer is classified with the doubly-dereferenced base;
// a third level is never represented.
#[test]
fn pointer_to_pointer_resolves() {
    let t = TypeNode::Pointer {
        pointee: Box::new(TypeNode::Pointer { pointee: Box::new(const_prim(PrimKind::Char)) }),
    };
    let r = parse_type(&t).unwrap();
    assert!(matches!(r.name, TypeName::Char));
    assert_eq!(r.semantic, TypeSemantic::PointerToPointer);
    assert!(r.is_const);

    let triple = TypeNode::Pointer {
        pointee: Box::new(TypeNode::Pointer {
            pointee: Box::new(TypeNode::Pointer { pointee: Box::new(prim(PrimKind::Int)) }),
        }),
    };
    assert!(matches!(parse_type(&triple), Err(ParseError::Unsupported)));
}

#[test]
fn array_of_pointer_resolves() {
    let t = TypeNode::Array {
        size: 4,
        element: Box::new(TypeNode::Pointer { pointee: Box::new(prim(PrimKind::Int)) }),
    };
    let r = parse_type(&t).unwrap();
    assert_eq!(r.semantic, TypeSemantic::ArrayOfPointer(4));
    assert!(matches!(r.name, TypeName::Int));
}

#[test]
fn elaborated_sugar_is_transparent() {
    let t = TypeNode::Elaborated { inner: Box::new(prim(PrimKind::Short)) };
    let r = parse_type(&t).unwrap();
    assert!(matches!(r.name, TypeName::Short));
    assert_eq!(r.semantic, TypeSemantic::Value);
}

#[test]
fn named_type_gets_scope_path() {
    let t = TypeNode::Named {
        kind: NamedKind::Record,
        name: "Vector3".to_string(),
        scopes: vec![Some("godot".to_string()), Some("math".to_string())],
        targs: Some(vec![prim(PrimKind::Float)]),
        is_const: false,
    };
    let r = parse_type(&t).unwrap();
    match r.name {
        TypeName::Class(path, args) => {
            assert_eq!(path, vec!["godot", "math", "Vector3"]);
            assert_eq!(args.len(), 1);
            assert!(matches!(args[0].name, TypeName::Float));
        }
        _ => panic!("expected a class name"),
    }
}

#[test]
fn anonymous_scope_is_unsupported() {
    let t = TypeNode::Named {
        kind: NamedKind::Enum,
        name: "Hidden".to_string(),
        scopes: vec![None],
        targs: None,
        is_const: false,
    };
    assert!(matches!(parse_type(&t), Err(ParseError::Unsupported)));
}

#[test]
fn failing_template_argument_fails_the_type() {
    let t = TypeNode::Named {
        kind: NamedKind::Record,
        name: "List".to_string(),
        scopes: vec![],
        targs: Some(vec![TypeNode::Ignored]),
        is_const: false,
    };
    assert!(matches!(parse_type(&t), Err(ParseError::Ignored)));
}

#[test]
fn value_evaluation_by_kind() {
    let mut diags = Vec::new();
    assert_eq!(parse_value(&int_expr(-7), &mut diags), Some(Value::Int(-7)));
    let ue = Expr {
        ty: Some(prim(PrimKind::UInt)),
        eval: Some(EvalResult::Integer(9)),
    };
    assert_eq!(parse_value(&ue, &mut diags), Some(Value::UInt(9)));
    let be = Expr {
        ty: Some(prim(PrimKind::Bool)),
        eval: Some(EvalResult::Integer(1)),
    };
    assert_eq!(parse_value(&be, &mut diags), Some(Value::UInt(1)));
    let fe = Expr {
        ty: Some(prim(PrimKind::Float)),
        eval: Some(EvalResult::Float {
            bits64: (1.5f64).to_bits(),
            bits32: (1.5f32).to_bits(),
        }),
    };
    assert_eq!(parse_value(&fe, &mut diags), Some(Value::Float((1.5f32).to_bits())));
    let de = Expr {
        ty: Some(prim(PrimKind::Double)),
        eval: Some(EvalResult::Float {
            bits64: (2.25f64).to_bits(),
            bits32: (2.25f32).to_bits(),
        }),
    };
    assert_eq!(parse_value(&de, &mut diags), Some(Value::Double((2.25f64).to_bits())));
    let se = Expr {
        ty: Some(prim(PrimKind::Int)),
        eval: Some(EvalResult::Str("hi".to_string())),
    };
    assert_eq!(parse_value(&se, &mut diags), Some(Value::Str("hi".to_string())));
    assert!(diags.is_empty());
}

#[test]
fn mismatched_evaluation_gives_one_diagnostic() {
    let mut diags = Vec::new();
    let e = Expr {
        ty: Some(prim(PrimKind::Float)),
        eval: Some(EvalResult::Integer(3)),
    };
    assert_eq!(parse_value(&e, &mut diags), None);
    assert_eq!(diags.len(), 1);
    assert!(matches!(diags[0], Diag::UnsupportedEval));
}

#[test]
fn unevaluable_expression_is_silent() {
    let mut diags = Vec::new();
    let e = Expr { ty: Some(prim(PrimKind::Int)), eval: None };
    assert_eq!(parse_value(&e, &mut diags), None);
    assert!(diags.is_empty());
}

fn enum_decl(name: Option<&str>, underlying: PrimKind, vals: &[(&str, i64, u64)]) -> Decl {
    decl(DeclKind::EnumDecl {
        name: name.map(|s| s.to_string()),
        underlying: prim(underlying),
        enumerators: vals
            .iter()
            .map(|(n, s, u)| EnumeratorDecl {
                name: n.to_string(),
                signed_value: *s,
                unsigned_value: *u,
            })
            .collect(),
    })
}

#[test]
fn named_enum_is_kept_with_variants() {
    let d = ns_decl(
        "root",
        vec![enum_decl(Some("Mode"), PrimKind::UInt, &[("A", 0, 0), ("B", 1, 1)])],
    );
    let (ns, diags) = walk(&d);
    let ns = ns.unwrap();
    assert!(diags.is_empty());
    assert_eq!(ns.enums.len(), 1);
    assert_eq!(ns.enums[0].name, "Mode");
    assert!(matches!(ns.enums[0].underlying.name, TypeName::UInt));
    assert_eq!(ns.enums[0].variants.len(), 2);
    assert_eq!(ns.enums[0].variants[1].name, "B");
    assert_eq!(ns.enums[0].variants[1].value, Value::UInt(1));
    assert!(ns.consts.is_empty());
}

// An enum named by the sentinel contributes zero enums and one constant per
// variant, each typed by the underlying type.
#[test]
fn sentinel_enum_unpacks_into_consts() {
    let d = ns_decl(
        "root",
        vec![enum_decl(None, PrimKind::Int, &[("X", 1, 1), ("Y", -2, 0)])],
    );
    let (ns, diags) = walk(&d);
    let ns = ns.unwrap();
    assert!(diags.is_empty());
    assert!(ns.enums.is_empty());
    assert_eq!(ns.consts.len(), 2);
    assert_eq!(ns.consts[0].name, "X");
    assert_eq!(ns.consts[0].value, Value::Int(1));
    assert!(matches!(ns.consts[0].ty.name, TypeName::Int));
    assert_eq!(ns.consts[1].name, "Y");
    assert_eq!(ns.consts[1].value, Value::Int(-2));
    assert!(matches!(ns.consts[1].ty.name, TypeName::Int));
}

#[test]
fn enum_named_const_explicitly_unpacks_too() {
    let d = ns_decl("root", vec![enum_decl(Some("const"), PrimKind::UInt, &[("K", 3, 3)])]);
    let (ns, _) = walk(&d);
    let ns = ns.unwrap();
    assert!(ns.enums.is_empty());
    assert_eq!(ns.consts.len(), 1);
    assert_eq!(ns.consts[0].value, Value::UInt(3));
}

fn fn_decl(name: &str, params: Vec<ParamDecl>, ret: TypeNode) -> Decl {
    decl(DeclKind::FunctionDecl {
        name: name.to_string(),
        is_method: false,
        params: Some(params),
        ret,
        is_virtual: false,
        is_static: false,
        is_const: false,
    })
}

fn param(name: &str, ty: TypeNode) -> ParamDecl {
    ParamDecl { name: name.to_string(), ty, default: None }
}

// A function with one unsupported parameter type is entirely absent, and
// exactly one diagnostic is emitted.
#[test]
fn unsupported_param_drops_function_with_one_diagnostic() {
    let d = ns_decl(
        "root",
        vec![fn_decl(
            "f",
            vec![
                param("a", prim(PrimKind::Int)),
                param("b", TypeNode::Other { is_const: false }),
            ],
            prim(PrimKind::Void),
        )],
    );
    let (ns, diags) = walk(&d);
    let ns = ns.unwrap();
    assert!(ns.functions.is_empty());
    assert_eq!(diags.len(), 1);
    assert!(matches!(&diags[0], Diag::UnsupportedParam(n) if n == "f"));
}

#[test]
fn void_return_is_absent_return_type() {
    let d = ns_decl(
        "root",
        vec![fn_decl("g", vec![param("x", prim(PrimKind::Double))], prim(PrimKind::Void))],
    );
    let (ns, diags) = walk(&d);
    let ns = ns.unwrap();
    assert!(diags.is_empty());
    assert_eq!(ns.functions.len(), 1);
    let f: &Function = &ns.functions[0];
    assert_eq!(f.name, "g");
    assert!(f.return_ty.is_none());
    assert_eq!(f.semantic, FunctionSemantic::Free);
    assert_eq!(f.access, Access::Public);
    assert_eq!(f.params.len(), 1);
    assert_eq!(f.params[0].name, "x");
    assert!(matches!(f.params[0].ty.name, TypeName::Double));
}

#[test]
fn parameter_defaults_are_evaluated() {
    let mut p = param("n", prim(PrimKind::Int));
    p.default = Some(int_expr(5));
    let d = ns_decl("root", vec![fn_decl("h", vec![p], prim(PrimKind::Int))]);
    let (ns, diags) = walk(&d);
    let ns = ns.unwrap();
    assert!(diags.is_empty());
    assert_eq!(ns.functions[0].params[0].default, Some(Value::Int(5)));
    assert!(matches!(ns.functions[0].return_ty.as_ref().unwrap().name, TypeName::Int));
}

// A private class member never appears; a protected member appears with
// protected access.
#[test]
fn class_member_accessibility() {
    let members = vec![
        member(
            Visibility::Private,
            DeclKind::Var {
                name: "hidden".to_string(),
                ty: prim(PrimKind::Int),
                const_qualified: false,
                storage: Storage::Other,
                init: None,
            },
        ),
        member(
            Visibility::Protected,
            DeclKind::Var {
                name: "prot".to_string(),
                ty: prim(PrimKind::Int),
                const_qualified: false,
                storage: Storage::Other,
                init: None,
            },
        ),
        member(
            Visibility::Public,
            DeclKind::Var {
                name: "stat".to_string(),
                ty: prim(PrimKind::Bool),
                const_qualified: false,
                storage: Storage::Static,
                init: None,
            },
        ),
        member(
            Visibility::Public,
            DeclKind::FunctionDecl {
                name: "update".to_string(),
                is_method: true,
                params: None,
                ret: prim(PrimKind::Void),
                is_virtual: true,
                is_static: false,
                is_const: true,
            },
        ),
    ];
    let d = ns_decl(
        "root",
        vec![decl(DeclKind::ClassDecl { name: "Node".to_string(), members })],
    );
    let (ns, diags) = walk(&d);
    let ns = ns.unwrap();
    assert!(diags.is_empty());
    assert_eq!(ns.classes.len(), 1);
    let c = &ns.classes[0];
    assert_eq!(c.name, "Node");
    assert_eq!(c.header, "/src/core/api.h");
    assert_eq!(c.fields.len(), 2);
    assert_eq!(c.fields[0].name, "prot");
    assert_eq!(c.fields[0].access, Access::Protected);
    assert!(!c.fields[0].is_static);
    assert_eq!(c.fields[1].name, "stat");
    assert_eq!(c.fields[1].access, Access::Public);
    assert!(c.fields[1].is_static);
    assert_eq!(c.methods.len(), 1);
    assert_eq!(c.methods[0].semantic, FunctionSemantic::Virtual);
    assert!(c.methods[0].is_const);
}

#[test]
fn extern_global_is_kept() {
    let d = ns_decl(
        "root",
        vec![decl(DeclKind::Var {
            name: "g_count".to_string(),
            ty: prim(PrimKind::Long),
            const_qualified: false,
            storage: Storage::Extern,
            init: None,
        })],
    );
    let (ns, diags) = walk(&d);
    let ns = ns.unwrap();
    assert!(diags.is_empty());
    assert_eq!(ns.globals.len(), 1);
    assert_eq!(ns.globals[0].name, "g_count");
    assert!(matches!(ns.globals[0].ty.name, TypeName::Long));
}

#[test]
fn system_and_vendor_locations_are_skipped() {
    let mut sys = const_var("SYS", 1);
    sys.loc.in_system_header = true;
    let mut cpp = const_var("IMPL", 2);
    cpp.loc = Loc {
        in_system_header: false,
        path: "/src/impl.cpp".to_string(),
        segments: vec!["src".to_string(), "impl.cpp".to_string()],
    };
    let mut vend = const_var("VEND", 3);
    vend.loc = Loc {
        in_system_header: false,
        path: "/src/thirdparty/lib.h".to_string(),
        segments: vec!["src".to_string(), "thirdparty".to_string(), "lib.h".to_string()],
    };
    let keep = const_var("KEEP", 4);
    let d = ns_decl("root", vec![sys, cpp, vend, keep]);
    let (ns, diags) = walk(&d);
    let ns = ns.unwrap();
    assert!(diags.is_empty());
    assert_eq!(ns.consts.len(), 1);
    assert_eq!(ns.consts[0].name, "KEEP");
    assert_eq!(ns.consts[0].value, Value::Int(4));
}

#[test]
fn anonymous_namespace_yields_nothing() {
    let d = decl(DeclKind::NamespaceDecl { name: None, children: vec![const_var("X", 1)] });
    let (ns, diags) = walk(&d);
    assert!(ns.is_none());
    assert!(diags.is_empty());
}

fn simple_ns(name: &str, consts: &[(&str, i64)]) -> Namespace {
    Namespace {
        name: name.to_string(),
        consts: consts
            .iter()
            .map(|(n, v)| Const {
                ty: TypeRef {
                    name: TypeName::Int,
                    semantic: TypeSemantic::Value,
                    is_const: true,
                },
                name: n.to_string(),
                value: Value::Int(*v),
            })
            .collect(),
        globals: vec![],
        enums: vec![],
        aliases: vec![],
        classes: vec![],
        functions: vec![],
        namespaces: vec![],
    }
}

// Merging namespace A (const X=1) with B (const X=2, const Y=3) keeps A's X
// and appends Y: first seen wins.
#[test]
fn merge_first_seen_wins() {
    let mut a = simple_ns("n", &[("X", 1)]);
    let b = simple_ns("n", &[("X", 2), ("Y", 3)]);
    merge_namespace(&mut a, b);
    assert_eq!(a.consts.len(), 2);
    assert_eq!(a.consts[0].name, "X");
    assert_eq!(a.consts[0].value, Value::Int(1));
    assert_eq!(a.consts[1].name, "Y");
    assert_eq!(a.consts[1].value, Value::Int(3));
}

// Merging a tree into an empty tree reproduces the tree.
#[test]
fn merge_into_empty_tree_round_trips() {
    let mut dst = simple_ns("", &[]);
    let mut src = simple_ns("", &[("A", 1), ("B", 2)]);
    src.namespaces.push(simple_ns("inner", &[("C", 3)]));
    merge_namespace(&mut dst, src);
    assert_eq!(dst.consts.len(), 2);
    assert_eq!(dst.consts[0].name, "A");
    assert_eq!(dst.consts[1].name, "B");
    assert_eq!(dst.namespaces.len(), 1);
    assert_eq!(dst.namespaces[0].name, "inner");
    assert_eq!(dst.namespaces[0].consts.len(), 1);
    assert_eq!(dst.namespaces[0].consts[0].name, "C");
    assert_eq!(dst.namespaces[0].consts[0].value, Value::Int(3));
}

#[test]
fn nested_namespaces_merge_recursively() {
    let mut a = simple_ns("", &[]);
    a.namespaces.push(simple_ns("n", &[("X", 1)]));
    let mut b = simple_ns("", &[]);
    b.namespaces.push(simple_ns("n", &[("X", 9), ("Y", 2)]));
    merge_namespace(&mut a, b);
    assert_eq!(a.namespaces.len(), 1);
    let n = &a.namespaces[0];
    assert_eq!(n.consts.len(), 2);
    assert_eq!(n.consts[0].value, Value::Int(1));
    assert_eq!(n.consts[1].name, "Y");
}

#[test]
fn same_named_sibling_namespaces_merge_while_walking() {
    let d = ns_decl(
        "root",
        vec![
            ns_decl("n", vec![const_var("A", 1)]),
            ns_decl("n", vec![const_var("B", 2)]),
        ],
    );
    let (ns, _) = walk(&d);
    let ns = ns.unwrap();
    assert_eq!(ns.namespaces.len(), 1);
    assert_eq!(ns.namespaces[0].consts.len(), 2);
}

#[test]
fn unsupported_alias_and_global_diagnostics() {
    let d = ns_decl(
        "root",
        vec![
            decl(DeclKind::AliasDecl {
                name: "bad_alias".to_string(),
                underlying: TypeNode::Other { is_const: false },
            }),
            decl(DeclKind::Var {
                name: "bad_global".to_string(),
                ty: TypeNode::Other { is_const: false },
                const_qualified: false,
                storage: Storage::Extern,
                init: None,
            }),
            decl(DeclKind::AliasDecl {
                name: "quiet".to_string(),
                underlying: TypeNode::Ignored,
            }),
        ],
    );
    let (ns, diags) = walk(&d);
    let ns = ns.unwrap();
    assert!(ns.aliases.is_empty());
    assert!(ns.globals.is_empty());
    assert_eq!(diags.len(), 2);
    assert!(matches!(&diags[0], Diag::UnsupportedAlias(n) if n == "bad_alias"));
    assert!(matches!(&diags[1], Diag::UnsupportedGlobal(n) if n == "bad_global"));
}

#[test]
fn alias_of_named_type_is_kept() {
    let d = ns_decl(
        "root",
        vec![decl(DeclKind::AliasDecl {
            name: "Id".to_string(),
            underlying: TypeNode::Named {
                kind: NamedKind::Typedef,
                name: "RID".to_string(),
                scopes: vec![Some("godot".to_string())],
                targs: None,
                is_const: false,
            },
        })],
    );
    let (ns, diags) = walk(&d);
    let ns = ns.unwrap();
    assert!(diags.is_empty());
    assert_eq!(ns.aliases.len(), 1);
    assert_eq!(ns.aliases[0].name, "Id");
    assert!(tn_eq(
        &ns.aliases[0].ty.name,
        &TypeName::TypeName(vec!["godot".to_string(), "RID".to_string()])
    ));
}

#[test]
fn malformed_enum_fails_the_check() {
    let d = ns_decl("root", vec![enum_decl(Some("Bad"), PrimKind::Float, &[("A", 0, 0)])]);
    assert!(!check_decl(&d));
}

// End to end: two translation units declaring the same namespace unify into
// one tree with one constant and one function.
#[test]
fn two_translation_units_unify() {
    let tu1 = ns_decl("tu1.h", vec![ns_decl("N", vec![const_var("K", 5)])]);
    let tu2 = ns_decl(
        "tu2.h",
        vec![ns_decl(
            "N",
            vec![const_var("K", 5), fn_decl("f", vec![], prim(PrimKind::Void))],
        )],
    );
    let mut api = simple_ns("", &[]);
    for tu in [&tu1, &tu2] {
        let (ns, diags) = walk(tu);
        assert!(diags.is_empty());
        let mut unit_root = ns.unwrap();
        unit_root.name = String::new();
        merge_namespace(&mut api, unit_root);
    }
    assert_eq!(api.namespaces.len(), 1);
    let n = &api.namespaces[0];
    assert_eq!(n.name, "N");
    assert_eq!(n.consts.len(), 1);
    assert_eq!(n.consts[0].name, "K");
    assert_eq!(n.consts[0].value, Value::Int(5));
    assert_eq!(n.functions.len(), 1);
    assert_eq!(n.functions[0].name, "f");
}
