use coconut::ast::{ast_items, dot_ast};
use coconut::traversal::{
    dot_ast_enum, dot_ast_fields, dot_ast_struct, dot_ast_type, generate_traversal, impl_enum_trav,
    impl_struct_trav, is_travable_type, Bindings, EnumDecl, FieldRef, FieldsDecl, GenericArg, ItemDecl,
    NamedField, PathArgs, SegmentDecl, StructDecl, TravArm, TravImpl, TypeDecl, VariantDecl,
};

fn seg(name: &str, args: Vec<TypeDecl>) -> SegmentDecl {
    SegmentDecl {
        ident: name.to_string(),
        args: if args.is_empty() {
            PathArgs::Bare
        } else {
            PathArgs::AngleBracketed(args.into_iter().map(GenericArg::Type).collect())
        },
    }
}

fn ty(name: &str) -> TypeDecl {
    TypeDecl::Path(vec![seg(name, vec![])])
}

fn gen(name: &str, args: Vec<TypeDecl>) -> TypeDecl {
    TypeDecl::Path(vec![seg(name, args)])
}

fn nodes(names: &[&str]) -> Vec<String> {
    names.iter().map(|s| s.to_string()).collect()
}

#[test]
fn travable_node_and_containers() {
    let n = nodes(&["Expr", "Stmt"]);
    assert!(is_travable_type(&ty("Expr"), &n));
    assert!(!is_travable_type(&ty("String"), &n));
    assert!(is_travable_type(&gen("Box", vec![ty("Expr")]), &n));
    assert!(is_travable_type(&gen("Option", vec![gen("Vec", vec![ty("Stmt")])]), &n));
    assert!(is_travable_type(&gen("VecDeque", vec![ty("Stmt")]), &n));
    assert!(is_travable_type(&gen("LinkedList", vec![ty("Stmt")]), &n));
    assert!(!is_travable_type(&gen("Vec", vec![ty("u8")]), &n));
    assert!(is_travable_type(&gen("HashMap", vec![ty("String"), ty("Expr")]), &n));
    assert!(is_travable_type(&gen("BTreeMap", vec![ty("String"), ty("Expr")]), &n));
    assert!(!is_travable_type(&gen("HashMap", vec![ty("Expr"), ty("String")]), &n));
    assert!(!is_travable_type(&gen("NoTrav", vec![ty("Expr")]), &n));
    assert!(!is_travable_type(&TypeDecl::Other, &n));
}

#[test]
fn travable_paths() {
    let n = nodes(&["Expr"]);
    // A node type named through a longer path is not recognised ...
    let qualified = TypeDecl::Path(vec![seg("ast", vec![]), seg("Expr", vec![])]);
    assert!(!is_travable_type(&qualified, &n));
    // ... but a container named through a longer path is.
    let boxed = TypeDecl::Path(vec![seg("std", vec![]), seg("boxed", vec![]), seg("Box", vec![ty("Expr")])]);
    assert!(is_travable_type(&boxed, &n));
    // A map with one argument, or a container whose argument is not a type.
    assert!(!is_travable_type(&gen("HashMap", vec![ty("Expr")]), &n));
    let lifetime = TypeDecl::Path(vec![SegmentDecl {
        ident: "Box".to_string(),
        args: PathArgs::AngleBracketed(vec![GenericArg::Other, GenericArg::Type(ty("Expr"))]),
    }]);
    assert!(!is_travable_type(&lifetime, &n));
    let paren = TypeDecl::Path(vec![SegmentDecl { ident: "Box".to_string(), args: PathArgs::Parenthesized }]);
    assert!(!is_travable_type(&paren, &n));
    assert!(!is_travable_type(&TypeDecl::Path(vec![]), &n));
}

#[test]
fn struct_traversal_named_and_unnamed() {
    let n = nodes(&["Expr", "Assign"]);
    let s = StructDecl {
        ident: "Assign".to_string(),
        fields: FieldsDecl::Named(vec![
            NamedField { ident: "varlet".to_string(), ty: ty("String") },
            NamedField { ident: "expr".to_string(), ty: ty("Expr") },
        ]),
    };
    let t = impl_struct_trav(&s, &n);
    assert_eq!(t.name, "Assign");
    assert_eq!(t.travs, vec![FieldRef::Named("expr".to_string())]);

    let p = StructDecl {
        ident: "Pair".to_string(),
        fields: FieldsDecl::Unnamed(vec![ty("u8"), gen("Vec", vec![ty("Assign")]), ty("Expr")]),
    };
    let t = impl_struct_trav(&p, &n);
    assert_eq!(t.travs, vec![FieldRef::Index(1), FieldRef::Index(2)]);

    let u = StructDecl { ident: "Unit".to_string(), fields: FieldsDecl::Unit };
    assert_eq!(impl_struct_trav(&u, &n).travs, vec![]);
}

#[test]
fn enum_traversal_arms() {
    let n = nodes(&["Expr", "Constant"]);
    let e = EnumDecl {
        ident: "Expr".to_string(),
        variants: vec![
            VariantDecl { ident: "Constant".to_string(), fields: FieldsDecl::Unnamed(vec![ty("Constant")]) },
            VariantDecl { ident: "Id".to_string(), fields: FieldsDecl::Unnamed(vec![ty("String")]) },
            VariantDecl {
                ident: "Bin".to_string(),
                fields: FieldsDecl::Named(vec![
                    NamedField { ident: "l".to_string(), ty: gen("Box", vec![ty("Expr")]) },
                    NamedField { ident: "name".to_string(), ty: ty("String") },
                ]),
            },
            VariantDecl { ident: "Nil".to_string(), fields: FieldsDecl::Unit },
        ],
    };
    let t = impl_enum_trav(&e, &n);
    assert_eq!(t.name, "Expr");
    assert_eq!(
        t.arms,
        vec![
            TravArm { variant: "Constant".to_string(), bindings: Bindings::Unnamed(1), travs: vec![FieldRef::Index(0)] },
            TravArm { variant: "Id".to_string(), bindings: Bindings::Unnamed(1), travs: vec![] },
            TravArm {
                variant: "Bin".to_string(),
                bindings: Bindings::Named(vec!["l".to_string(), "name".to_string()]),
                travs: vec![FieldRef::Named("l".to_string())],
            },
            TravArm { variant: "Nil".to_string(), bindings: Bindings::Unit, travs: vec![] },
        ]
    );
}

#[test]
fn dot_type_edges() {
    let n = nodes(&["Expr"]);
    let mut out = String::new();
    dot_ast_type(&ty("Expr"), &n, "A", "f", "", true, false, &mut out);
    assert_eq!(out, "A -> Expr [label=\"f\"];");

    let mut out = String::new();
    dot_ast_type(&gen("Option", vec![ty("Expr")]), &n, "A", "f", "", true, false, &mut out);
    assert_eq!(out, "A -> Expr [label=\"f?\",style=dotted];");

    let mut out = String::new();
    dot_ast_type(&gen("Vec", vec![ty("Expr")]), &n, "A", "f", ",color=darkblue", true, false, &mut out);
    assert_eq!(out, "A -> Expr [label=\"f*\",color=darkblue,style=bold];");

    let mut out = String::new();
    dot_ast_type(&gen("Box", vec![ty("Expr")]), &n, "A", "f", "", true, true, &mut out);
    assert_eq!(out, "A -> Expr [label=\"f+\",style=bold];");

    let mut out = String::new();
    dot_ast_type(&gen("BTreeMap", vec![ty("String"), ty("Expr")]), &n, "A", "m", "", true, false, &mut out);
    assert_eq!(out, "A -> Expr [label=\"m*\",style=bold];");

    let mut out = String::from("x");
    dot_ast_type(&ty("String"), &n, "A", "f", "", true, false, &mut out);
    assert_eq!(out, "x");
}

#[test]
fn dot_label_is_debug_quoted() {
    let n = nodes(&["Expr"]);
    let mut out = String::new();
    dot_ast_type(&ty("Expr"), &n, "A", "a\"b\\c", "", true, false, &mut out);
    assert_eq!(out, "A -> Expr [label=\"a\\\"b\\\\c\"];");
}

#[test]
fn dot_fields_labels() {
    let n = nodes(&["Expr"]);
    let mut out = String::new();
    dot_ast_fields(&FieldsDecl::Unnamed(vec![ty("Expr")]), &n, "E", "V:", "", &mut out);
    assert_eq!(out, "E -> Expr [label=\"V\"];");

    let mut out = String::new();
    let many: Vec<TypeDecl> = (0..12).map(|i| if i == 0 || i == 11 { ty("Expr") } else { ty("u8") }).collect();
    dot_ast_fields(&FieldsDecl::Unnamed(many), &n, "E", "V:", "", &mut out);
    assert_eq!(out, "E -> Expr [label=\"V:0\"];E -> Expr [label=\"V:11\"];");

    let mut out = String::new();
    dot_ast_fields(
        &FieldsDecl::Named(vec![NamedField { ident: "e".to_string(), ty: ty("Expr") }]),
        &n,
        "S",
        "",
        "",
        &mut out,
    );
    assert_eq!(out, "S -> Expr [label=\"e\"];");
}

#[test]
fn dot_struct_and_enum() {
    let n = nodes(&["Expr", "S"]);
    let mut out = String::new();
    dot_ast_struct(&StructDecl { ident: "S".to_string(), fields: FieldsDecl::Unnamed(vec![ty("Expr")]) }, &n, &mut out);
    assert_eq!(out, "S;S -> Expr [label=\"\"];");

    let mut out = String::new();
    dot_ast_enum(
        &EnumDecl {
            ident: "Expr".to_string(),
            variants: vec![
                VariantDecl { ident: "Pair".to_string(), fields: FieldsDecl::Unnamed(vec![ty("S"), ty("S")]) },
                VariantDecl { ident: "Unit".to_string(), fields: FieldsDecl::Unit },
            ],
        },
        &n,
        &mut out,
    );
    assert_eq!(
        out,
        "Expr [color=lightblue,style=filled];Expr -> S [label=\"Pair:0\",color=darkblue];Expr -> S [label=\"Pair:1\",color=darkblue];"
    );
}

#[test]
fn dot_of_the_ast_module() {
    let expected = [
        "digraph G {",
        "DyOpType [color=lightblue,style=filled];",
        "Program;Program -> Assign [label=\"*\",style=bold];",
        "Assign;Assign -> Expr [label=\"expr\"];",
        "Expr [color=lightblue,style=filled];",
        "Expr -> Constant [label=\"Constant\",color=darkblue];",
        "Expr -> DyOp [label=\"DyOp\",color=darkblue];",
        "DyOp;DyOp -> Expr [label=\"left\"];DyOp -> DyOpType [label=\"op\"];DyOp -> Expr [label=\"right\"];",
        "Constant [color=lightblue,style=filled];",
        "}",
    ]
    .join("");
    assert_eq!(dot_ast(), expected);
}

#[test]
fn generate_for_the_ast_module() {
    let plan = generate_traversal(&ast_items());
    assert_eq!(plan.nodes, nodes(&["DyOpType", "Program", "Assign", "Expr", "DyOp", "Constant"]));
    assert_eq!(plan.impls.len(), 6);
    match &plan.impls[1] {
        TravImpl::Struct(s) => {
            assert_eq!(s.name, "Program");
            assert_eq!(s.travs, vec![FieldRef::Index(0)]);
        }
        _ => panic!("Program is a struct"),
    }
    match &plan.impls[4] {
        TravImpl::Struct(s) => assert_eq!(
            s.travs,
            vec![FieldRef::Named("left".to_string()), FieldRef::Named("op".to_string()), FieldRef::Named("right".to_string())]
        ),
        _ => panic!("DyOp is a struct"),
    }
    match &plan.impls[3] {
        TravImpl::Enum(e) => {
            assert_eq!(e.arms.len(), 3);
            assert_eq!(e.arms[0].travs, vec![FieldRef::Index(0)]);
            assert_eq!(e.arms[1].travs, vec![]);
            assert_eq!(e.arms[2].travs, vec![FieldRef::Index(0)]);
        }
        _ => panic!("Expr is an enum"),
    }
    match &plan.impls[5] {
        TravImpl::Enum(e) => assert!(e.arms.iter().all(|a| a.travs.is_empty())),
        _ => panic!("Constant is an enum"),
    }
}

#[test]
fn generate_skips_other_items() {
    let items = vec![
        ItemDecl::Other,
        ItemDecl::Struct(StructDecl { ident: "A".to_string(), fields: FieldsDecl::Named(vec![NamedField { ident: "b".to_string(), ty: gen("Option", vec![ty("B")]) }]) }),
        ItemDecl::Other,
        ItemDecl::Enum(EnumDecl { ident: "B".to_string(), variants: vec![] }),
    ];
    let plan = generate_traversal(&items);
    assert_eq!(plan.nodes, nodes(&["A", "B"]));
    assert_eq!(plan.dot_ast, "digraph G {A;A -> B [label=\"b?\",style=dotted];B [color=lightblue,style=filled];}");
    assert_eq!(plan.impls.len(), 2);
}

#[test]
fn generate_empty_module() {
    let plan = generate_traversal(&vec![]);
    assert!(plan.nodes.is_empty());
    assert!(plan.impls.is_empty());
    assert_eq!(plan.dot_ast, "digraph G {}");
}

#[test]
fn impls_line_up_with_nodes() {
    let plan = generate_traversal(&ast_items());
    let names: Vec<String> = plan
        .impls
        .iter()
        .map(|t| match t {
            TravImpl::Struct(s) => s.name.clone(),
            TravImpl::Enum(e) => e.name.clone(),
        })
        .collect();
    assert_eq!(names, plan.nodes);
}

#[test]
fn edges_exactly_for_traversed_fields() {
    let n = nodes(&["Expr"]);
    let types = vec![
        ty("Expr"),
        ty("String"),
        gen("Box", vec![ty("Expr")]),
        gen("Option", vec![ty("u8")]),
        gen("Vec", vec![gen("Option", vec![ty("Expr")])]),
        gen("HashMap", vec![ty("Expr"), ty("u8")]),
        gen("HashMap", vec![ty("u8"), ty("Expr")]),
        TypeDecl::Path(vec![seg("a", vec![]), seg("Expr", vec![])]),
        TypeDecl::Other,
    ];
    for t in &types {
        let mut out = String::new();
        dot_ast_type(t, &n, "S", "f", "", true, false, &mut out);
        assert_eq!(!out.is_empty(), is_travable_type(t, &n));
        let edges = out.matches(" -> ").count();
        assert_eq!(edges, if is_travable_type(t, &n) { 1 } else { 0 });
    }
}
