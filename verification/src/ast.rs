//! The abstract syntax tree of the demo language, and its mathematical model.
use vstd::prelude::*;
use crate::traversal::{
    dot_ast_of, generate_traversal, item_nodes, EnumDecl, FieldsDecl, GenericArg, ItemDecl, NamedField, PathArgs,
    SegmentDecl, StructDecl, TypeDecl, VariantDecl,
};

verus! {

/// The binary operators of the language.
#[derive(Debug, PartialEq, Eq, Structural, Clone, Copy)]
pub enum DyOpType {
    Add,
    Sub,
    Mul,
    Div,
    Mod,
    Lt,
    Le,
    Gt,
    Ge,
    Eq,
    Ne,
    And,
    Or,
}

/// A program: a list of assignments, in order.
#[derive(Debug, PartialEq)]
pub struct Program(pub Vec<Assign>);

/// `varlet = expr`
#[derive(Debug, PartialEq)]
pub struct Assign {
    pub varlet: String,
    pub expr: Expr,
}

/// An expression.
#[derive(Debug, PartialEq)]
pub enum Expr {
    Constant(Constant),
    Id(String),
    DyOp(DyOp),
}

/// A binary operation `left op right`.
#[derive(Debug, PartialEq)]
pub struct DyOp {
    pub left: Box<Expr>,
    pub op: DyOpType,
    pub right: Box<Expr>,
}

/// A literal. A floating-point literal is held as the bit pattern of its
/// `f64` value (`f64::to_bits`), so that it is carried through unchanged.
#[derive(Debug, PartialEq, Eq, Structural, Clone, Copy)]
pub enum Constant {
    Num(isize),
    Float(u64),
    Bool(bool),
}

/// Model of an expression: identifiers are character sequences.
pub enum ExprV {
    Constant(Constant),
    Id(Seq<char>),
    DyOp(Box<ExprV>, DyOpType, Box<ExprV>),
}

/// Model of an assignment.
pub struct AssignV {
    pub varlet: Seq<char>,
    pub expr: ExprV,
}

pub open spec fn expr_view(e: Expr) -> ExprV
    decreases e,
{
    match e {
        Expr::Constant(c) => ExprV::Constant(c),
        Expr::Id(s) => ExprV::Id(s@),
        Expr::DyOp(d) => ExprV::DyOp(
            Box::new(expr_view(*d.left)),
            d.op,
            Box::new(expr_view(*d.right)),
        ),
    }
}

impl View for Expr {
    type V = ExprV;

    open spec fn view(&self) -> ExprV {
        expr_view(*self)
    }
}

impl View for DyOp {
    type V = ExprV;

    /// A binary operation is viewed as the expression that it forms.
    open spec fn view(&self) -> ExprV {
        ExprV::DyOp(Box::new(expr_view(*self.left)), self.op, Box::new(expr_view(*self.right)))
    }
}

impl View for Assign {
    type V = AssignV;

    open spec fn view(&self) -> AssignV {
        AssignV { varlet: self.varlet@, expr: self.expr@ }
    }
}

impl View for Program {
    type V = Seq<AssignV>;

    open spec fn view(&self) -> Seq<AssignV> {
        self.0@.map_values(|a: Assign| a@)
    }
}


// ---------------------------------------------------------------------------
// The declarations of this module, as the traversal generator reads them
// ---------------------------------------------------------------------------

fn name(s: &str) -> (r: String)
    ensures
        r@ == s@,
{
    String::from_str(s)
}

/// A type named by one identifier, without arguments.
fn plain(s: &str) -> (t: TypeDecl)
    ensures
        t matches TypeDecl::Path(segs) && segs@.len() == 1 && segs@[0].ident@ == s@ && segs@[0].args is Bare,
{
    let mut segs: Vec<SegmentDecl> = Vec::new();
    segs.push(SegmentDecl { ident: name(s), args: PathArgs::Bare });
    TypeDecl::Path(segs)
}

/// `s<inner>`.
fn generic(s: &str, inner: &str) -> (t: TypeDecl)
    ensures
        generic_type(t, s@, inner@),
{
    let mut args: Vec<GenericArg> = Vec::new();
    args.push(GenericArg::Type(plain(inner)));
    let mut segs: Vec<SegmentDecl> = Vec::new();
    segs.push(SegmentDecl { ident: name(s), args: PathArgs::AngleBracketed(args) });
    TypeDecl::Path(segs)
}

fn unit_variant(s: &str) -> (v: VariantDecl)
    ensures
        v.ident@ == s@,
        v.fields is Unit,
{
    VariantDecl { ident: name(s), fields: FieldsDecl::Unit }
}

fn one_field_variant(s: &str, ty: TypeDecl) -> (v: VariantDecl)
    ensures
        v.ident@ == s@,
        v.fields matches FieldsDecl::Unnamed(ts) && ts@ == seq![ty],
{
    let mut ts: Vec<TypeDecl> = Vec::new();
    ts.push(ty);
    VariantDecl { ident: name(s), fields: FieldsDecl::Unnamed(ts) }
}

/// `t` is the type `name`, a single identifier without arguments.
pub open spec fn plain_type(t: TypeDecl, name: Seq<char>) -> bool {
    t matches TypeDecl::Path(segs) && segs@.len() == 1 && segs@[0].ident@ == name && segs@[0].args is Bare
}

/// `t` is the type `name<inner>`.
pub open spec fn generic_type(t: TypeDecl, name: Seq<char>, inner: Seq<char>) -> bool {
    &&& t matches TypeDecl::Path(segs)
    &&& segs@.len() == 1
    &&& segs@[0].ident@ == name
    &&& segs@[0].args matches PathArgs::AngleBracketed(args)
    &&& args@.len() == 1
    &&& args@[0] matches GenericArg::Type(it)
    &&& plain_type(it, inner)
}

/// Variants without fields, with the given names.
pub open spec fn unit_variants(vs: Seq<VariantDecl>, names: Seq<Seq<char>>) -> bool {
    &&& vs.len() == names.len()
    &&& forall|i: int| 0 <= i < vs.len() ==> #[trigger] vs[i].ident@ == names[i] && vs[i].fields is Unit
}

/// Variants of one positional field each, with the given names and the
/// given plain field types.
pub open spec fn one_field_variants(vs: Seq<VariantDecl>, names: Seq<Seq<char>>, types: Seq<Seq<char>>) -> bool {
    &&& vs.len() == names.len()
    &&& vs.len() == types.len()
    &&& forall|i: int|
        0 <= i < vs.len() ==> {
            &&& #[trigger] vs[i].ident@ == names[i]
            &&& vs[i].fields matches FieldsDecl::Unnamed(ts)
            &&& ts@.len() == 1
            &&& plain_type(ts@[0], types[i])
        }
}

/// `struct Program(Vec<Assign>)`
pub open spec fn is_program_decl(it: ItemDecl) -> bool {
    match it {
        ItemDecl::Struct(s) => s.ident@ == "Program"@ && match s.fields {
            FieldsDecl::Unnamed(ts) => ts@.len() == 1 && generic_type(ts@[0], "Vec"@, "Assign"@),
            _ => false,
        },
        _ => false,
    }
}

/// `struct Assign { varlet: String, expr: Expr }`
pub open spec fn is_assign_decl(it: ItemDecl) -> bool {
    match it {
        ItemDecl::Struct(s) => s.ident@ == "Assign"@ && match s.fields {
            FieldsDecl::Named(fs) => {
                &&& fs@.len() == 2
                &&& fs@[0].ident@ == "varlet"@
                &&& plain_type(fs@[0].ty, "String"@)
                &&& fs@[1].ident@ == "expr"@
                &&& plain_type(fs@[1].ty, "Expr"@)
            },
            _ => false,
        },
        _ => false,
    }
}

/// `struct DyOp { left: Box<Expr>, op: DyOpType, right: Box<Expr> }`
pub open spec fn is_dyop_decl(it: ItemDecl) -> bool {
    match it {
        ItemDecl::Struct(s) => s.ident@ == "DyOp"@ && match s.fields {
            FieldsDecl::Named(fs) => {
                &&& fs@.len() == 3
                &&& fs@[0].ident@ == "left"@
                &&& generic_type(fs@[0].ty, "Box"@, "Expr"@)
                &&& fs@[1].ident@ == "op"@
                &&& plain_type(fs@[1].ty, "DyOpType"@)
                &&& fs@[2].ident@ == "right"@
                &&& generic_type(fs@[2].ty, "Box"@, "Expr"@)
            },
            _ => false,
        },
        _ => false,
    }
}

/// The declarations of this module's types, field by field.
pub open spec fn is_ast_decls(items: Seq<ItemDecl>) -> bool {
    &&& items.len() == 6
    &&& items[0] matches ItemDecl::Enum(e) && e.ident@ == "DyOpType"@ && unit_variants(
        e.variants@,
        seq!["Add"@, "Sub"@, "Mul"@, "Div"@, "Mod"@, "Lt"@, "Le"@, "Gt"@, "Ge"@, "Eq"@, "Ne"@, "And"@, "Or"@],
    )
    &&& is_program_decl(items[1])
    &&& is_assign_decl(items[2])
    &&& items[3] matches ItemDecl::Enum(e) && e.ident@ == "Expr"@ && one_field_variants(
        e.variants@,
        seq!["Constant"@, "Id"@, "DyOp"@],
        seq!["Constant"@, "String"@, "DyOp"@],
    )
    &&& is_dyop_decl(items[4])
    &&& items[5] matches ItemDecl::Enum(e) && e.ident@ == "Constant"@ && one_field_variants(
        e.variants@,
        seq!["Num"@, "Float"@, "Bool"@],
        seq!["isize"@, "f64"@, "bool"@],
    )
}

/// The node types of this module, in the order of their declarations.
pub open spec fn ast_node_names() -> Seq<Seq<char>> {
    seq!["DyOpType"@, "Program"@, "Assign"@, "Expr"@, "DyOp"@, "Constant"@]
}

/// The declarations of this module's types, as the traversal generator
/// reads them: `DyOpType`, `Program`, `Assign`, `Expr`, `DyOp`, `Constant`.
pub fn ast_items() -> (items: Vec<ItemDecl>)
    ensures
        is_ast_decls(items@),
        item_nodes(items@) == ast_node_names(),
{
    let mut items: Vec<ItemDecl> = Vec::new();

    let mut ops: Vec<VariantDecl> = Vec::new();
    ops.push(unit_variant("Add"));
    ops.push(unit_variant("Sub"));
    ops.push(unit_variant("Mul"));
    ops.push(unit_variant("Div"));
    ops.push(unit_variant("Mod"));
    ops.push(unit_variant("Lt"));
    ops.push(unit_variant("Le"));
    ops.push(unit_variant("Gt"));
    ops.push(unit_variant("Ge"));
    ops.push(unit_variant("Eq"));
    ops.push(unit_variant("Ne"));
    ops.push(unit_variant("And"));
    ops.push(unit_variant("Or"));
    assert(unit_variants(
        ops@,
        seq!["Add"@, "Sub"@, "Mul"@, "Div"@, "Mod"@, "Lt"@, "Le"@, "Gt"@, "Ge"@, "Eq"@, "Ne"@, "And"@, "Or"@],
    ));
    items.push(ItemDecl::Enum(EnumDecl { ident: name("DyOpType"), variants: ops }));

    let mut program_fields: Vec<TypeDecl> = Vec::new();
    program_fields.push(generic("Vec", "Assign"));
    items.push(ItemDecl::Struct(StructDecl { ident: name("Program"), fields: FieldsDecl::Unnamed(program_fields) }));
    assert(is_program_decl(items@[1]));

    let mut assign_fields: Vec<NamedField> = Vec::new();
    assign_fields.push(NamedField { ident: name("varlet"), ty: plain("String") });
    assign_fields.push(NamedField { ident: name("expr"), ty: plain("Expr") });
    items.push(ItemDecl::Struct(StructDecl { ident: name("Assign"), fields: FieldsDecl::Named(assign_fields) }));
    assert(is_assign_decl(items@[2]));

    let mut expr_variants: Vec<VariantDecl> = Vec::new();
    expr_variants.push(one_field_variant("Constant", plain("Constant")));
    expr_variants.push(one_field_variant("Id", plain("String")));
    expr_variants.push(one_field_variant("DyOp", plain("DyOp")));
    assert(one_field_variants(
        expr_variants@,
        seq!["Constant"@, "Id"@, "DyOp"@],
        seq!["Constant"@, "String"@, "DyOp"@],
    ));
    items.push(ItemDecl::Enum(EnumDecl { ident: name("Expr"), variants: expr_variants }));

    let mut dyop_fields: Vec<NamedField> = Vec::new();
    dyop_fields.push(NamedField { ident: name("left"), ty: generic("Box", "Expr") });
    dyop_fields.push(NamedField { ident: name("op"), ty: plain("DyOpType") });
    dyop_fields.push(NamedField { ident: name("right"), ty: generic("Box", "Expr") });
    items.push(ItemDecl::Struct(StructDecl { ident: name("DyOp"), fields: FieldsDecl::Named(dyop_fields) }));
    assert(is_dyop_decl(items@[4]));

    let mut constant_variants: Vec<VariantDecl> = Vec::new();
    constant_variants.push(one_field_variant("Num", plain("isize")));
    constant_variants.push(one_field_variant("Float", plain("f64")));
    constant_variants.push(one_field_variant("Bool", plain("bool")));
    assert(one_field_variants(
        constant_variants@,
        seq!["Num"@, "Float"@, "Bool"@],
        seq!["isize"@, "f64"@, "bool"@],
    ));
    items.push(ItemDecl::Enum(EnumDecl { ident: name("Constant"), variants: constant_variants }));

    proof {
        let it = items@;
        assert(item_nodes(Seq::<ItemDecl>::empty()) =~= Seq::<Seq<char>>::empty());
        assert(it.take(1).drop_last() =~= Seq::<ItemDecl>::empty());
        assert(it.take(2).drop_last() =~= it.take(1));
        assert(it.take(3).drop_last() =~= it.take(2));
        assert(it.take(4).drop_last() =~= it.take(3));
        assert(it.take(5).drop_last() =~= it.take(4));
        assert(it.drop_last() =~= it.take(5));
        assert(it.take(1).last() == it[0]);
        assert(it.take(2).last() == it[1]);
        assert(it.take(3).last() == it[2]);
        assert(it.take(4).last() == it[3]);
        assert(it.take(5).last() == it[4]);
        assert(it.last() == it[5]);
        assert(item_nodes(it.take(1)) =~= seq!["DyOpType"@]);
        assert(item_nodes(it.take(2)) =~= seq!["DyOpType"@, "Program"@]);
        assert(item_nodes(it.take(3)) =~= seq!["DyOpType"@, "Program"@, "Assign"@]);
        assert(item_nodes(it.take(4)) =~= seq!["DyOpType"@, "Program"@, "Assign"@, "Expr"@]);
        assert(item_nodes(it.take(5)) =~= seq!["DyOpType"@, "Program"@, "Assign"@, "Expr"@, "DyOp"@]);
        assert(item_nodes(it) =~= ast_node_names());
    }
    items
}

/// The module's types drawn as a DOT graph, as the traversal generator
/// draws them from their declarations.
pub fn dot_ast() -> (r: String)
    ensures
        exists|items: Seq<ItemDecl>| is_ast_decls(items) && r@ == dot_ast_of(items),
{
    let items = ast_items();
    let plan = generate_traversal(&items);
    plan.dot_ast
}

} // verus!
