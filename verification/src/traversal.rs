//! The traversal generator: given the structs and enums of an AST module, it
//! decides which fields a traversal descends into, which match arms the
//! traversal of an enum has, and draws the module as a graph in DOT.
use vstd::prelude::*;

verus! {

// ---------------------------------------------------------------------------
// The declarations the generator reads
// ---------------------------------------------------------------------------

/// A field's type as the generator sees it: a path such as
/// `std::collections::HashMap<String, Expr>`, or any other type.
#[derive(Debug, PartialEq)]
pub enum TypeDecl {
    Path(Vec<SegmentDecl>),
    Other,
}

/// One segment of a type path: its identifier and its generic arguments.
#[derive(Debug, PartialEq)]
pub struct SegmentDecl {
    pub ident: String,
    pub args: PathArgs,
}

/// The arguments of a path segment.
#[derive(Debug, PartialEq)]
pub enum PathArgs {
    /// No generic arguments.
    Bare,
    AngleBracketed(Vec<GenericArg>),
    Parenthesized,
}

/// A generic argument: a type, or anything else (a lifetime, a constant, ...).
#[derive(Debug, PartialEq)]
pub enum GenericArg {
    Type(TypeDecl),
    Other,
}

/// A named field.
#[derive(Debug, PartialEq)]
pub struct NamedField {
    pub ident: String,
    pub ty: TypeDecl,
}

/// The fields of a struct or of an enum variant.
#[derive(Debug, PartialEq)]
pub enum FieldsDecl {
    Named(Vec<NamedField>),
    Unnamed(Vec<TypeDecl>),
    Unit,
}

#[derive(Debug, PartialEq)]
pub struct StructDecl {
    pub ident: String,
    pub fields: FieldsDecl,
}

#[derive(Debug, PartialEq)]
pub struct VariantDecl {
    pub ident: String,
    pub fields: FieldsDecl,
}

#[derive(Debug, PartialEq)]
pub struct EnumDecl {
    pub ident: String,
    pub variants: Vec<VariantDecl>,
}

/// An item of the module: a struct, an enum, or anything else, which the
/// generator passes over.
#[derive(Debug, PartialEq)]
pub enum ItemDecl {
    Struct(StructDecl),
    Enum(EnumDecl),
    Other,
}

/// The names of a list of node types.
pub open spec fn names_view(v: Seq<String>) -> Seq<Seq<char>> {
    v.map_values(|s: String| s@)
}

/// Containers whose first type argument is traversed: `Box`, `Option`,
/// `Vec`, `VecDeque`, `LinkedList`.
pub open spec fn is_seq_container(s: Seq<char>) -> bool {
    s == "Box"@ || s == "Option"@ || s == "Vec"@ || s == "VecDeque"@ || s == "LinkedList"@
}

/// Maps whose second type argument (the value) is traversed.
pub open spec fn is_map_container(s: Seq<char>) -> bool {
    s == "HashMap"@ || s == "BTreeMap"@
}

/// Whether a value of type `ty` holds nodes that the traversal visits: a
/// single-segment path naming a node type, or one of the containers above
/// around such a type.
pub open spec fn travable(ty: TypeDecl, nodes: Seq<Seq<char>>) -> bool
    decreases ty,
{
    match ty {
        TypeDecl::Other => false,
        TypeDecl::Path(segs) => {
            if segs@.len() == 1 && nodes.contains(segs@[0].ident@) {
                true
            } else if segs@.len() == 0 {
                false
            } else {
                let seg = segs@[segs@.len() - 1];
                if is_seq_container(seg.ident@) {
                    match seg.args {
                        PathArgs::AngleBracketed(args) => if args@.len() > 0 {
                            match args@[0] {
                                GenericArg::Type(t) => travable(t, nodes),
                                GenericArg::Other => false,
                            }
                        } else {
                            false
                        },
                        _ => false,
                    }
                } else if is_map_container(seg.ident@) {
                    match seg.args {
                        PathArgs::AngleBracketed(args) => if args@.len() >= 2 {
                            match args@[1] {
                                GenericArg::Type(t) => travable(t, nodes),
                                GenericArg::Other => false,
                            }
                        } else {
                            false
                        },
                        _ => false,
                    }
                } else {
                    false
                }
            }
        },
    }
}

fn ident_is(s: &String, lit: &str) -> (b: bool)
    ensures
        b == (s@ == lit@),
{
    let l = String::from_str(lit);
    *s == l
}

fn contains_name(nodes: &Vec<String>, s: &String) -> (b: bool)
    ensures
        b == names_view(nodes@).contains(s@),
{
    let mut i: usize = 0;
    while i < nodes.len()
        invariant
            0 <= i <= nodes@.len(),
            forall|j: int| 0 <= j < i ==> nodes@[j]@ != s@,
        decreases nodes@.len() - i,
    {
        if nodes[i] == *s {
            assert(names_view(nodes@)[i as int] == s@);
            return true;
        }
        i = i + 1;
    }
    assert forall|j: int| 0 <= j < names_view(nodes@).len() implies names_view(nodes@)[j] != s@ by {
        assert(names_view(nodes@)[j] == nodes@[j]@);
    }
    false
}

fn is_seq_container_exec(s: &String) -> (b: bool)
    ensures
        b == is_seq_container(s@),
{
    ident_is(s, "Box") || ident_is(s, "Option") || ident_is(s, "Vec") || ident_is(s, "VecDeque")
        || ident_is(s, "LinkedList")
}

fn is_map_container_exec(s: &String) -> (b: bool)
    ensures
        b == is_map_container(s@),
{
    ident_is(s, "HashMap") || ident_is(s, "BTreeMap")
}

/// Whether the traversal descends into a field of type `ty`, given the
/// names of the node types.
pub fn is_travable_type(ty: &TypeDecl, nodes: &Vec<String>) -> (b: bool)
    ensures
        b == travable(*ty, names_view(nodes@)),
    decreases ty,
{
    match ty {
        TypeDecl::Other => false,
        TypeDecl::Path(segs) => {
            if segs.len() == 1 && contains_name(nodes, &segs[0].ident) {
                return true;
            }
            if segs.len() == 0 {
                return false;
            }
            let seg = &segs[segs.len() - 1];
            if is_seq_container_exec(&seg.ident) {
                match &seg.args {
                    PathArgs::AngleBracketed(args) => {
                        if args.len() > 0 {
                            match &args[0] {
                                GenericArg::Type(t) => is_travable_type(t, nodes),
                                GenericArg::Other => false,
                            }
                        } else {
                            false
                        }
                    },
                    _ => false,
                }
            } else if is_map_container_exec(&seg.ident) {
                match &seg.args {
                    PathArgs::AngleBracketed(args) => {
                        if args.len() >= 2 {
                            match &args[1] {
                                GenericArg::Type(t) => is_travable_type(t, nodes),
                                GenericArg::Other => false,
                            }
                        } else {
                            false
                        }
                    },
                    _ => false,
                }
            } else {
                false
            }
        },
    }
}


// ---------------------------------------------------------------------------
// The traversal implementations
// ---------------------------------------------------------------------------

/// A field that a traversal descends into: by name, or by position.
#[derive(Debug, PartialEq)]
pub enum FieldRef {
    Named(String),
    Index(usize),
}

pub enum FieldRefV {
    Named(Seq<char>),
    Index(int),
}

impl View for FieldRef {
    type V = FieldRefV;

    open spec fn view(&self) -> FieldRefV {
        match self {
            FieldRef::Named(s) => FieldRefV::Named(s@),
            FieldRef::Index(i) => FieldRefV::Index(*i as int),
        }
    }
}

pub open spec fn refs_view(v: Seq<FieldRef>) -> Seq<FieldRefV> {
    v.map_values(|f: FieldRef| f@)
}

/// The names a match arm binds: the field names, the number of positional
/// fields (bound as `v0`, `v1`, ...), or nothing.
#[derive(Debug, PartialEq)]
pub enum Bindings {
    Named(Vec<String>),
    Unnamed(usize),
    Unit,
}

pub enum BindingsV {
    Named(Seq<Seq<char>>),
    Unnamed(int),
    Unit,
}

impl View for Bindings {
    type V = BindingsV;

    open spec fn view(&self) -> BindingsV {
        match self {
            Bindings::Named(v) => BindingsV::Named(names_view(v@)),
            Bindings::Unnamed(n) => BindingsV::Unnamed(*n as int),
            Bindings::Unit => BindingsV::Unit,
        }
    }
}

/// One arm of an enum's traversal: `Name::Variant(bindings) => { travs }`.
#[derive(Debug, PartialEq)]
pub struct TravArm {
    pub variant: String,
    pub bindings: Bindings,
    pub travs: Vec<FieldRef>,
}

pub struct TravArmV {
    pub variant: Seq<char>,
    pub bindings: BindingsV,
    pub travs: Seq<FieldRefV>,
}

impl View for TravArm {
    type V = TravArmV;

    open spec fn view(&self) -> TravArmV {
        TravArmV { variant: self.variant@, bindings: self.bindings@, travs: refs_view(self.travs@) }
    }
}

pub open spec fn arms_view(v: Seq<TravArm>) -> Seq<TravArmV> {
    v.map_values(|a: TravArm| a@)
}

/// The traversal of a struct: visit the node, then, if the visitor asks
/// for it, the fields `travs` in order.
#[derive(Debug, PartialEq)]
pub struct StructTrav {
    pub name: String,
    pub travs: Vec<FieldRef>,
}

/// The traversal of an enum: visit the node, then, if the visitor asks for
/// it, the traversed fields of the variant that the value has.
#[derive(Debug, PartialEq)]
pub struct EnumTrav {
    pub name: String,
    pub arms: Vec<TravArm>,
}

#[derive(Debug, PartialEq)]
pub enum TravImpl {
    Struct(StructTrav),
    Enum(EnumTrav),
}

pub enum TravImplV {
    Struct(Seq<char>, Seq<FieldRefV>),
    Enum(Seq<char>, Seq<TravArmV>),
}

impl View for TravImpl {
    type V = TravImplV;

    open spec fn view(&self) -> TravImplV {
        match self {
            TravImpl::Struct(s) => TravImplV::Struct(s.name@, refs_view(s.travs@)),
            TravImpl::Enum(e) => TravImplV::Enum(e.name@, arms_view(e.arms@)),
        }
    }
}

/// The named fields that are traversed, in declaration order.
pub open spec fn named_travs(fs: Seq<NamedField>, nodes: Seq<Seq<char>>) -> Seq<FieldRefV>
    decreases fs.len(),
{
    if fs.len() == 0 {
        seq![]
    } else {
        named_travs(fs.drop_last(), nodes) + if travable(fs.last().ty, nodes) {
            seq![FieldRefV::Named(fs.last().ident@)]
        } else {
            seq![]
        }
    }
}

/// The positions of the positional fields that are traversed, in order.
pub open spec fn unnamed_travs(ts: Seq<TypeDecl>, nodes: Seq<Seq<char>>) -> Seq<FieldRefV>
    decreases ts.len(),
{
    if ts.len() == 0 {
        seq![]
    } else {
        unnamed_travs(ts.drop_last(), nodes) + if travable(ts.last(), nodes) {
            seq![FieldRefV::Index(ts.len() - 1)]
        } else {
            seq![]
        }
    }
}

pub open spec fn field_travs(f: FieldsDecl, nodes: Seq<Seq<char>>) -> Seq<FieldRefV> {
    match f {
        FieldsDecl::Named(fs) => named_travs(fs@, nodes),
        FieldsDecl::Unnamed(ts) => unnamed_travs(ts@, nodes),
        FieldsDecl::Unit => seq![],
    }
}

pub open spec fn bindings_of(f: FieldsDecl) -> BindingsV {
    match f {
        FieldsDecl::Named(fs) => BindingsV::Named(field_idents(fs@)),
        FieldsDecl::Unnamed(ts) => BindingsV::Unnamed(ts@.len() as int),
        FieldsDecl::Unit => BindingsV::Unit,
    }
}

pub open spec fn field_idents(fs: Seq<NamedField>) -> Seq<Seq<char>> {
    fs.map_values(|nf: NamedField| nf.ident@)
}

pub open spec fn variant_arms(vs: Seq<VariantDecl>, nodes: Seq<Seq<char>>) -> Seq<TravArmV> {
    vs.map_values(|v: VariantDecl| arm_of(v, nodes))
}

pub open spec fn arm_of(v: VariantDecl, nodes: Seq<Seq<char>>) -> TravArmV {
    TravArmV { variant: v.ident@, bindings: bindings_of(v.fields), travs: field_travs(v.fields, nodes) }
}

fn fields_travs(f: &FieldsDecl, nodes: &Vec<String>) -> (r: Vec<FieldRef>)
    ensures
        refs_view(r@) == field_travs(*f, names_view(nodes@)),
{
    let ghost nv = names_view(nodes@);
    let mut r: Vec<FieldRef> = Vec::new();
    match f {
        FieldsDecl::Named(fs) => {
            let mut i: usize = 0;
            while i < fs.len()
                invariant
                    0 <= i <= fs@.len(),
                    nv == names_view(nodes@),
                    refs_view(r@) == named_travs(fs@.take(i as int), nv),
                decreases fs@.len() - i,
            {
                proof {
                    assert(fs@.take(i + 1).drop_last() =~= fs@.take(i as int));
                    assert(fs@.take(i + 1).last() == fs@[i as int]);
                }
                if is_travable_type(&fs[i].ty, nodes) {
                    r.push(FieldRef::Named(fs[i].ident.clone()));
                }
                assert(refs_view(r@) =~= named_travs(fs@.take(i + 1), nv));
                i = i + 1;
            }
            assert(fs@.take(fs@.len() as int) =~= fs@);
        },
        FieldsDecl::Unnamed(ts) => {
            let mut i: usize = 0;
            while i < ts.len()
                invariant
                    0 <= i <= ts@.len(),
                    nv == names_view(nodes@),
                    refs_view(r@) == unnamed_travs(ts@.take(i as int), nv),
                decreases ts@.len() - i,
            {
                proof {
                    assert(ts@.take(i + 1).drop_last() =~= ts@.take(i as int));
                    assert(ts@.take(i + 1).last() == ts@[i as int]);
                }
                if is_travable_type(&ts[i], nodes) {
                    r.push(FieldRef::Index(i));
                }
                assert(refs_view(r@) =~= unnamed_travs(ts@.take(i + 1), nv));
                i = i + 1;
            }
            assert(ts@.take(ts@.len() as int) =~= ts@);
        },
        FieldsDecl::Unit => {
            assert(refs_view(r@) =~= Seq::<FieldRefV>::empty());
        },
    }
    r
}

/// The traversal of a struct: the fields it descends into, in order.
pub fn impl_struct_trav(s: &StructDecl, nodes: &Vec<String>) -> (r: StructTrav)
    ensures
        r.name@ == s.ident@,
        refs_view(r.travs@) == field_travs(s.fields, names_view(nodes@)),
{
    StructTrav { name: s.ident.clone(), travs: fields_travs(&s.fields, nodes) }
}

fn bindings_exec(f: &FieldsDecl) -> (r: Bindings)
    ensures
        r@ == bindings_of(*f),
{
    match f {
        FieldsDecl::Named(fs) => {
            let mut names: Vec<String> = Vec::new();
            let mut i: usize = 0;
            while i < fs.len()
                invariant
                    0 <= i <= fs@.len(),
                    names@.len() == i,
                    names_view(names@) =~= field_idents(fs@.take(i as int)),
                decreases fs@.len() - i,
            {
                let ghost prev = names@;
                names.push(fs[i].ident.clone());
                assert(names@ == prev.push(fs@[i as int].ident));
                assert forall|j: int| 0 <= j < i + 1 implies #[trigger] names_view(names@)[j]
                    == field_idents(fs@.take(i + 1))[j] by {
                    if j < i {
                        assert(names_view(prev)[j] == field_idents(fs@.take(i as int))[j]);
                    }
                }
                assert(names_view(names@) =~= field_idents(fs@.take(i + 1)));
                i = i + 1;
            }
            assert(fs@.take(fs@.len() as int) =~= fs@);
            Bindings::Named(names)
        },
        FieldsDecl::Unnamed(ts) => Bindings::Unnamed(ts.len()),
        FieldsDecl::Unit => Bindings::Unit,
    }
}

/// The traversal of an enum: one match arm per variant, in order, each
/// binding the variant's fields and descending into those that hold nodes.
pub fn impl_enum_trav(e: &EnumDecl, nodes: &Vec<String>) -> (r: EnumTrav)
    ensures
        r.name@ == e.ident@,
        arms_view(r.arms@) == variant_arms(e.variants@, names_view(nodes@)),
{
    let ghost nv = names_view(nodes@);
    let mut arms: Vec<TravArm> = Vec::new();
    let mut i: usize = 0;
    while i < e.variants.len()
        invariant
            0 <= i <= e.variants@.len(),
            nv == names_view(nodes@),
            arms@.len() == i,
            arms_view(arms@) =~= variant_arms(e.variants@.take(i as int), nv),
        decreases e.variants@.len() - i,
    {
        let v = &e.variants[i];
        let arm = TravArm {
            variant: v.ident.clone(),
            bindings: bindings_exec(&v.fields),
            travs: fields_travs(&v.fields, nodes),
        };
        let ghost prev = arms@;
        arms.push(arm);
        assert(arms@ == prev.push(arm));
        assert forall|j: int| 0 <= j < i + 1 implies #[trigger] arms_view(arms@)[j]
            == variant_arms(e.variants@.take(i + 1), nv)[j] by {
            if j < i {
                assert(arms_view(prev)[j] == variant_arms(e.variants@.take(i as int), nv)[j]);
            }
        }
        assert(arms_view(arms@) =~= variant_arms(e.variants@.take(i + 1), nv));
        i = i + 1;
    }
    assert(e.variants@.take(e.variants@.len() as int) =~= e.variants@);
    EnumTrav { name: e.ident.clone(), arms }
}


// ---------------------------------------------------------------------------
// Text helpers
// ---------------------------------------------------------------------------

/// What `format!("{:?}", s)` produces for a string whose characters are `s`:
/// the string in double quotes, with the characters that `Debug` escapes
/// escaped.
pub uninterp spec fn debug_quoted(s: Seq<char>) -> Seq<char>;

/// Printable ASCII characters other than the quotes and the backslash: the
/// characters that `Debug` writes as they are.
pub open spec fn plain_ascii(s: Seq<char>) -> bool {
    forall|i: int|
        0 <= i < s.len() ==> {
            let c = #[trigger] s[i];
            &&& 0x20 <= (c as int) <= 0x7e
            &&& c != '"'
            &&& c != '\\'
            &&& c != '\''
        }
}

/// `format!("{:?}", s)`, the `Debug` form of a string (std's
/// `<str as Debug>::fmt`). The contract names the result, and states the
/// one case that std's documentation of `char::escape_debug` settles
/// plainly: printable ASCII other than quotes and backslash is written
/// unchanged between double quotes.
#[verifier::external_body]
fn debug_str(s: &str) -> (r: String)
    ensures
        r@ == debug_quoted(s@),
        plain_ascii(s@) ==> r@ == seq!['"'] + s@ + seq!['"'],
{
    format!("{:?}", s)
}

/// An edge's label as it is written: between double quotes as it is when
/// it holds only printable ASCII other than quotes and backslash, and in
/// `Debug` form otherwise.
pub open spec fn quoted_label(s: Seq<char>) -> Seq<char> {
    if plain_ascii(s) {
        seq!['"'] + s + seq!['"']
    } else {
        debug_quoted(s)
    }
}

pub open spec fn digit_char(d: int) -> char {
    if d == 0 {
        '0'
    } else if d == 1 {
        '1'
    } else if d == 2 {
        '2'
    } else if d == 3 {
        '3'
    } else if d == 4 {
        '4'
    } else if d == 5 {
        '5'
    } else if d == 6 {
        '6'
    } else if d == 7 {
        '7'
    } else if d == 8 {
        '8'
    } else {
        '9'
    }
}

/// The decimal digits of `n`, without leading zeros.
pub open spec fn decimal(n: nat) -> Seq<char>
    decreases n,
{
    if n < 10 {
        seq![digit_char(n as int)]
    } else {
        decimal(n / 10) + seq![digit_char((n % 10) as int)]
    }
}

fn append_digit(out: &mut String, d: usize)
    requires
        d < 10,
    ensures
        final(out)@ == old(out)@ + seq![digit_char(d as int)],
{
    proof {
        reveal_strlit("0");
        reveal_strlit("1");
        reveal_strlit("2");
        reveal_strlit("3");
        reveal_strlit("4");
        reveal_strlit("5");
        reveal_strlit("6");
        reveal_strlit("7");
        reveal_strlit("8");
        reveal_strlit("9");
    }
    let s = if d == 0 {
        "0"
    } else if d == 1 {
        "1"
    } else if d == 2 {
        "2"
    } else if d == 3 {
        "3"
    } else if d == 4 {
        "4"
    } else if d == 5 {
        "5"
    } else if d == 6 {
        "6"
    } else if d == 7 {
        "7"
    } else if d == 8 {
        "8"
    } else {
        "9"
    };
    out.append(s);
}

fn append_decimal(out: &mut String, n: usize)
    ensures
        final(out)@ == old(out)@ + decimal(n as nat),
    decreases n,
{
    if n >= 10 {
        append_decimal(out, n / 10);
    }
    append_digit(out, n % 10);
    assert(final(out)@ =~= old(out)@ + decimal(n as nat));
}

/// `p` without one `:` at its end, where it ends with one.
pub open spec fn strip_colon(p: Seq<char>) -> Seq<char> {
    if p.len() > 0 && p.last() == ':' {
        p.drop_last()
    } else {
        p
    }
}

fn strip_colon_exec(p: &str) -> (r: String)
    ensures
        r@ == strip_colon(p@),
{
    let n = p.unicode_len();
    if n > 0 && p.get_char(n - 1) == ':' {
        let t = p.substring_char(0, n - 1);
        assert(p@.subrange(0, n - 1) =~= p@.drop_last());
        String::from_str(t)
    } else {
        String::from_str(p)
    }
}


// ---------------------------------------------------------------------------
// The AST drawn as a graph in DOT
// ---------------------------------------------------------------------------

/// The mark added to an edge's label: none for a required field, `?` for an
/// optional one, `+` for a non-empty repetition, `*` for a repetition.
pub open spec fn extra_label(required: bool, repeat: bool) -> Seq<char> {
    if required && !repeat {
        ""@
    } else if !required && !repeat {
        "?"@
    } else if required {
        "+"@
    } else {
        "*"@
    }
}

/// The style added to an edge: dotted for an optional field, bold for a
/// repetition.
pub open spec fn extra_style(required: bool, repeat: bool) -> Seq<char> {
    if required && !repeat {
        ""@
    } else if !required && !repeat {
        ",style=dotted"@
    } else {
        ",style=bold"@
    }
}

/// `src -> target [label="prefix?",style];`
pub open spec fn edge(
    src: Seq<char>,
    target: Seq<char>,
    prefix: Seq<char>,
    style: Seq<char>,
    required: bool,
    repeat: bool,
) -> Seq<char> {
    src + " -> "@ + target + " [label="@ + quoted_label(prefix + extra_label(required, repeat))
        + style + extra_style(required, repeat) + "];"@
}

pub open spec fn is_list_container(s: Seq<char>) -> bool {
    s == "Vec"@ || s == "VecDeque"@ || s == "LinkedList"@
}

/// The edges drawn for a field of type `ty`: one to the node type that the
/// type names, looking through `Box` (which changes nothing), `Option`
/// (optional), `Vec`, `VecDeque`, `LinkedList` and the values of `HashMap`
/// and `BTreeMap` (repetition).
pub open spec fn dot_type(
    ty: TypeDecl,
    nodes: Seq<Seq<char>>,
    src: Seq<char>,
    prefix: Seq<char>,
    style: Seq<char>,
    required: bool,
    repeat: bool,
) -> Seq<char>
    decreases ty,
{
    match ty {
        TypeDecl::Other => seq![],
        TypeDecl::Path(segs) => {
            let own = if segs@.len() == 1 && nodes.contains(segs@[0].ident@) {
                edge(src, segs@[0].ident@, prefix, style, required, repeat)
            } else {
                seq![]
            };
            if segs@.len() == 0 {
                own
            } else {
                let seg = segs@[segs@.len() - 1];
                own + match seg.args {
                    PathArgs::AngleBracketed(args) => {
                        let first = if args@.len() > 0 {
                            match args@[0] {
                                GenericArg::Type(t) => if seg.ident@ == "Box"@ {
                                    dot_type(t, nodes, src, prefix, style, required, repeat)
                                } else if seg.ident@ == "Option"@ {
                                    dot_type(t, nodes, src, prefix, style, false, repeat)
                                } else if is_list_container(seg.ident@) {
                                    dot_type(t, nodes, src, prefix, style, false, true)
                                } else {
                                    seq![]
                                },
                                GenericArg::Other => seq![],
                            }
                        } else {
                            seq![]
                        };
                        let second = if args@.len() >= 2 && is_map_container(seg.ident@) {
                            match args@[1] {
                                GenericArg::Type(t) => dot_type(t, nodes, src, prefix, style, false, true),
                                GenericArg::Other => seq![],
                            }
                        } else {
                            seq![]
                        };
                        first + second
                    },
                    _ => seq![],
                }
            }
        },
    }
}

fn append_edge(
    out: &mut String,
    src: &str,
    target: &String,
    prefix: &str,
    style: &str,
    required: bool,
    repeat: bool,
)
    ensures
        final(out)@ == old(out)@ + edge(src@, target@, prefix@, style@, required, repeat),
{
    let (extra_l, extra_s): (&str, &str) = if required && !repeat {
        ("", "")
    } else if !required && !repeat {
        ("?", ",style=dotted")
    } else if required {
        ("+", ",style=bold")
    } else {
        ("*", ",style=bold")
    };
    let mut label = String::from_str(prefix);
    label.append(extra_l);
    let quoted = debug_str(label.as_str());
    assert(quoted@ == quoted_label(label@));
    out.append(src);
    out.append(" -> ");
    out.append(target.as_str());
    out.append(" [label=");
    out.append(quoted.as_str());
    out.append(style);
    out.append(extra_s);
    out.append("];");
    assert(final(out)@ =~= old(out)@ + edge(src@, target@, prefix@, style@, required, repeat));
}

fn dot_type_text(
    ty: &TypeDecl,
    nodes: &Vec<String>,
    src: &str,
    prefix: &str,
    style: &str,
    required: bool,
    repeat: bool,
) -> (r: String)
    ensures
        r@ == dot_type(*ty, names_view(nodes@), src@, prefix@, style@, required, repeat),
    decreases ty,
{
    match ty {
        TypeDecl::Other => String::new(),
        TypeDecl::Path(segs) => {
            let mut r = String::new();
            if segs.len() == 1 && contains_name(nodes, &segs[0].ident) {
                append_edge(&mut r, src, &segs[0].ident, prefix, style, required, repeat);
            }
            if segs.len() > 0 {
                let seg = &segs[segs.len() - 1];
                match &seg.args {
                    PathArgs::AngleBracketed(args) => {
                        let first = if args.len() > 0 {
                            match &args[0] {
                                GenericArg::Type(t) => {
                                    if ident_is(&seg.ident, "Box") {
                                        dot_type_text(t, nodes, src, prefix, style, required, repeat)
                                    } else if ident_is(&seg.ident, "Option") {
                                        dot_type_text(t, nodes, src, prefix, style, false, repeat)
                                    } else if ident_is(&seg.ident, "Vec") || ident_is(&seg.ident, "VecDeque")
                                        || ident_is(&seg.ident, "LinkedList") {
                                        dot_type_text(t, nodes, src, prefix, style, false, true)
                                    } else {
                                        String::new()
                                    }
                                },
                                GenericArg::Other => String::new(),
                            }
                        } else {
                            String::new()
                        };
                        let second = if args.len() >= 2 && is_map_container_exec(&seg.ident) {
                            match &args[1] {
                                GenericArg::Type(t) => dot_type_text(t, nodes, src, prefix, style, false, true),
                                GenericArg::Other => String::new(),
                            }
                        } else {
                            String::new()
                        };
                        let ghost own = r@;
                        r.append(first.as_str());
                        r.append(second.as_str());
                        assert(r@ =~= own + (first@ + second@));
                    },
                    _ => {
                        assert(r@ =~= r@ + Seq::<char>::empty());
                    },
                }
            }
            r
        },
    }
}

/// Draws the edges for a field of type `ty` from the node `src`, labelled
/// with `prefix`, appending them to `out`.
pub fn dot_ast_type(
    ty: &TypeDecl,
    nodes: &Vec<String>,
    src: &str,
    prefix: &str,
    style: &str,
    required: bool,
    repeat: bool,
    out: &mut String,
)
    ensures
        final(out)@ == old(out)@ + dot_type(*ty, names_view(nodes@), src@, prefix@, style@, required, repeat),
{
    let t = dot_type_text(ty, nodes, src, prefix, style, required, repeat);
    out.append(t.as_str());
}


/// The edges of named fields: each labelled with `prefix` and its name.
pub open spec fn named_dot(
    fs: Seq<NamedField>,
    nodes: Seq<Seq<char>>,
    src: Seq<char>,
    prefix: Seq<char>,
    style: Seq<char>,
) -> Seq<char>
    decreases fs.len(),
{
    if fs.len() == 0 {
        seq![]
    } else {
        named_dot(fs.drop_last(), nodes, src, prefix, style) + dot_type(
            fs.last().ty,
            nodes,
            src,
            prefix + fs.last().ident@,
            style,
            true,
            false,
        )
    }
}

/// The label of the positional field `i` of `n`: a lone field is labelled
/// with `prefix` without its trailing `:`, the others with `prefix` and the
/// field's position.
pub open spec fn unnamed_label(prefix: Seq<char>, i: int, n: int) -> Seq<char> {
    if n == 1 {
        strip_colon(prefix)
    } else {
        prefix + decimal(i as nat)
    }
}

/// The edges of the first `ts.len()` of `n` positional fields.
pub open spec fn unnamed_dot(
    ts: Seq<TypeDecl>,
    n: int,
    nodes: Seq<Seq<char>>,
    src: Seq<char>,
    prefix: Seq<char>,
    style: Seq<char>,
) -> Seq<char>
    decreases ts.len(),
{
    if ts.len() == 0 {
        seq![]
    } else {
        unnamed_dot(ts.drop_last(), n, nodes, src, prefix, style) + dot_type(
            ts.last(),
            nodes,
            src,
            unnamed_label(prefix, ts.len() - 1, n),
            style,
            true,
            false,
        )
    }
}

pub open spec fn fields_dot(
    f: FieldsDecl,
    nodes: Seq<Seq<char>>,
    src: Seq<char>,
    prefix: Seq<char>,
    style: Seq<char>,
) -> Seq<char> {
    match f {
        FieldsDecl::Named(fs) => named_dot(fs@, nodes, src, prefix, style),
        FieldsDecl::Unnamed(ts) => unnamed_dot(ts@, ts@.len() as int, nodes, src, prefix, style),
        FieldsDecl::Unit => seq![],
    }
}

/// Draws the edges of a struct's or a variant's fields from the node `src`.
pub fn dot_ast_fields(
    f: &FieldsDecl,
    nodes: &Vec<String>,
    src: &str,
    prefix: &str,
    style: &str,
    out: &mut String,
)
    ensures
        final(out)@ == old(out)@ + fields_dot(*f, names_view(nodes@), src@, prefix@, style@),
{
    let ghost nv = names_view(nodes@);
    let ghost start = out@;
    match f {
        FieldsDecl::Named(fs) => {
            let mut i: usize = 0;
            while i < fs.len()
                invariant
                    0 <= i <= fs@.len(),
                    nv == names_view(nodes@),
                    out@ == start + named_dot(fs@.take(i as int), nv, src@, prefix@, style@),
                decreases fs@.len() - i,
            {
                proof {
                    assert(fs@.take(i + 1).drop_last() =~= fs@.take(i as int));
                    assert(fs@.take(i + 1).last() == fs@[i as int]);
                }
                let mut p = String::from_str(prefix);
                p.append(fs[i].ident.as_str());
                dot_ast_type(&fs[i].ty, nodes, src, p.as_str(), style, true, false, out);
                assert(out@ =~= start + named_dot(fs@.take(i + 1), nv, src@, prefix@, style@));
                i = i + 1;
            }
            assert(fs@.take(fs@.len() as int) =~= fs@);
        },
        FieldsDecl::Unnamed(ts) => {
            let n = ts.len();
            let mut i: usize = 0;
            while i < n
                invariant
                    0 <= i <= n,
                    n == ts@.len(),
                    nv == names_view(nodes@),
                    out@ == start + unnamed_dot(ts@.take(i as int), n as int, nv, src@, prefix@, style@),
                decreases n - i,
            {
                proof {
                    assert(ts@.take(i + 1).drop_last() =~= ts@.take(i as int));
                    assert(ts@.take(i + 1).last() == ts@[i as int]);
                }
                let p = if n == 1 {
                    strip_colon_exec(prefix)
                } else {
                    let mut p = String::from_str(prefix);
                    append_decimal(&mut p, i);
                    p
                };
                dot_ast_type(&ts[i], nodes, src, p.as_str(), style, true, false, out);
                assert(out@ =~= start + unnamed_dot(ts@.take(i + 1), n as int, nv, src@, prefix@, style@));
                i = i + 1;
            }
            assert(ts@.take(n as int) =~= ts@);
        },
        FieldsDecl::Unit => {
            assert(out@ =~= start + Seq::<char>::empty());
        },
    }
}

/// A struct in DOT: the node `Name;`, then the edges of its fields.
pub open spec fn struct_dot(s: StructDecl, nodes: Seq<Seq<char>>) -> Seq<char> {
    s.ident@ + ";"@ + fields_dot(s.fields, nodes, s.ident@, ""@, ""@)
}

/// The edges of an enum's variants, each field labelled `Variant:field`
/// and drawn in dark blue.
pub open spec fn variants_dot(vs: Seq<VariantDecl>, nodes: Seq<Seq<char>>, name: Seq<char>) -> Seq<char>
    decreases vs.len(),
{
    if vs.len() == 0 {
        seq![]
    } else {
        variants_dot(vs.drop_last(), nodes, name) + fields_dot(
            vs.last().fields,
            nodes,
            name,
            vs.last().ident@ + ":"@,
            ",color=darkblue"@,
        )
    }
}

/// An enum in DOT: a filled light blue node, then the edges of its variants.
pub open spec fn enum_dot(e: EnumDecl, nodes: Seq<Seq<char>>) -> Seq<char> {
    e.ident@ + " [color=lightblue,style=filled];"@ + variants_dot(e.variants@, nodes, e.ident@)
}

/// Draws a struct: its node, then the edges of its fields.
pub fn dot_ast_struct(s: &StructDecl, nodes: &Vec<String>, out: &mut String)
    ensures
        final(out)@ == old(out)@ + struct_dot(*s, names_view(nodes@)),
{
    let ghost start = out@;
    out.append(s.ident.as_str());
    out.append(";");
    dot_ast_fields(&s.fields, nodes, s.ident.as_str(), "", "", out);
    assert(out@ =~= start + struct_dot(*s, names_view(nodes@)));
}

/// Draws an enum: its node, then the edges of each variant's fields.
pub fn dot_ast_enum(e: &EnumDecl, nodes: &Vec<String>, out: &mut String)
    ensures
        final(out)@ == old(out)@ + enum_dot(*e, names_view(nodes@)),
{
    let ghost nv = names_view(nodes@);
    let ghost start = out@;
    out.append(e.ident.as_str());
    out.append(" [color=lightblue,style=filled];");
    let ghost head = out@;
    let mut i: usize = 0;
    while i < e.variants.len()
        invariant
            0 <= i <= e.variants@.len(),
            nv == names_view(nodes@),
            head == start + (e.ident@ + " [color=lightblue,style=filled];"@),
            out@ == head + variants_dot(e.variants@.take(i as int), nv, e.ident@),
        decreases e.variants@.len() - i,
    {
        proof {
            assert(e.variants@.take(i + 1).drop_last() =~= e.variants@.take(i as int));
            assert(e.variants@.take(i + 1).last() == e.variants@[i as int]);
        }
        let v = &e.variants[i];
        let mut p = String::from_str(v.ident.as_str());
        p.append(":");
        dot_ast_fields(&v.fields, nodes, e.ident.as_str(), p.as_str(), ",color=darkblue", out);
        assert(out@ =~= head + variants_dot(e.variants@.take(i + 1), nv, e.ident@));
        i = i + 1;
    }
    assert(e.variants@.take(e.variants@.len() as int) =~= e.variants@);
    assert(out@ =~= start + enum_dot(*e, nv));
}


// ---------------------------------------------------------------------------
// The whole module
// ---------------------------------------------------------------------------

/// The node types of a module: its structs and enums, in order.
pub open spec fn item_nodes(items: Seq<ItemDecl>) -> Seq<Seq<char>>
    decreases items.len(),
{
    if items.len() == 0 {
        seq![]
    } else {
        item_nodes(items.drop_last()) + match items.last() {
            ItemDecl::Struct(s) => seq![s.ident@],
            ItemDecl::Enum(e) => seq![e.ident@],
            ItemDecl::Other => seq![],
        }
    }
}

pub open spec fn items_dot(items: Seq<ItemDecl>, nodes: Seq<Seq<char>>) -> Seq<char>
    decreases items.len(),
{
    if items.len() == 0 {
        seq![]
    } else {
        items_dot(items.drop_last(), nodes) + match items.last() {
            ItemDecl::Struct(s) => struct_dot(s, nodes),
            ItemDecl::Enum(e) => enum_dot(e, nodes),
            ItemDecl::Other => seq![],
        }
    }
}

/// The module as a DOT graph: `digraph G {`, each struct and enum, `}`.
pub open spec fn dot_ast_of(items: Seq<ItemDecl>) -> Seq<char> {
    "digraph G {"@ + items_dot(items, item_nodes(items)) + "}"@
}

pub open spec fn items_travs(items: Seq<ItemDecl>, nodes: Seq<Seq<char>>) -> Seq<TravImplV>
    decreases items.len(),
{
    if items.len() == 0 {
        seq![]
    } else {
        items_travs(items.drop_last(), nodes) + match items.last() {
            ItemDecl::Struct(s) => seq![TravImplV::Struct(s.ident@, field_travs(s.fields, nodes))],
            ItemDecl::Enum(e) => seq![TravImplV::Enum(e.ident@, variant_arms(e.variants@, nodes))],
            ItemDecl::Other => seq![],
        }
    }
}

pub open spec fn impls_view(v: Seq<TravImpl>) -> Seq<TravImplV> {
    v.map_values(|t: TravImpl| t@)
}

/// What the generator produces for a module: the node types (one variant of
/// `Node` each), the module drawn in DOT (`DOT_AST`), and the traversal of
/// each struct and enum.
#[derive(Debug, PartialEq)]
pub struct TraversalPlan {
    pub nodes: Vec<String>,
    pub dot_ast: String,
    pub impls: Vec<TravImpl>,
}

/// Runs the generator over the items of a module.
pub fn generate_traversal(items: &Vec<ItemDecl>) -> (plan: TraversalPlan)
    ensures
        names_view(plan.nodes@) == item_nodes(items@),
        plan.dot_ast@ == dot_ast_of(items@),
        impls_view(plan.impls@) == items_travs(items@, item_nodes(items@)),
{
    let n = items.len();
    let mut nodes: Vec<String> = Vec::new();
    let mut i: usize = 0;
    while i < n
        invariant
            0 <= i <= n,
            n == items@.len(),
            names_view(nodes@) == item_nodes(items@.take(i as int)),
        decreases n - i,
    {
        proof {
            assert(items@.take(i + 1).drop_last() =~= items@.take(i as int));
            assert(items@.take(i + 1).last() == items@[i as int]);
        }
        let ghost prev = nodes@;
        match &items[i] {
            ItemDecl::Struct(s) => nodes.push(s.ident.clone()),
            ItemDecl::Enum(e) => nodes.push(e.ident.clone()),
            ItemDecl::Other => {},
        }
        assert(names_view(nodes@) =~= item_nodes(items@.take(i + 1)));
        i = i + 1;
    }
    assert(items@.take(n as int) =~= items@);
    let ghost nv = names_view(nodes@);

    let mut impls: Vec<TravImpl> = Vec::new();
    i = 0;
    while i < n
        invariant
            0 <= i <= n,
            n == items@.len(),
            nv == names_view(nodes@),
            impls_view(impls@) == items_travs(items@.take(i as int), nv),
        decreases n - i,
    {
        proof {
            assert(items@.take(i + 1).drop_last() =~= items@.take(i as int));
            assert(items@.take(i + 1).last() == items@[i as int]);
        }
        let ghost prev = impls@;
        match &items[i] {
            ItemDecl::Struct(s) => impls.push(TravImpl::Struct(impl_struct_trav(s, &nodes))),
            ItemDecl::Enum(e) => impls.push(TravImpl::Enum(impl_enum_trav(e, &nodes))),
            ItemDecl::Other => {},
        }
        assert(impls_view(impls@) =~= items_travs(items@.take(i + 1), nv));
        i = i + 1;
    }

    let mut dot = String::new();
    dot.append("digraph G {");
    let ghost head = dot@;
    i = 0;
    while i < n
        invariant
            0 <= i <= n,
            n == items@.len(),
            nv == names_view(nodes@),
            head == "digraph G {"@,
            dot@ == head + items_dot(items@.take(i as int), nv),
        decreases n - i,
    {
        proof {
            assert(items@.take(i + 1).drop_last() =~= items@.take(i as int));
            assert(items@.take(i + 1).last() == items@[i as int]);
        }
        match &items[i] {
            ItemDecl::Struct(s) => dot_ast_struct(s, &nodes, &mut dot),
            ItemDecl::Enum(e) => dot_ast_enum(e, &nodes, &mut dot),
            ItemDecl::Other => {},
        }
        assert(dot@ =~= head + items_dot(items@.take(i + 1), nv));
        i = i + 1;
    }
    dot.append("}");
    TraversalPlan { nodes, dot_ast: dot, impls }
}


// ---------------------------------------------------------------------------
// Laws
// ---------------------------------------------------------------------------

proof fn lemma_edge_nonempty(
    src: Seq<char>,
    target: Seq<char>,
    prefix: Seq<char>,
    style: Seq<char>,
    required: bool,
    repeat: bool,
)
    ensures
        edge(src, target, prefix, style, required, repeat).len() > 0,
{
    reveal_strlit("];");
}

proof fn lemma_container_kinds_disjoint(s: Seq<char>)
    ensures
        !(is_seq_container(s) && is_map_container(s)),
{
    reveal_strlit("Box");
    reveal_strlit("Option");
    reveal_strlit("Vec");
    reveal_strlit("VecDeque");
    reveal_strlit("LinkedList");
    reveal_strlit("HashMap");
    reveal_strlit("BTreeMap");
    assert("Box"@.len() == 3);
    assert("Option"@.len() == 6);
    assert("Vec"@.len() == 3);
    assert("VecDeque"@.len() == 8);
    assert("LinkedList"@.len() == 10);
    assert("HashMap"@.len() == 7);
    assert("BTreeMap"@.len() == 8);
    assert("VecDeque"@[0] == 'V');
    assert("BTreeMap"@[0] == 'B');
}

/// The DOT graph draws an edge for a field exactly when the traversal
/// descends into that field: both look through the same containers to the
/// same node types.
pub proof fn law_edges_match_traversal(
    ty: TypeDecl,
    nodes: Seq<Seq<char>>,
    src: Seq<char>,
    prefix: Seq<char>,
    style: Seq<char>,
    required: bool,
    repeat: bool,
)
    ensures
        dot_type(ty, nodes, src, prefix, style, required, repeat).len() > 0 <==> travable(ty, nodes),
    decreases ty,
{
    match ty {
        TypeDecl::Other => {
            assert(dot_type(ty, nodes, src, prefix, style, required, repeat) =~= Seq::<char>::empty());
            assert(!travable(ty, nodes));
        },
        TypeDecl::Path(segs) => {
            if segs@.len() == 1 && nodes.contains(segs@[0].ident@) {
                lemma_edge_nonempty(src, segs@[0].ident@, prefix, style, required, repeat);
            }
            if segs@.len() > 0 {
                let seg = segs@[segs@.len() - 1];
                lemma_container_kinds_disjoint(seg.ident@);
                match seg.args {
                    PathArgs::AngleBracketed(args) => {
                        if args@.len() > 0 {
                            match args@[0] {
                                GenericArg::Type(t) => {
                                    law_edges_match_traversal(t, nodes, src, prefix, style, required, repeat);
                                    law_edges_match_traversal(t, nodes, src, prefix, style, false, repeat);
                                    law_edges_match_traversal(t, nodes, src, prefix, style, false, true);
                                },
                                GenericArg::Other => {},
                            }
                        }
                        if args@.len() >= 2 {
                            match args@[1] {
                                GenericArg::Type(t) => {
                                    law_edges_match_traversal(t, nodes, src, prefix, style, false, true);
                                },
                                GenericArg::Other => {},
                            }
                        }
                    },
                    _ => {},
                }
            }
        },
    }
}

/// The type that a traversal implementation is for.
pub open spec fn impl_name(t: TravImplV) -> Seq<char> {
    match t {
        TravImplV::Struct(name, _) => name,
        TravImplV::Enum(name, _) => name,
    }
}

/// Each node type gets exactly one traversal implementation, and in the
/// order of the `Node` variants: the `i`-th implementation is for the
/// `i`-th node type.
pub proof fn law_one_impl_per_node(items: Seq<ItemDecl>, nodes: Seq<Seq<char>>)
    ensures
        items_travs(items, nodes).len() == item_nodes(items).len(),
        forall|i: int|
            0 <= i < item_nodes(items).len() ==> impl_name(#[trigger] items_travs(items, nodes)[i])
                == item_nodes(items)[i],
    decreases items.len(),
{
    if items.len() > 0 {
        law_one_impl_per_node(items.drop_last(), nodes);
    }
}

/// The edges drawn for a field of type `ty`, in order: the node type each
/// goes to, and whether the field is required and whether it repeats there.
pub open spec fn dot_targets(ty: TypeDecl, nodes: Seq<Seq<char>>, required: bool, repeat: bool) -> Seq<
    (Seq<char>, bool, bool),
>
    decreases ty,
{
    match ty {
        TypeDecl::Other => seq![],
        TypeDecl::Path(segs) => {
            let own = if segs@.len() == 1 && nodes.contains(segs@[0].ident@) {
                seq![(segs@[0].ident@, required, repeat)]
            } else {
                seq![]
            };
            if segs@.len() == 0 {
                own
            } else {
                let seg = segs@[segs@.len() - 1];
                own + match seg.args {
                    PathArgs::AngleBracketed(args) => {
                        let first = if args@.len() > 0 {
                            match args@[0] {
                                GenericArg::Type(t) => if seg.ident@ == "Box"@ {
                                    dot_targets(t, nodes, required, repeat)
                                } else if seg.ident@ == "Option"@ {
                                    dot_targets(t, nodes, false, repeat)
                                } else if is_list_container(seg.ident@) {
                                    dot_targets(t, nodes, false, true)
                                } else {
                                    seq![]
                                },
                                GenericArg::Other => seq![],
                            }
                        } else {
                            seq![]
                        };
                        let second = if args@.len() >= 2 && is_map_container(seg.ident@) {
                            match args@[1] {
                                GenericArg::Type(t) => dot_targets(t, nodes, false, true),
                                GenericArg::Other => seq![],
                            }
                        } else {
                            seq![]
                        };
                        first + second
                    },
                    _ => seq![],
                }
            }
        },
    }
}

/// The edges from `src` to the given targets, one after the other.
pub open spec fn edge_list(
    src: Seq<char>,
    ts: Seq<(Seq<char>, bool, bool)>,
    prefix: Seq<char>,
    style: Seq<char>,
) -> Seq<char>
    decreases ts.len(),
{
    if ts.len() == 0 {
        seq![]
    } else {
        edge_list(src, ts.drop_last(), prefix, style) + edge(
            src,
            ts.last().0,
            prefix,
            style,
            ts.last().1,
            ts.last().2,
        )
    }
}

/// The marks an edge's label may end with: none, `?`, `+` or `*`.
pub open spec fn is_label_mark(s: Seq<char>) -> bool {
    s == ""@ || s == "?"@ || s == "+"@ || s == "*"@
}

proof fn lemma_edge_list_concat(
    src: Seq<char>,
    a: Seq<(Seq<char>, bool, bool)>,
    b: Seq<(Seq<char>, bool, bool)>,
    prefix: Seq<char>,
    style: Seq<char>,
)
    ensures
        edge_list(src, a + b, prefix, style) == edge_list(src, a, prefix, style) + edge_list(src, b, prefix, style),
    decreases b.len(),
{
    if b.len() == 0 {
        assert(a + b =~= a);
        assert(edge_list(src, a, prefix, style) + seq![] =~= edge_list(src, a, prefix, style));
    } else {
        lemma_edge_list_concat(src, a, b.drop_last(), prefix, style);
        assert((a + b).drop_last() =~= a + b.drop_last());
        assert((a + b).last() == b.last());
        let ea = edge_list(src, a, prefix, style);
        let eb = edge_list(src, b.drop_last(), prefix, style);
        let e = edge(src, b.last().0, prefix, style, b.last().1, b.last().2);
        assert(ea + eb + e =~= ea + (eb + e));
    }
}

proof fn lemma_dot_type_text(
    ty: TypeDecl,
    nodes: Seq<Seq<char>>,
    src: Seq<char>,
    prefix: Seq<char>,
    style: Seq<char>,
    required: bool,
    repeat: bool,
)
    ensures
        dot_type(ty, nodes, src, prefix, style, required, repeat) == edge_list(
            src,
            dot_targets(ty, nodes, required, repeat),
            prefix,
            style,
        ),
    decreases ty,
{
    let ts = dot_targets(ty, nodes, required, repeat);
    match ty {
        TypeDecl::Other => {},
        TypeDecl::Path(segs) => {
            let own = if segs@.len() == 1 && nodes.contains(segs@[0].ident@) {
                seq![(segs@[0].ident@, required, repeat)]
            } else {
                seq![]
            };
            lemma_own_edge(segs@, nodes, src, prefix, style, required, repeat);
            if segs@.len() > 0 {
                let seg = segs@[segs@.len() - 1];
                let rest_t: Seq<(Seq<char>, bool, bool)> = match seg.args {
                    PathArgs::AngleBracketed(args) => {
                        let first = if args@.len() > 0 {
                            match args@[0] {
                                GenericArg::Type(t) => if seg.ident@ == "Box"@ {
                                    dot_targets(t, nodes, required, repeat)
                                } else if seg.ident@ == "Option"@ {
                                    dot_targets(t, nodes, false, repeat)
                                } else if is_list_container(seg.ident@) {
                                    dot_targets(t, nodes, false, true)
                                } else {
                                    seq![]
                                },
                                GenericArg::Other => seq![],
                            }
                        } else {
                            seq![]
                        };
                        let second = if args@.len() >= 2 && is_map_container(seg.ident@) {
                            match args@[1] {
                                GenericArg::Type(t) => dot_targets(t, nodes, false, true),
                                GenericArg::Other => seq![],
                            }
                        } else {
                            seq![]
                        };
                        if args@.len() > 0 {
                            match args@[0] {
                                GenericArg::Type(t) => {
                                    lemma_dot_type_text(t, nodes, src, prefix, style, required, repeat);
                                    lemma_dot_type_text(t, nodes, src, prefix, style, false, repeat);
                                    lemma_dot_type_text(t, nodes, src, prefix, style, false, true);
                                },
                                GenericArg::Other => {},
                            }
                        }
                        if args@.len() >= 2 {
                            match args@[1] {
                                GenericArg::Type(t) => {
                                    lemma_dot_type_text(t, nodes, src, prefix, style, false, true);
                                },
                                GenericArg::Other => {},
                            }
                        }
                        lemma_edge_list_concat(src, first, second, prefix, style);
                        first + second
                    },
                    _ => seq![],
                };
                assert(ts == own + rest_t);
                lemma_edge_list_concat(src, own, rest_t, prefix, style);
            }
        },
    }
}

proof fn lemma_own_edge(
    segs: Seq<SegmentDecl>,
    nodes: Seq<Seq<char>>,
    src: Seq<char>,
    prefix: Seq<char>,
    style: Seq<char>,
    required: bool,
    repeat: bool,
)
    ensures
        edge_list(
            src,
            if segs.len() == 1 && nodes.contains(segs[0].ident@) {
                seq![(segs[0].ident@, required, repeat)]
            } else {
                seq![]
            },
            prefix,
            style,
        ) == if segs.len() == 1 && nodes.contains(segs[0].ident@) {
            edge(src, segs[0].ident@, prefix, style, required, repeat)
        } else {
            seq![]
        },
{
    let empty = Seq::<(Seq<char>, bool, bool)>::empty();
    assert(edge_list(src, empty, prefix, style) =~= Seq::<char>::empty());
    if segs.len() == 1 && nodes.contains(segs[0].ident@) {
        let own = seq![(segs[0].ident@, required, repeat)];
        assert(own.drop_last() =~= empty);
        let e = edge(src, segs[0].ident@, prefix, style, required, repeat);
        assert(Seq::<char>::empty() + e =~= e);
    }
}

pub open spec fn targets_in_nodes(ts: Seq<(Seq<char>, bool, bool)>, nodes: Seq<Seq<char>>) -> bool {
    forall|i: int| 0 <= i < ts.len() ==> nodes.contains(#[trigger] ts[i].0)
}

proof fn lemma_targets_in_nodes_concat(
    a: Seq<(Seq<char>, bool, bool)>,
    b: Seq<(Seq<char>, bool, bool)>,
    nodes: Seq<Seq<char>>,
)
    requires
        targets_in_nodes(a, nodes),
        targets_in_nodes(b, nodes),
    ensures
        targets_in_nodes(a + b, nodes),
{
    assert forall|i: int| 0 <= i < (a + b).len() implies nodes.contains(#[trigger] (a + b)[i].0) by {
        if i < a.len() {
            assert((a + b)[i] == a[i]);
        } else {
            assert((a + b)[i] == b[i - a.len()]);
        }
    }
}

proof fn lemma_dot_targets_in_nodes(ty: TypeDecl, nodes: Seq<Seq<char>>, required: bool, repeat: bool)
    ensures
        targets_in_nodes(dot_targets(ty, nodes, required, repeat), nodes),
    decreases ty,
{
    let empty = Seq::<(Seq<char>, bool, bool)>::empty();
    assert(targets_in_nodes(empty, nodes));
    if let TypeDecl::Path(segs) = ty {
        let own = if segs@.len() == 1 && nodes.contains(segs@[0].ident@) {
            seq![(segs@[0].ident@, required, repeat)]
        } else {
            empty
        };
        assert(targets_in_nodes(own, nodes));
        if segs@.len() > 0 {
            let seg = segs@[segs@.len() - 1];
            if let PathArgs::AngleBracketed(args) = seg.args {
                let first = if args@.len() > 0 {
                    match args@[0] {
                        GenericArg::Type(t) => if seg.ident@ == "Box"@ {
                            dot_targets(t, nodes, required, repeat)
                        } else if seg.ident@ == "Option"@ {
                            dot_targets(t, nodes, false, repeat)
                        } else if is_list_container(seg.ident@) {
                            dot_targets(t, nodes, false, true)
                        } else {
                            empty
                        },
                        GenericArg::Other => empty,
                    }
                } else {
                    empty
                };
                let second = if args@.len() >= 2 && is_map_container(seg.ident@) {
                    match args@[1] {
                        GenericArg::Type(t) => dot_targets(t, nodes, false, true),
                        GenericArg::Other => empty,
                    }
                } else {
                    empty
                };
                if args@.len() > 0 {
                    if let GenericArg::Type(t) = args@[0] {
                        lemma_dot_targets_in_nodes(t, nodes, required, repeat);
                        lemma_dot_targets_in_nodes(t, nodes, false, repeat);
                        lemma_dot_targets_in_nodes(t, nodes, false, true);
                    }
                }
                if args@.len() >= 2 {
                    if let GenericArg::Type(t) = args@[1] {
                        lemma_dot_targets_in_nodes(t, nodes, false, true);
                    }
                }
                lemma_targets_in_nodes_concat(first, second, nodes);
                lemma_targets_in_nodes_concat(own, first + second, nodes);
                assert(dot_targets(ty, nodes, required, repeat) == own + (first + second));
            } else {
                lemma_targets_in_nodes_concat(own, empty, nodes);
                assert(dot_targets(ty, nodes, required, repeat) == own + empty);
            }
        }
    }
}

/// The text drawn for a field is a sequence of whole edges, one per target
/// of `dot_targets`: each `src -> X [label=<quoted prefix and mark>,style,
/// extra];` with `X` a node type and the mark one of none, `?`, `+`, `*`.
pub proof fn law_dot_type_is_edges(
    ty: TypeDecl,
    nodes: Seq<Seq<char>>,
    src: Seq<char>,
    prefix: Seq<char>,
    style: Seq<char>,
    required: bool,
    repeat: bool,
)
    ensures
        dot_type(ty, nodes, src, prefix, style, required, repeat) == edge_list(
            src,
            dot_targets(ty, nodes, required, repeat),
            prefix,
            style,
        ),
        forall|i: int|
            0 <= i < dot_targets(ty, nodes, required, repeat).len() ==> {
                let t = #[trigger] dot_targets(ty, nodes, required, repeat)[i];
                &&& nodes.contains(t.0)
                &&& is_label_mark(extra_label(t.1, t.2))
            },
{
    lemma_dot_type_text(ty, nodes, src, prefix, style, required, repeat);
    lemma_dot_targets_in_nodes(ty, nodes, required, repeat);
    assert forall|i: int| 0 <= i < dot_targets(ty, nodes, required, repeat).len() implies {
        let t = #[trigger] dot_targets(ty, nodes, required, repeat)[i];
        &&& nodes.contains(t.0)
        &&& is_label_mark(extra_label(t.1, t.2))
    } by {
        let t = dot_targets(ty, nodes, required, repeat)[i];
        assert(nodes.contains(t.0));
    }
}

/// No node type is named like one of the containers the generator looks
/// through.
pub open spec fn no_container_nodes(nodes: Seq<Seq<char>>) -> bool {
    forall|i: int| 0 <= i < nodes.len() ==> !is_seq_container(#[trigger] nodes[i]) && !is_map_container(nodes[i])
}

/// The node type that `travable` reaches when it holds: the one the type
/// names, looking through the same containers.
pub open spec fn reached_node(ty: TypeDecl, nodes: Seq<Seq<char>>) -> Seq<char>
    decreases ty,
{
    match ty {
        TypeDecl::Other => seq![],
        TypeDecl::Path(segs) => {
            if segs@.len() == 1 && nodes.contains(segs@[0].ident@) {
                segs@[0].ident@
            } else if segs@.len() == 0 {
                seq![]
            } else {
                let seg = segs@[segs@.len() - 1];
                if is_seq_container(seg.ident@) {
                    match seg.args {
                        PathArgs::AngleBracketed(args) => if args@.len() > 0 {
                            match args@[0] {
                                GenericArg::Type(t) => reached_node(t, nodes),
                                GenericArg::Other => seq![],
                            }
                        } else {
                            seq![]
                        },
                        _ => seq![],
                    }
                } else if is_map_container(seg.ident@) {
                    match seg.args {
                        PathArgs::AngleBracketed(args) => if args@.len() >= 2 {
                            match args@[1] {
                                GenericArg::Type(t) => reached_node(t, nodes),
                                GenericArg::Other => seq![],
                            }
                        } else {
                            seq![]
                        },
                        _ => seq![],
                    }
                } else {
                    seq![]
                }
            }
        },
    }
}

/// When no node type is named like a container, a field gets exactly one
/// edge if the traversal descends into it, and none otherwise; the edge
/// goes to the node type that the traversal's check reaches.
pub proof fn law_one_edge_per_traversed_field(
    ty: TypeDecl,
    nodes: Seq<Seq<char>>,
    required: bool,
    repeat: bool,
)
    requires
        no_container_nodes(nodes),
    ensures
        dot_targets(ty, nodes, required, repeat).len() == if travable(ty, nodes) {
            1int
        } else {
            0int
        },
        travable(ty, nodes) ==> dot_targets(ty, nodes, required, repeat)[0].0 == reached_node(ty, nodes),
    decreases ty,
{
    match ty {
        TypeDecl::Other => {},
        TypeDecl::Path(segs) => {
            if segs@.len() > 0 {
                let seg = segs@[segs@.len() - 1];
                lemma_container_kinds_disjoint(seg.ident@);
                if segs@.len() == 1 && nodes.contains(segs@[0].ident@) {
                    let j = choose|j: int| 0 <= j < nodes.len() && nodes[j] == segs@[0].ident@;
                    assert(!is_seq_container(nodes[j]) && !is_map_container(nodes[j]));
                    assert(!is_list_container(seg.ident@));
                }
                match seg.args {
                    PathArgs::AngleBracketed(args) => {
                        if args@.len() > 0 {
                            match args@[0] {
                                GenericArg::Type(t) => {
                                    law_one_edge_per_traversed_field(t, nodes, required, repeat);
                                    law_one_edge_per_traversed_field(t, nodes, false, repeat);
                                    law_one_edge_per_traversed_field(t, nodes, false, true);
                                },
                                GenericArg::Other => {},
                            }
                        }
                        if args@.len() >= 2 {
                            match args@[1] {
                                GenericArg::Type(t) => {
                                    law_one_edge_per_traversed_field(t, nodes, false, true);
                                },
                                GenericArg::Other => {},
                            }
                        }
                    },
                    _ => {},
                }
            }
        },
    }
}

/// The named fields a traversal descends into are exactly the fields whose
/// type is travable, in declaration order: each such field once, by name,
/// and no other.
pub proof fn law_named_travs(fs: Seq<NamedField>, nodes: Seq<Seq<char>>)
    ensures
        named_travs(fs, nodes) == fs.filter(|f: NamedField| travable(f.ty, nodes)).map_values(
            |f: NamedField| FieldRefV::Named(f.ident@),
        ),
    decreases fs.len(),
{
    reveal(Seq::filter);
    if fs.len() > 0 {
        law_named_travs(fs.drop_last(), nodes);
        let pred = |f: NamedField| travable(f.ty, nodes);
        let sub = fs.drop_last().filter(pred);
        assert(fs.filter(pred) == if pred(fs.last()) {
            sub.push(fs.last())
        } else {
            sub
        });
        let nm = |f: NamedField| FieldRefV::Named(f.ident@);
        if pred(fs.last()) {
            assert(sub.push(fs.last()).map_values(nm) =~= sub.map_values(nm) + seq![nm(fs.last())]);
        } else {
            assert(sub.map_values(nm) + Seq::<FieldRefV>::empty() =~= sub.map_values(nm));
        }
    } else {
        assert(fs.filter(|f: NamedField| travable(f.ty, nodes)) =~= Seq::<NamedField>::empty());
        assert(named_travs(fs, nodes) =~= Seq::<FieldRefV>::empty());
    }
}

/// The position a field reference names, or `-1` for a named one.
pub open spec fn position_of(f: FieldRefV) -> int {
    match f {
        FieldRefV::Index(j) => j,
        FieldRefV::Named(_) => -1,
    }
}

/// The positional fields a traversal descends into are exactly those whose
/// type is travable: every such position is listed, every listed position
/// is such a one, and they come in increasing order.
pub proof fn law_unnamed_travs(ts: Seq<TypeDecl>, nodes: Seq<Seq<char>>)
    ensures
        forall|i: int|
            0 <= i < ts.len() && travable(ts[i], nodes) ==> #[trigger] unnamed_travs(ts, nodes).contains(
                FieldRefV::Index(i),
            ),
        forall|k: int|
            0 <= k < unnamed_travs(ts, nodes).len() ==> {
                let f = #[trigger] unnamed_travs(ts, nodes)[k];
                &&& f is Index
                &&& 0 <= position_of(f) < ts.len()
                &&& travable(ts[position_of(f)], nodes)
            },
        forall|k: int, m: int|
            0 <= k < m < unnamed_travs(ts, nodes).len() ==> position_of(#[trigger] unnamed_travs(ts, nodes)[k])
                < position_of(#[trigger] unnamed_travs(ts, nodes)[m]),
    decreases ts.len(),
{
    if ts.len() > 0 {
        let dl = ts.drop_last();
        law_unnamed_travs(dl, nodes);
        let sub = unnamed_travs(dl, nodes);
        let r = unnamed_travs(ts, nodes);
        let last = if travable(ts.last(), nodes) {
            seq![FieldRefV::Index(ts.len() - 1)]
        } else {
            Seq::<FieldRefV>::empty()
        };
        assert(r == sub + last);
        assert forall|i: int| 0 <= i < ts.len() && travable(ts[i], nodes) implies #[trigger] r.contains(
            FieldRefV::Index(i),
        ) by {
            if i < ts.len() - 1 {
                assert(dl[i] == ts[i]);
                assert(sub.contains(FieldRefV::Index(i)));
                let k = choose|k: int| 0 <= k < sub.len() && sub[k] == FieldRefV::Index(i);
                assert(r[k] == sub[k]);
            } else {
                assert(r[sub.len() as int] == FieldRefV::Index(i));
            }
        }
        assert forall|k: int| 0 <= k < r.len() implies {
            let f = #[trigger] r[k];
            &&& f is Index
            &&& 0 <= position_of(f) < ts.len()
            &&& travable(ts[position_of(f)], nodes)
        } by {
            if k < sub.len() {
                assert(r[k] == sub[k]);
                assert(dl[position_of(sub[k])] == ts[position_of(sub[k])]);
            }
        }
        assert forall|k: int, m: int| 0 <= k < m < r.len() implies position_of(#[trigger] r[k]) < position_of(
            #[trigger] r[m],
        ) by {
            assert(r[k] == sub[k]);
            if m < sub.len() {
                assert(r[m] == sub[m]);
            }
        }
    }
}

/// The `k`-th generic argument of a path segment, when it is a type.
pub open spec fn type_arg(seg: SegmentDecl, k: int) -> Option<TypeDecl> {
    match seg.args {
        PathArgs::AngleBracketed(args) => if 0 <= k < args@.len() {
            match args@[k] {
                GenericArg::Type(t) => Some(t),
                GenericArg::Other => None,
            }
        } else {
            None
        },
        _ => None,
    }
}

/// When a field is traversed, by the form of its type: a one-segment path
/// naming a node type always is; otherwise, for a path whose last segment
/// is `Box`, `Option`, `Vec`, `VecDeque` or `LinkedList`, exactly when its
/// first type argument is; for `HashMap` or `BTreeMap`, exactly when its
/// second type argument (the value) is; for any other type, never.
pub proof fn law_travable_cases(ty: TypeDecl, nodes: Seq<Seq<char>>)
    ensures
        ty is Other ==> !travable(ty, nodes),
        ty matches TypeDecl::Path(segs) ==> {
            let own = segs@.len() == 1 && nodes.contains(segs@[0].ident@);
            let name = segs@.last().ident@;
            let seg = segs@.last();
            &&& own ==> travable(ty, nodes)
            &&& segs@.len() == 0 ==> !travable(ty, nodes)
            &&& (!own && segs@.len() > 0 && (name == "Box"@ || name == "Option"@ || name == "Vec"@ || name
                == "VecDeque"@ || name == "LinkedList"@)) ==> (travable(ty, nodes) <==> (type_arg(seg, 0) is Some
                && travable(type_arg(seg, 0)->0, nodes)))
            &&& (!own && segs@.len() > 0 && (name == "HashMap"@ || name == "BTreeMap"@)) ==> (travable(ty, nodes)
                <==> (type_arg(seg, 1) is Some && travable(type_arg(seg, 1)->0, nodes)))
            &&& (!own && segs@.len() > 0 && !(name == "Box"@ || name == "Option"@ || name == "Vec"@ || name
                == "VecDeque"@ || name == "LinkedList"@ || name == "HashMap"@ || name == "BTreeMap"@))
                ==> !travable(ty, nodes)
        },
{
    if let TypeDecl::Path(segs) = ty {
        if segs@.len() > 0 {
            lemma_container_kinds_disjoint(segs@.last().ident@);
        }
    }
}

/// The node types are exactly the module's structs and enums, by name, in
/// declaration order; other items contribute none.
pub proof fn law_item_nodes(items: Seq<ItemDecl>)
    ensures
        item_nodes(items) == items.filter(|it: ItemDecl| !(it is Other)).map_values(
            |it: ItemDecl| match it {
                ItemDecl::Struct(s) => s.ident@,
                ItemDecl::Enum(e) => e.ident@,
                ItemDecl::Other => Seq::<char>::empty(),
            },
        ),
    decreases items.len(),
{
    reveal(Seq::filter);
    let pred = |it: ItemDecl| !(it is Other);
    let nm = |it: ItemDecl| match it {
        ItemDecl::Struct(s) => s.ident@,
        ItemDecl::Enum(e) => e.ident@,
        ItemDecl::Other => Seq::<char>::empty(),
    };
    if items.len() > 0 {
        law_item_nodes(items.drop_last());
        let sub = items.drop_last().filter(pred);
        if pred(items.last()) {
            assert(sub.push(items.last()).map_values(nm) =~= sub.map_values(nm) + seq![nm(items.last())]);
        } else {
            assert(sub.map_values(nm) + Seq::<Seq<char>>::empty() =~= sub.map_values(nm));
        }
    } else {
        assert(items.filter(pred) =~= Seq::<ItemDecl>::empty());
        assert(item_nodes(items) =~= Seq::<Seq<char>>::empty());
    }
}

} // verus!
