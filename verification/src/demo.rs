//! The demo compiler passes over the syntax tree.
use vstd::prelude::*;
use crate::ast::{Assign, AssignV, Constant, DyOpType, Expr, ExprV, Program};

verus! {

// ---------------------------------------------------------------------------
// Renaming identifiers
// ---------------------------------------------------------------------------

/// The name `s` becomes after renaming: `__` in front of it.
pub open spec fn renamed(s: Seq<char>) -> Seq<char> {
    seq!['_', '_'] + s
}

/// Every identifier in `e` renamed.
pub open spec fn rename_expr(e: ExprV) -> ExprV
    decreases e,
{
    match e {
        ExprV::Id(s) => ExprV::Id(renamed(s)),
        ExprV::DyOp(l, op, r) => ExprV::DyOp(Box::new(rename_expr(*l)), op, Box::new(rename_expr(*r))),
        ExprV::Constant(c) => ExprV::Constant(c),
    }
}

/// An assignment with its target and every identifier of its expression renamed.
pub open spec fn rename_assign(a: AssignV) -> AssignV {
    AssignV { varlet: renamed(a.varlet), expr: rename_expr(a.expr) }
}

pub open spec fn rename_program(p: Seq<AssignV>) -> Seq<AssignV> {
    p.map_values(|a: AssignV| rename_assign(a))
}

fn prefixed(s: &String) -> (r: String)
    ensures
        r@ == renamed(s@),
{
    let mut r = String::new();
    r.append("__");
    proof {
        reveal_strlit("__");
    }
    r.append(s.as_str());
    r
}

fn rename_in_expr(e: &mut Expr)
    ensures
        final(e)@ == rename_expr(old(e)@),
    decreases *old(e),
{
    match e {
        Expr::Id(s) => {
            let r = prefixed(s);
            *s = r;
        },
        Expr::DyOp(d) => {
            rename_in_expr(&mut *d.left);
            rename_in_expr(&mut *d.right);
        },
        Expr::Constant(_) => {},
    }
}

/// Prefixes every identifier of the program, the targets of the
/// assignments and the identifiers in their expressions, with `__`.
pub fn rename_identifiers(prog: &mut Program)
    ensures
        final(prog)@ == rename_program(old(prog)@),
{
    let n = prog.0.len();
    let ghost orig = prog.0@;
    let mut i: usize = 0;
    while i < n
        invariant
            n == orig.len(),
            prog.0@.len() == n,
            0 <= i <= n,
            forall|j: int| 0 <= j < i ==> #[trigger] prog.0@[j]@ == rename_assign(orig[j]@),
            forall|j: int| i <= j < n ==> #[trigger] prog.0@[j] == orig[j],
        decreases n - i,
    {
        let a: &mut Assign = &mut prog.0[i];
        let r = prefixed(&a.varlet);
        a.varlet = r;
        rename_in_expr(&mut a.expr);
        i = i + 1;
    }
    assert(prog@ =~= rename_program(old(prog)@));
}


// ---------------------------------------------------------------------------
// Removing subtractions of a value from itself
// ---------------------------------------------------------------------------

/// Two operands whose difference is known to be zero: the same identifier
/// twice, or the same integer literal twice.
pub open spec fn same_leaf(l: ExprV, r: ExprV) -> bool {
    match l {
        ExprV::Id(a) => match r {
            ExprV::Id(b) => a == b,
            _ => false,
        },
        ExprV::Constant(Constant::Num(a)) => match r {
            ExprV::Constant(Constant::Num(b)) => a == b,
            _ => false,
        },
        _ => false,
    }
}

/// The expression after the pass: operands are simplified first, then a
/// subtraction whose simplified operands are the same leaf becomes `0`.
pub open spec fn opt_sub_expr(e: ExprV) -> ExprV
    decreases e,
{
    match e {
        ExprV::DyOp(l, op, r) => {
            let l2 = opt_sub_expr(*l);
            let r2 = opt_sub_expr(*r);
            if op == DyOpType::Sub && same_leaf(l2, r2) {
                ExprV::Constant(Constant::Num(0))
            } else {
                ExprV::DyOp(Box::new(l2), op, Box::new(r2))
            }
        },
        _ => e,
    }
}

pub open spec fn opt_sub_assign(a: AssignV) -> AssignV {
    AssignV { varlet: a.varlet, expr: opt_sub_expr(a.expr) }
}

pub open spec fn opt_sub_program(p: Seq<AssignV>) -> Seq<AssignV> {
    p.map_values(|a: AssignV| opt_sub_assign(a))
}

fn same_leaf_exec(l: &Expr, r: &Expr) -> (b: bool)
    ensures
        b == same_leaf(l@, r@),
{
    match l {
        Expr::Id(a) => match r {
            Expr::Id(b) => *a == *b,
            _ => false,
        },
        Expr::Constant(Constant::Num(a)) => match r {
            Expr::Constant(Constant::Num(b)) => *a == *b,
            _ => false,
        },
        _ => false,
    }
}

fn opt_sub_in_expr(e: &mut Expr)
    ensures
        final(e)@ == opt_sub_expr(old(e)@),
    decreases *old(e),
{
    let mut zero = false;
    match e {
        Expr::DyOp(d) => {
            opt_sub_in_expr(&mut *d.left);
            opt_sub_in_expr(&mut *d.right);
            zero = d.op == DyOpType::Sub && same_leaf_exec(&d.left, &d.right);
        },
        _ => {},
    }
    if zero {
        *e = Expr::Constant(Constant::Num(0));
    }
}

/// Replaces every subtraction of an identifier from itself, or of an integer
/// literal from an equal one, by the literal `0`, innermost first, so that
/// `(a - a) - (1 - 1)` becomes `0`.
pub fn opt_sub(prog: &mut Program)
    ensures
        final(prog)@ == opt_sub_program(old(prog)@),
{
    let n = prog.0.len();
    let ghost orig = prog.0@;
    let mut i: usize = 0;
    while i < n
        invariant
            n == orig.len(),
            prog.0@.len() == n,
            0 <= i <= n,
            forall|j: int| 0 <= j < i ==> #[trigger] prog.0@[j]@ == opt_sub_assign(orig[j]@),
            forall|j: int| i <= j < n ==> #[trigger] prog.0@[j] == orig[j],
        decreases n - i,
    {
        let a: &mut Assign = &mut prog.0[i];
        opt_sub_in_expr(&mut a.expr);
        i = i + 1;
    }
    assert(prog@ =~= opt_sub_program(old(prog)@));
}


// ---------------------------------------------------------------------------
// Summing the integer literals
// ---------------------------------------------------------------------------

/// The integer literals of `e`, in the order in which the traversal meets them.
pub open spec fn expr_nums(e: ExprV) -> Seq<int>
    decreases e,
{
    match e {
        ExprV::Constant(Constant::Num(v)) => seq![v as int],
        ExprV::DyOp(l, _, r) => expr_nums(*l) + expr_nums(*r),
        _ => seq![],
    }
}

/// The integer literals of a program, assignment by assignment.
pub open spec fn program_nums(p: Seq<AssignV>) -> Seq<int>
    decreases p.len(),
{
    if p.len() == 0 {
        seq![]
    } else {
        program_nums(p.drop_last()) + expr_nums(p.last().expr)
    }
}

pub open spec fn seq_sum(s: Seq<int>) -> int
    decreases s.len(),
{
    if s.len() == 0 {
        0
    } else {
        s[0] + seq_sum(s.drop_first())
    }
}

/// Adds the values of `s` to `acc` one by one, as an `isize` accumulator
/// does: `None` as soon as a running total leaves the range of `isize`.
pub open spec fn fold_sum(acc: int, s: Seq<int>) -> Option<int>
    decreases s.len(),
{
    if s.len() == 0 {
        Some(acc)
    } else if isize::MIN <= acc + s[0] <= isize::MAX {
        fold_sum(acc + s[0], s.drop_first())
    } else {
        None
    }
}

pub open spec fn opt_int(r: Option<isize>) -> Option<int> {
    match r {
        Some(v) => Some(v as int),
        None => None,
    }
}

proof fn lemma_fold_concat(acc: int, a: Seq<int>, b: Seq<int>)
    ensures
        fold_sum(acc, a + b) == match fold_sum(acc, a) {
            Some(x) => fold_sum(x, b),
            None => None,
        },
    decreases a.len(),
{
    if a.len() == 0 {
        assert(a + b =~= b);
    } else {
        assert((a + b)[0] == a[0]);
        assert((a + b).drop_first() =~= a.drop_first() + b);
        if isize::MIN <= acc + a[0] <= isize::MAX {
            lemma_fold_concat(acc + a[0], a.drop_first(), b);
        }
    }
}

proof fn lemma_fold_value(acc: int, s: Seq<int>)
    ensures
        fold_sum(acc, s) matches Some(x) ==> x == acc + seq_sum(s),
    decreases s.len(),
{
    if s.len() > 0 {
        lemma_fold_value(acc + s[0], s.drop_first());
    }
}

proof fn lemma_seq_sum_concat(a: Seq<int>, b: Seq<int>)
    ensures
        seq_sum(a + b) == seq_sum(a) + seq_sum(b),
    decreases a.len(),
{
    if a.len() == 0 {
        assert(a + b =~= b);
    } else {
        assert((a + b).drop_first() =~= a.drop_first() + b);
        lemma_seq_sum_concat(a.drop_first(), b);
    }
}

proof fn lemma_program_nums_split(p: Seq<AssignV>, k: int)
    requires
        0 <= k <= p.len(),
    ensures
        program_nums(p) == program_nums(p.take(k)) + program_nums(p.skip(k)),
    decreases p.len(),
{
    if k == p.len() {
        assert(p.take(k) =~= p);
        assert(p.skip(k) =~= Seq::<AssignV>::empty());
        assert(program_nums(p) + seq![] =~= program_nums(p));
    } else {
        let dl = p.drop_last();
        lemma_program_nums_split(dl, k);
        assert(dl.take(k) =~= p.take(k));
        assert(p.skip(k).drop_last() =~= dl.skip(k));
        assert(p.skip(k).last() == p.last());
        assert(program_nums(p.take(k)) + (program_nums(dl.skip(k)) + expr_nums(p.last().expr))
            =~= program_nums(p.take(k)) + program_nums(dl.skip(k)) + expr_nums(p.last().expr));
    }
}

fn sum_expr(e: &Expr, acc: isize) -> (r: Option<isize>)
    ensures
        opt_int(r) == fold_sum(acc as int, expr_nums(e@)),
    decreases e,
{
    match e {
        Expr::Constant(Constant::Num(v)) => {
            proof {
                assert(expr_nums(e@).drop_first() =~= Seq::<int>::empty());
                assert(fold_sum(acc + *v, Seq::<int>::empty()) == Some(acc + *v));
            }
            acc.checked_add(*v)
        },
        Expr::DyOp(d) => {
            proof {
                lemma_fold_concat(acc as int, expr_nums(d.left@), expr_nums(d.right@));
            }
            match sum_expr(&d.left, acc) {
                Some(mid) => sum_expr(&d.right, mid),
                None => None,
            }
        },
        _ => Some(acc),
    }
}

/// The sum of the program's integer literals, added in traversal order as
/// an `isize` would add them: `None` exactly when a running total leaves the
/// range of `isize`.
pub fn checked_sum_ints(prog: &Program) -> (r: Option<isize>)
    ensures
        opt_int(r) == fold_sum(0, program_nums(prog@)),
        r matches Some(v) ==> v == seq_sum(program_nums(prog@)),
{
    let n = prog.0.len();
    let mut acc: isize = 0;
    let mut i: usize = 0;
    while i < n
        invariant
            n == prog@.len(),
            0 <= i <= n,
            fold_sum(0, program_nums(prog@.take(i as int))) == Some(acc as int),
        decreases n - i,
    {
        let ghost pre = prog@.take(i as int);
        proof {
            assert(prog@.take(i + 1).drop_last() =~= pre);
            assert(prog@.take(i + 1).last() == prog.0@[i as int]@);
            lemma_fold_concat(0, program_nums(pre), expr_nums(prog.0@[i as int].expr@));
        }
        match sum_expr(&prog.0[i].expr, acc) {
            Some(v) => {
                acc = v;
            },
            None => {
                proof {
                    lemma_program_nums_split(prog@, i + 1);
                    lemma_fold_concat(0, program_nums(prog@.take(i + 1)), program_nums(prog@.skip(i + 1)));
                }
                return None;
            },
        }
        i = i + 1;
    }
    proof {
        assert(prog@.take(n as int) =~= prog@);
        lemma_fold_value(0, program_nums(prog@));
    }
    Some(acc)
}

/// The sum of the program's integer literals. The caller guarantees that no
/// running total, added in traversal order, overflows `isize`.
pub fn sum_ints(prog: &Program) -> (sum: isize)
    requires
        fold_sum(0, program_nums(prog@)) is Some,
    ensures
        sum == seq_sum(program_nums(prog@)),
{
    match checked_sum_ints(prog) {
        Some(v) => v,
        None => 0,
    }
}


// ---------------------------------------------------------------------------
// Laws of the passes
// ---------------------------------------------------------------------------

/// No subtraction in `e` has the same leaf on both sides.
pub open spec fn sub_free(e: ExprV) -> bool
    decreases e,
{
    match e {
        ExprV::DyOp(l, op, r) => !(op == DyOpType::Sub && same_leaf(*l, *r)) && sub_free(*l)
            && sub_free(*r),
        _ => true,
    }
}

proof fn lemma_opt_sub_expr_sub_free(e: ExprV)
    ensures
        sub_free(opt_sub_expr(e)),
    decreases e,
{
    if let ExprV::DyOp(l, op, r) = e {
        lemma_opt_sub_expr_sub_free(*l);
        lemma_opt_sub_expr_sub_free(*r);
    }
}

proof fn lemma_opt_sub_expr_idempotent(e: ExprV)
    ensures
        opt_sub_expr(opt_sub_expr(e)) == opt_sub_expr(e),
    decreases e,
{
    if let ExprV::DyOp(l, op, r) = e {
        lemma_opt_sub_expr_idempotent(*l);
        lemma_opt_sub_expr_idempotent(*r);
    }
}

/// Renaming keeps distinct names distinct: two names are equal after
/// renaming exactly when they were equal before.
pub proof fn law_renamed_injective(a: Seq<char>, b: Seq<char>)
    ensures
        renamed(a) == renamed(b) <==> a == b,
{
    if renamed(a) == renamed(b) {
        assert(a =~= renamed(a).skip(2));
        assert(b =~= renamed(b).skip(2));
    }
}

proof fn lemma_rename_same_leaf(l: ExprV, r: ExprV)
    ensures
        same_leaf(rename_expr(l), rename_expr(r)) == same_leaf(l, r),
{
    match (l, r) {
        (ExprV::Id(a), ExprV::Id(b)) => law_renamed_injective(a, b),
        _ => {},
    }
}

proof fn lemma_rename_opt_sub_expr(e: ExprV)
    ensures
        rename_expr(opt_sub_expr(e)) == opt_sub_expr(rename_expr(e)),
    decreases e,
{
    if let ExprV::DyOp(l, op, r) = e {
        lemma_rename_opt_sub_expr(*l);
        lemma_rename_opt_sub_expr(*r);
        lemma_rename_same_leaf(opt_sub_expr(*l), opt_sub_expr(*r));
    }
}

proof fn lemma_rename_expr_nums(e: ExprV)
    ensures
        expr_nums(rename_expr(e)) == expr_nums(e),
    decreases e,
{
    if let ExprV::DyOp(l, op, r) = e {
        lemma_rename_expr_nums(*l);
        lemma_rename_expr_nums(*r);
    }
}

/// After `opt_sub` no subtraction of a program has the same identifier, or
/// the same integer literal, on both sides.
pub proof fn law_opt_sub_complete(p: Seq<AssignV>)
    ensures
        forall|i: int| 0 <= i < p.len() ==> sub_free(#[trigger] opt_sub_program(p)[i].expr),
{
    assert forall|i: int| 0 <= i < p.len() implies sub_free(#[trigger] opt_sub_program(p)[i].expr) by {
        lemma_opt_sub_expr_sub_free(p[i].expr);
    }
}

/// Running `opt_sub` a second time changes nothing.
pub proof fn law_opt_sub_idempotent(p: Seq<AssignV>)
    ensures
        opt_sub_program(opt_sub_program(p)) == opt_sub_program(p),
{
    assert forall|i: int| 0 <= i < p.len() implies #[trigger] opt_sub_program(opt_sub_program(p))[i]
        == opt_sub_program(p)[i] by {
        lemma_opt_sub_expr_idempotent(p[i].expr);
    }
    assert(opt_sub_program(opt_sub_program(p)) =~= opt_sub_program(p));
}

/// Renaming and removing self-subtractions may run in either order: the
/// program that results is the same.
pub proof fn law_rename_opt_sub_commute(p: Seq<AssignV>)
    ensures
        rename_program(opt_sub_program(p)) == opt_sub_program(rename_program(p)),
{
    assert forall|i: int| 0 <= i < p.len() implies #[trigger] rename_program(opt_sub_program(p))[i]
        == opt_sub_program(rename_program(p))[i] by {
        lemma_rename_opt_sub_expr(p[i].expr);
    }
    assert(rename_program(opt_sub_program(p)) =~= opt_sub_program(rename_program(p)));
}

/// Renaming leaves the integer literals, and so what `sum_ints` reports,
/// unchanged.
pub proof fn law_rename_keeps_nums(p: Seq<AssignV>)
    ensures
        program_nums(rename_program(p)) == program_nums(p),
    decreases p.len(),
{
    if p.len() > 0 {
        law_rename_keeps_nums(p.drop_last());
        assert(rename_program(p).drop_last() =~= rename_program(p.drop_last()));
        lemma_rename_expr_nums(p.last().expr);
    }
}

// ---------------------------------------------------------------------------
// What each pass does to each form of expression
// ---------------------------------------------------------------------------

/// Removing self-subtractions, case by case. Leaves are kept. A binary
/// operation first has both operands simplified; a subtraction whose
/// simplified operands are the same identifier, or integer literals with
/// equal values, becomes the literal `0`; any other operation, a
/// subtraction of different identifiers or of unequal literals included,
/// keeps its operator and the simplified operands.
pub proof fn law_opt_sub_cases(e: ExprV)
    ensures
        !(e is DyOp) ==> opt_sub_expr(e) == e,
        e matches ExprV::DyOp(l, op, r) ==> {
            let l2 = opt_sub_expr(*l);
            let r2 = opt_sub_expr(*r);
            let same_id = l2 matches ExprV::Id(x) && r2 matches ExprV::Id(y) && x == y;
            let same_num = l2 matches ExprV::Constant(Constant::Num(x)) && r2 matches ExprV::Constant(
                Constant::Num(y),
            ) && x == y;
            &&& (op == DyOpType::Sub && (same_id || same_num)) ==> opt_sub_expr(e) == ExprV::Constant(
                Constant::Num(0),
            )
            &&& !(op == DyOpType::Sub && (same_id || same_num)) ==> opt_sub_expr(e) == ExprV::DyOp(
                Box::new(l2),
                op,
                Box::new(r2),
            )
        },
{
}

/// A subtraction of two integer literals becomes `0` exactly when the two
/// are equal; otherwise it stays as it is (`7 - 3` is not changed).
pub proof fn law_opt_sub_literals(a: isize, b: isize)
    ensures
        opt_sub_expr(
            ExprV::DyOp(
                Box::new(ExprV::Constant(Constant::Num(a))),
                DyOpType::Sub,
                Box::new(ExprV::Constant(Constant::Num(b))),
            ),
        ) == if a == b {
            ExprV::Constant(Constant::Num(0))
        } else {
            ExprV::DyOp(
                Box::new(ExprV::Constant(Constant::Num(a))),
                DyOpType::Sub,
                Box::new(ExprV::Constant(Constant::Num(b))),
            )
        },
{
    assert(opt_sub_expr(ExprV::Constant(Constant::Num(a))) == ExprV::Constant(Constant::Num(a)));
    assert(opt_sub_expr(ExprV::Constant(Constant::Num(b))) == ExprV::Constant(Constant::Num(b)));
}

/// A subtraction of two identifiers becomes `0` exactly when they are the
/// same identifier.
pub proof fn law_opt_sub_identifiers(x: Seq<char>, y: Seq<char>)
    ensures
        opt_sub_expr(ExprV::DyOp(Box::new(ExprV::Id(x)), DyOpType::Sub, Box::new(ExprV::Id(y)))) == if x
            == y {
            ExprV::Constant(Constant::Num(0))
        } else {
            ExprV::DyOp(Box::new(ExprV::Id(x)), DyOpType::Sub, Box::new(ExprV::Id(y)))
        },
{
    assert(opt_sub_expr(ExprV::Id(x)) == ExprV::Id(x));
    assert(opt_sub_expr(ExprV::Id(y)) == ExprV::Id(y));
}

/// `opt_sub` keeps the assignments, their order and their targets, and
/// simplifies each expression on its own.
pub proof fn law_opt_sub_program(p: Seq<AssignV>)
    ensures
        opt_sub_program(p).len() == p.len(),
        forall|i: int|
            0 <= i < p.len() ==> #[trigger] opt_sub_program(p)[i].varlet == p[i].varlet
                && opt_sub_program(p)[i].expr == opt_sub_expr(p[i].expr),
{
}

/// The literals summed are exactly the integer literals: a boolean or
/// floating-point literal, or an identifier, adds nothing; an integer
/// literal adds its value; an operation adds what its operands add.
pub proof fn law_sum_cases(e: ExprV)
    ensures
        e matches ExprV::Constant(Constant::Num(v)) ==> expr_nums(e) == seq![v as int],
        e matches ExprV::Constant(Constant::Bool(_)) ==> expr_nums(e) == Seq::<int>::empty(),
        e matches ExprV::Constant(Constant::Float(_)) ==> expr_nums(e) == Seq::<int>::empty(),
        e is Id ==> expr_nums(e) == Seq::<int>::empty(),
        e matches ExprV::DyOp(l, _, r) ==> seq_sum(expr_nums(e)) == seq_sum(expr_nums(*l)) + seq_sum(
            expr_nums(*r),
        ),
{
    if let ExprV::DyOp(l, _, r) = e {
        lemma_seq_sum_concat(expr_nums(*l), expr_nums(*r));
    }
    if let ExprV::Constant(Constant::Num(v)) = e {
        assert(expr_nums(e) =~= seq![v as int]);
    }
    assert(e matches ExprV::Constant(Constant::Bool(_)) ==> expr_nums(e) =~= Seq::<int>::empty());
    assert(e matches ExprV::Constant(Constant::Float(_)) ==> expr_nums(e) =~= Seq::<int>::empty());
    assert(e is Id ==> expr_nums(e) =~= Seq::<int>::empty());
}

/// No integer literal anywhere in `e`.
pub open spec fn no_num_literal(e: ExprV) -> bool
    decreases e,
{
    match e {
        ExprV::Constant(Constant::Num(_)) => false,
        ExprV::DyOp(l, _, r) => no_num_literal(*l) && no_num_literal(*r),
        _ => true,
    }
}

proof fn lemma_no_num_no_nums(e: ExprV)
    requires
        no_num_literal(e),
    ensures
        expr_nums(e) == Seq::<int>::empty(),
    decreases e,
{
    if let ExprV::DyOp(l, _, r) = e {
        lemma_no_num_no_nums(*l);
        lemma_no_num_no_nums(*r);
        assert(expr_nums(e) =~= Seq::<int>::empty());
    } else {
        assert(expr_nums(e) =~= Seq::<int>::empty());
    }
}

/// The sum of a program is the sum over its assignments: an empty program
/// sums to 0, one more assignment adds what its expression adds, and a
/// program without integer literals sums to 0.
pub proof fn law_sum_program(p: Seq<AssignV>, a: AssignV)
    ensures
        seq_sum(program_nums(Seq::<AssignV>::empty())) == 0,
        seq_sum(program_nums(p.push(a))) == seq_sum(program_nums(p)) + seq_sum(expr_nums(a.expr)),
        (forall|i: int| 0 <= i < p.len() ==> no_num_literal(#[trigger] p[i].expr)) ==> seq_sum(
            program_nums(p),
        ) == 0,
    decreases p.len(),
{
    assert(p.push(a).drop_last() =~= p);
    lemma_seq_sum_concat(program_nums(p), expr_nums(a.expr));
    if p.len() > 0 {
        law_sum_program(p.drop_last(), p.last());
        if forall|i: int| 0 <= i < p.len() ==> no_num_literal(#[trigger] p[i].expr) {
            assert forall|i: int| 0 <= i < p.drop_last().len() implies no_num_literal(
                #[trigger] p.drop_last()[i].expr,
            ) by {
                assert(p.drop_last()[i] == p[i]);
            }
            lemma_no_num_no_nums(p.last().expr);
            lemma_seq_sum_concat(program_nums(p.drop_last()), expr_nums(p.last().expr));
            assert(seq_sum(Seq::<int>::empty()) == 0);
        }
    }
}

/// Renaming, case by case: an identifier `x` becomes `__x`, a literal is
/// kept, an operation keeps its operator and renames both operands.
pub proof fn law_rename_cases(e: ExprV)
    ensures
        e matches ExprV::Id(x) ==> rename_expr(e) == ExprV::Id(seq!['_', '_'] + x),
        e is Constant ==> rename_expr(e) == e,
        e matches ExprV::DyOp(l, op, r) ==> rename_expr(e) == ExprV::DyOp(
            Box::new(rename_expr(*l)),
            op,
            Box::new(rename_expr(*r)),
        ),
{
}

/// Renaming a program keeps its assignments in order and renames every
/// target like every use: the target `x` becomes `__x`, whatever its
/// length.
pub proof fn law_rename_program(p: Seq<AssignV>)
    ensures
        rename_program(p).len() == p.len(),
        forall|i: int|
            0 <= i < p.len() ==> #[trigger] rename_program(p)[i].varlet == seq!['_', '_'] + p[i].varlet
                && rename_program(p)[i].expr == rename_expr(p[i].expr),
{
}

} // verus!
