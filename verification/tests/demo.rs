use coconut::ast::{Assign, Constant, DyOp, DyOpType, Expr, Program};
use coconut::demo::{checked_sum_ints, opt_sub, rename_identifiers, sum_ints};

fn id(s: &str) -> Expr {
    Expr::Id(s.to_string())
}

fn num(v: isize) -> Expr {
    Expr::Constant(Constant::Num(v))
}

fn op(l: Expr, o: DyOpType, r: Expr) -> Expr {
    Expr::DyOp(DyOp { left: Box::new(l), op: o, right: Box::new(r) })
}

fn assign(v: &str, e: Expr) -> Assign {
    Assign { varlet: v.to_string(), expr: e }
}

#[test]
fn rename_prefixes_targets_and_identifiers() {
    let mut p = Program(vec![
        assign("x", op(id("y"), DyOpType::Add, num(1))),
        assign("z", op(id("x"), DyOpType::Mul, op(id("w"), DyOpType::Sub, Expr::Constant(Constant::Bool(true))))),
    ]);
    rename_identifiers(&mut p);
    let expected = Program(vec![
        assign("__x", op(id("__y"), DyOpType::Add, num(1))),
        assign("__z", op(id("__x"), DyOpType::Mul, op(id("__w"), DyOpType::Sub, Expr::Constant(Constant::Bool(true))))),
    ]);
    assert_eq!(p, expected);
}

#[test]
fn rename_twice_prefixes_twice() {
    let mut p = Program(vec![assign("a", id("b"))]);
    rename_identifiers(&mut p);
    rename_identifiers(&mut p);
    assert_eq!(p, Program(vec![assign("____a", id("____b"))]));
}

#[test]
fn rename_empty_program() {
    let mut p = Program(vec![]);
    rename_identifiers(&mut p);
    assert_eq!(p, Program(vec![]));
}

#[test]
fn sum_of_integer_literals() {
    let p = Program(vec![
        assign("a", op(num(3), DyOpType::Add, num(4))),
        assign("b", op(id("a"), DyOpType::Sub, op(num(-10), DyOpType::Mul, Expr::Constant(Constant::Float(2.5f64.to_bits()))))),
        assign("c", Expr::Constant(Constant::Bool(false))),
    ]);
    assert_eq!(sum_ints(&p), -3);
    assert_eq!(checked_sum_ints(&p), Some(-3));
}

#[test]
fn sum_of_no_literals_is_zero() {
    let p = Program(vec![assign("a", id("b"))]);
    assert_eq!(sum_ints(&p), 0);
}

#[test]
fn sum_overflow_is_reported() {
    let p = Program(vec![assign("a", op(num(isize::MAX), DyOpType::Add, num(1)))]);
    assert_eq!(checked_sum_ints(&p), None);
}

#[test]
fn sum_overflow_in_running_total_is_reported() {
    // The total is 0, but the running total passes isize::MAX on the way.
    let p = Program(vec![
        assign("a", num(isize::MAX)),
        assign("b", num(1)),
        assign("c", num(-1)),
    ]);
    assert_eq!(checked_sum_ints(&p), None);
}

#[test]
fn sum_at_the_limit() {
    let p = Program(vec![assign("a", op(num(isize::MAX - 1), DyOpType::Add, num(1)))]);
    assert_eq!(checked_sum_ints(&p), Some(isize::MAX));
}

#[test]
fn opt_sub_removes_self_subtraction() {
    let mut p = Program(vec![
        assign("a", op(id("x"), DyOpType::Sub, id("x"))),
        assign("b", op(num(5), DyOpType::Sub, num(5))),
        assign("c", op(id("x"), DyOpType::Sub, id("y"))),
        assign("d", op(num(5), DyOpType::Sub, num(6))),
        assign("e", op(id("x"), DyOpType::Add, id("x"))),
    ]);
    opt_sub(&mut p);
    let expected = Program(vec![
        assign("a", num(0)),
        assign("b", num(0)),
        assign("c", op(id("x"), DyOpType::Sub, id("y"))),
        assign("d", op(num(5), DyOpType::Sub, num(6))),
        assign("e", op(id("x"), DyOpType::Add, id("x"))),
    ]);
    assert_eq!(p, expected);
}

#[test]
fn opt_sub_works_innermost_first() {
    // (a - a) - (1 - 1) becomes 0 - 0, then 0.
    let mut p = Program(vec![assign(
        "r",
        op(op(id("a"), DyOpType::Sub, id("a")), DyOpType::Sub, op(num(1), DyOpType::Sub, num(1))),
    )]);
    opt_sub(&mut p);
    assert_eq!(p, Program(vec![assign("r", num(0))]));
}

#[test]
fn opt_sub_inside_other_operators() {
    let mut p = Program(vec![assign(
        "r",
        op(op(id("a"), DyOpType::Sub, id("a")), DyOpType::Mul, op(id("b"), DyOpType::Sub, id("c"))),
    )]);
    opt_sub(&mut p);
    assert_eq!(
        p,
        Program(vec![assign("r", op(num(0), DyOpType::Mul, op(id("b"), DyOpType::Sub, id("c"))))])
    );
}

#[test]
fn opt_sub_leaves_floats_and_bools() {
    let f = Expr::Constant(Constant::Float(1.0f64.to_bits()));
    let g = Expr::Constant(Constant::Float(1.0f64.to_bits()));
    let mut p = Program(vec![
        assign("a", op(f, DyOpType::Sub, g)),
        assign("b", op(Expr::Constant(Constant::Bool(true)), DyOpType::Sub, Expr::Constant(Constant::Bool(true)))),
    ]);
    opt_sub(&mut p);
    let f = Expr::Constant(Constant::Float(1.0f64.to_bits()));
    let g = Expr::Constant(Constant::Float(1.0f64.to_bits()));
    assert_eq!(
        p,
        Program(vec![
            assign("a", op(f, DyOpType::Sub, g)),
            assign("b", op(Expr::Constant(Constant::Bool(true)), DyOpType::Sub, Expr::Constant(Constant::Bool(true)))),
        ])
    );
}

#[test]
fn opt_sub_twice_changes_nothing_more() {
    let make = || Program(vec![assign(
        "r",
        op(op(id("a"), DyOpType::Sub, id("a")), DyOpType::Sub, op(id("b"), DyOpType::Sub, num(0))),
    )]);
    let mut once = make();
    opt_sub(&mut once);
    let mut twice = make();
    opt_sub(&mut twice);
    opt_sub(&mut twice);
    assert_eq!(once, twice);
}

#[test]
fn rename_and_opt_sub_commute() {
    let make = || Program(vec![
        assign("r", op(op(id("a"), DyOpType::Sub, id("a")), DyOpType::Add, op(id("a"), DyOpType::Sub, id("b")))),
    ]);
    let mut p1 = make();
    opt_sub(&mut p1);
    rename_identifiers(&mut p1);
    let mut p2 = make();
    rename_identifiers(&mut p2);
    opt_sub(&mut p2);
    assert_eq!(p1, p2);
}

#[test]
fn rename_keeps_the_sum() {
    let mut p = Program(vec![assign("a", op(id("x"), DyOpType::Add, num(7))), assign("b", num(-2))]);
    let before = sum_ints(&p);
    rename_identifiers(&mut p);
    assert_eq!(sum_ints(&p), before);
    assert_eq!(before, 5);
}
