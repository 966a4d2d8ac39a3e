use semcheck::analysis::{analyze, AnalysisResult};
use semcheck::ast::{Expr, ExprKind, Lit, Program, Stmt, StmtKind, UnOp};
use semcheck::diag::DiagKind;
use semcheck::types::{IntWidth, Type};

fn ex(pos: u32, kind: ExprKind) -> Expr {
    Expr { pos, kind }
}

fn st(pos: u32, kind: StmtKind) -> Stmt {
    Stmt { pos, kind }
}

fn ident(pos: u32, name: &str) -> Expr {
    ex(pos, ExprKind::Ident(name.to_string()))
}

fn lit_int(pos: u32, v: i64) -> Expr {
    ex(pos, ExprKind::Lit(Lit::Int(v)))
}

fn boolean(pos: u32, v: bool) -> Expr {
    ex(pos, ExprKind::Lit(Lit::Bool(v)))
}

fn slet(pos: u32, name: &str, mutable: bool, init: Expr) -> Stmt {
    st(pos, StmtKind::Let(name.to_string(), mutable, None, Box::new(init)))
}

fn run(stmts: Vec<Stmt>) -> AnalysisResult {
    analyze(&Program { stmts })
}

#[test]
fn deeply_nested_blocks_are_tolerated() {
    // let x = 1; then forty nested `if true { ... { let y = x; } ... }`
    let mut inner = vec![slet(50, "y", false, ident(50, "x"))];
    for depth in 0..40 {
        inner = vec![st(2 + depth, StmtKind::If(Box::new(boolean(2, true)), inner, None))];
    }
    let mut stmts = vec![slet(1, "x", false, lit_int(1, 1))];
    stmts.extend(inner);
    let r = run(stmts);
    assert!(r.accepted);
    assert_eq!(r.diagnostics.len(), 0);
}

#[test]
fn logical_not_requires_bool() {
    // let a = !5;
    let e = ex(1, ExprKind::Unary(UnOp::Not, Box::new(lit_int(1, 5))));
    let r = run(vec![slet(1, "a", false, e)]);
    assert!(!r.accepted);
    assert_eq!(r.diagnostics.len(), 1);
    assert_eq!(r.diagnostics[0].kind, DiagKind::TypeMismatch);
}

#[test]
fn negation_requires_numeric() {
    // let a = -true;
    let e = ex(1, ExprKind::Unary(UnOp::Neg, Box::new(boolean(1, true))));
    let r = run(vec![slet(1, "a", false, e)]);
    assert!(!r.accepted);
    assert_eq!(r.diagnostics[0].kind, DiagKind::TypeMismatch);
}

#[test]
fn negation_of_integer_is_fine() {
    let e = ex(1, ExprKind::Unary(UnOp::Neg, Box::new(lit_int(1, 5))));
    let r = run(vec![slet(1, "a", false, e)]);
    assert!(r.accepted);
}

#[test]
fn array_repeat_types_as_fixed_array() {
    // let ceros = [0; 10]; let v = ceros[0];
    let rep = ex(1, ExprKind::ArrayRepeat(Box::new(lit_int(1, 0)), 10));
    let idx = ex(2, ExprKind::Index(Box::new(ident(2, "ceros")), Box::new(lit_int(2, 0))));
    let r = run(vec![
        slet(1, "ceros", false, rep),
        slet(2, "v", false, idx),
    ]);
    assert!(r.accepted);
    assert_eq!(r.bindings[1].ty, Type::Int(IntWidth::W32));
}

#[test]
fn heterogeneous_array_literal_is_a_type_fault() {
    // let a = [1, true];
    let arr = ex(1, ExprKind::ArrayLit(vec![lit_int(1, 1), boolean(1, true)]));
    let r = run(vec![slet(1, "a", false, arr)]);
    assert!(!r.accepted);
    assert_eq!(r.diagnostics.len(), 1);
    assert_eq!(r.diagnostics[0].kind, DiagKind::TypeMismatch);
}

#[test]
fn calling_a_non_function_is_a_type_fault() {
    // let x = 5; let y = x(1);
    let c = ex(2, ExprKind::Call(Box::new(ident(2, "x")), vec![lit_int(2, 1)]));
    let r = run(vec![
        slet(1, "x", false, lit_int(1, 5)),
        slet(2, "y", false, c),
    ]);
    assert!(!r.accepted);
    assert_eq!(r.diagnostics[0].kind, DiagKind::TypeMismatch);
}

#[test]
fn char_to_integer_cast_is_legal() {
    // let c = 'A'; let n = c as i32;
    let ch = ex(1, ExprKind::Lit(Lit::Char('A')));
    let cast = ex(2, ExprKind::Cast(Box::new(ident(2, "c")), Type::Int(IntWidth::W32)));
    let r = run(vec![
        slet(1, "c", false, ch),
        slet(2, "n", false, cast),
    ]);
    assert!(r.accepted);
}

#[test]
fn unit_to_unit_cast_is_illegal() {
    // casts are only between numerics and char; unit is out
    let u = ex(1, ExprKind::Cast(Box::new(boolean(1, false)), Type::Unit));
    let r = run(vec![slet(1, "a", false, u)]);
    assert!(!r.accepted);
    assert_eq!(r.diagnostics[0].kind, DiagKind::IllegalCast);
}

#[test]
fn one_fault_does_not_cascade() {
    // let a = missing; let b = a + 1;  -- only the first use reports
    let sum = ex(
        2,
        ExprKind::Binary(semcheck::ast::BinOp::Add, Box::new(ident(2, "a")), Box::new(lit_int(2, 1))),
    );
    let r = run(vec![
        slet(1, "a", false, ident(1, "missing")),
        slet(2, "b", false, sum),
    ]);
    assert!(!r.accepted);
    assert_eq!(r.diagnostics.len(), 1);
    assert_eq!(r.diagnostics[0].kind, DiagKind::UnresolvedIdentifier);
}
