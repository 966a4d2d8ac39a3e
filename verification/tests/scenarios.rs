use semcheck::analysis::{analyze, AnalysisResult};
use semcheck::ast::{Expr, ExprKind, Lit, Param, Program, Stmt, StmtKind, BinOp};
use semcheck::diag::{DiagKind, Severity};
use semcheck::types::{IntWidth, Type};

fn ex(pos: u32, kind: ExprKind) -> Expr {
    Expr { pos, kind }
}

fn st(pos: u32, kind: StmtKind) -> Stmt {
    Stmt { pos, kind }
}

fn ident(pos: u32, name: &str) -> Expr {
    ex(pos, ExprKind::Ident(name.to_string()))
}

fn lit_int(pos: u32, v: i64) -> Expr {
    ex(pos, ExprKind::Lit(Lit::Int(v)))
}

fn boolean(pos: u32, v: bool) -> Expr {
    ex(pos, ExprKind::Lit(Lit::Bool(v)))
}

fn string(pos: u32, s: &str) -> Expr {
    ex(pos, ExprKind::Lit(Lit::Str(s.to_string())))
}

fn slet(pos: u32, name: &str, mutable: bool, init: Expr) -> Stmt {
    st(pos, StmtKind::Let(name.to_string(), mutable, None, Box::new(init)))
}

fn sconst(pos: u32, name: &str, ty: Type, init: Expr) -> Stmt {
    st(pos, StmtKind::Const(name.to_string(), ty, Box::new(init)))
}

fn sassign(pos: u32, name: &str, value: Expr) -> Stmt {
    st(pos, StmtKind::Assign(name.to_string(), Box::new(value)))
}

fn binary(pos: u32, op: BinOp, a: Expr, b: Expr) -> Expr {
    ex(pos, ExprKind::Binary(op, Box::new(a), Box::new(b)))
}

fn run(stmts: Vec<Stmt>) -> AnalysisResult {
    analyze(&Program { stmts })
}

fn i32t() -> Type {
    Type::Int(IntWidth::W32)
}

#[test]
fn scenario_accepted_simple_arithmetic() {
    // let x = 5; let mut y = 3; y = y + x;
    let r = run(vec![
        slet(1, "x", false, lit_int(1, 5)),
        slet(2, "y", true, lit_int(2, 3)),
        sassign(3, "y", binary(3, BinOp::Add, ident(3, "y"), ident(3, "x"))),
    ]);
    assert!(r.accepted);
    assert_eq!(r.diagnostics.len(), 0);
}

#[test]
fn scenario_duplicate_constant() {
    // const N: i32 = 10; const N: i32 = 20;
    let r = run(vec![
        sconst(1, "N", i32t(), lit_int(1, 10)),
        sconst(2, "N", i32t(), lit_int(2, 20)),
    ]);
    assert!(!r.accepted);
    assert_eq!(r.diagnostics.len(), 1);
    assert_eq!(r.diagnostics[0].kind, DiagKind::DuplicateDeclaration);
    assert_eq!(r.diagnostics[0].pos, 2);
    assert_eq!(r.diagnostics[0].severity, Severity::Error);
}

#[test]
fn scenario_assign_to_immutable() {
    // let x = 5; x = 6;
    let r = run(vec![
        slet(1, "x", false, lit_int(1, 5)),
        sassign(2, "x", lit_int(2, 6)),
    ]);
    assert!(!r.accepted);
    assert_eq!(r.diagnostics.len(), 1);
    assert_eq!(r.diagnostics[0].kind, DiagKind::AssignToImmutable);
    assert_eq!(r.diagnostics[0].pos, 2);
}

#[test]
fn scenario_missing_return() {
    // fn f() -> i32 { let x = 1; }
    let body = vec![slet(2, "x", false, lit_int(2, 1))];
    let r = run(vec![st(1, StmtKind::Fn("f".to_string(), Vec::<Param>::new(), i32t(), body))]);
    assert!(!r.accepted);
    assert_eq!(r.diagnostics.len(), 1);
    assert_eq!(r.diagnostics[0].kind, DiagKind::MissingReturn);
    assert_eq!(r.diagnostics[0].pos, 1);
}

#[test]
fn scenario_logical_operator_on_integer() {
    // let a = true; let b = 5; let c = a && b;
    let r = run(vec![
        slet(1, "a", false, boolean(1, true)),
        slet(2, "b", false, lit_int(2, 5)),
        slet(3, "c", false, binary(33, BinOp::And, ident(3, "a"), ident(3, "b"))),
    ]);
    assert!(!r.accepted);
    assert_eq!(r.diagnostics.len(), 1);
    assert_eq!(r.diagnostics[0].kind, DiagKind::TypeMismatch);
    assert_eq!(r.diagnostics[0].pos, 33);
}

#[test]
fn scenario_string_index() {
    // let arr = [1,2,3]; let v = arr["x"];
    let arr_lit = ex(1, ExprKind::ArrayLit(vec![lit_int(1, 1), lit_int(1, 2), lit_int(1, 3)]));
    let idx = ex(22, ExprKind::Index(Box::new(ident(2, "arr")), Box::new(string(2, "x"))));
    let r = run(vec![
        slet(1, "arr", false, arr_lit),
        slet(2, "v", false, idx),
    ]);
    assert!(!r.accepted);
    assert_eq!(r.diagnostics.len(), 1);
    assert_eq!(r.diagnostics[0].kind, DiagKind::IndexTypeError);
    assert_eq!(r.diagnostics[0].pos, 22);
}

#[test]
fn accepted_run_logs_all_bindings() {
    let r = run(vec![
        slet(1, "x", false, lit_int(1, 5)),
        slet(2, "y", true, lit_int(2, 3)),
    ]);
    assert!(r.accepted);
    assert_eq!(r.bindings.len(), 2);
    assert_eq!(r.bindings[0].name, "x");
    assert!(!r.bindings[0].mutable);
    assert_eq!(r.bindings[1].name, "y");
    assert!(r.bindings[1].mutable);
    assert_eq!(r.bindings[0].ty, Type::Int(IntWidth::W32));
}
