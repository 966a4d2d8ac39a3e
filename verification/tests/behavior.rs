use semcheck::analysis::{analyze, AnalysisResult};
use semcheck::ast::{ClosureParam, Expr, ExprKind, Lit, Param, Program, Stmt, StmtKind, BinOp};
use semcheck::diag::DiagKind;
use semcheck::samples::{calcular, procesar};
use semcheck::types::{IntWidth, Type};

fn ex(pos: u32, kind: ExprKind) -> Expr {
    Expr { pos, kind }
}

fn st(pos: u32, kind: StmtKind) -> Stmt {
    Stmt { pos, kind }
}

fn ident(pos: u32, name: &str) -> Expr {
    ex(pos, ExprKind::Ident(name.to_string()))
}

fn lit_int(pos: u32, v: i64) -> Expr {
    ex(pos, ExprKind::Lit(Lit::Int(v)))
}

fn boolean(pos: u32, v: bool) -> Expr {
    ex(pos, ExprKind::Lit(Lit::Bool(v)))
}

fn slet(pos: u32, name: &str, mutable: bool, init: Expr) -> Stmt {
    st(pos, StmtKind::Let(name.to_string(), mutable, None, Box::new(init)))
}

fn binary(pos: u32, op: BinOp, a: Expr, b: Expr) -> Expr {
    ex(pos, ExprKind::Binary(op, Box::new(a), Box::new(b)))
}

fn call(pos: u32, callee: Expr, args: Vec<Expr>) -> Expr {
    ex(pos, ExprKind::Call(Box::new(callee), args))
}

fn run(stmts: Vec<Stmt>) -> AnalysisResult {
    analyze(&Program { stmts })
}

#[test]
fn shadowing_in_inner_scope_is_legal() {
    // let x = 1; if true { let x = 2; }
    let inner = vec![slet(3, "x", false, lit_int(3, 2))];
    let r = run(vec![
        slet(1, "x", false, lit_int(1, 1)),
        st(2, StmtKind::If(Box::new(boolean(2, true)), inner, None)),
    ]);
    assert!(r.accepted);
    assert_eq!(r.diagnostics.len(), 0);
}

#[test]
fn redeclaration_in_same_scope_is_duplicate() {
    // let x = 1; let x = 2;
    let r = run(vec![
        slet(1, "x", false, lit_int(1, 1)),
        slet(2, "x", false, lit_int(2, 2)),
    ]);
    assert!(!r.accepted);
    assert_eq!(r.diagnostics.len(), 1);
    assert_eq!(r.diagnostics[0].kind, DiagKind::DuplicateDeclaration);
    assert_eq!(r.diagnostics[0].pos, 2);
}

#[test]
fn closure_captures_defining_scope() {
    // let factor = 2; let duplicar = |n| n * factor; let d = duplicar(21);
    let body_expr = binary(2, BinOp::Mul, ident(2, "n"), ident(2, "factor"));
    let clo = ex(
        2,
        ExprKind::Closure(
            vec![ClosureParam { name: "n".to_string(), ty: None, pos: 2 }],
            None,
            Vec::<Stmt>::new(),
            Some(Box::new(body_expr)),
        ),
    );
    let r = run(vec![
        slet(1, "factor", false, lit_int(1, 2)),
        slet(2, "duplicar", false, clo),
        slet(3, "d", false, call(3, ident(3, "duplicar"), vec![lit_int(3, 21)])),
    ]);
    assert!(r.accepted);
    assert_eq!(r.diagnostics.len(), 0);
}

#[test]
fn closure_over_removed_variable_is_unresolved() {
    // let duplicar = |n| n * factor;   -- factor declared nowhere
    let body_expr = binary(2, BinOp::Mul, ident(2, "n"), ident(22, "factor"));
    let clo = ex(
        2,
        ExprKind::Closure(
            vec![ClosureParam { name: "n".to_string(), ty: None, pos: 2 }],
            None,
            Vec::<Stmt>::new(),
            Some(Box::new(body_expr)),
        ),
    );
    let r = run(vec![slet(2, "duplicar", false, clo)]);
    assert!(!r.accepted);
    assert_eq!(r.diagnostics.len(), 1);
    assert_eq!(r.diagnostics[0].kind, DiagKind::UnresolvedIdentifier);
    assert_eq!(r.diagnostics[0].pos, 22);
}

#[test]
fn unannotated_two_parameter_closure_defaults_to_integers() {
    // let sumar = |x, y| x + y; let s = sumar(10, 5);
    let body_expr = binary(1, BinOp::Add, ident(1, "x"), ident(1, "y"));
    let clo = ex(
        1,
        ExprKind::Closure(
            vec![
                ClosureParam { name: "x".to_string(), ty: None, pos: 1 },
                ClosureParam { name: "y".to_string(), ty: None, pos: 1 },
            ],
            None,
            Vec::<Stmt>::new(),
            Some(Box::new(body_expr)),
        ),
    );
    let r = run(vec![
        slet(1, "sumar", false, clo),
        slet(2, "s", false, call(2, ident(2, "sumar"), vec![lit_int(2, 10), lit_int(2, 5)])),
    ]);
    assert!(r.accepted);
    assert_eq!(r.diagnostics.len(), 0);
}

#[test]
fn annotated_closure_with_block_body() {
    // let calc = |x: i32, y: i32| -> i32 { let temp = x + y; temp * 2 };
    let body = vec![slet(2, "temp", false, binary(2, BinOp::Add, ident(2, "x"), ident(2, "y")))];
    let tail = binary(3, BinOp::Mul, ident(3, "temp"), lit_int(3, 2));
    let i32t = Type::Int(IntWidth::W32);
    let clo = ex(
        1,
        ExprKind::Closure(
            vec![
                ClosureParam { name: "x".to_string(), ty: Some(Type::Int(IntWidth::W32)), pos: 1 },
                ClosureParam { name: "y".to_string(), ty: Some(Type::Int(IntWidth::W32)), pos: 1 },
            ],
            Some(i32t),
            body,
            Some(Box::new(tail)),
        ),
    );
    let r = run(vec![
        slet(1, "calc", false, clo),
        slet(4, "out", false, call(4, ident(4, "calc"), vec![lit_int(4, 5), lit_int(4, 3)])),
    ]);
    assert!(r.accepted);
}

#[test]
fn for_loop_over_array_binds_element() {
    // let datos = [1,2,3]; let mut total = 0; for d in datos { total = total + d; }
    let arr = ex(1, ExprKind::ArrayLit(vec![lit_int(1, 1), lit_int(1, 2), lit_int(1, 3)]));
    let body = vec![st(
        4,
        StmtKind::Assign(
            "total".to_string(),
            Box::new(binary(4, BinOp::Add, ident(4, "total"), ident(4, "d"))),
        ),
    )];
    let r = run(vec![
        slet(1, "datos", false, arr),
        slet(2, "total", true, lit_int(2, 0)),
        st(3, StmtKind::For("d".to_string(), Box::new(ident(3, "datos")), body)),
    ]);
    assert!(r.accepted);
}

#[test]
fn for_loop_over_integer_is_a_type_fault() {
    let r = run(vec![
        slet(1, "n", false, lit_int(1, 3)),
        st(2, StmtKind::For("d".to_string(), Box::new(ident(2, "n")), Vec::<Stmt>::new())),
    ]);
    assert!(!r.accepted);
    assert_eq!(r.diagnostics.len(), 1);
    assert_eq!(r.diagnostics[0].kind, DiagKind::TypeMismatch);
}

#[test]
fn if_else_with_returns_satisfies_missing_return() {
    // fn f(a: bool) -> i32 { if a { return 1; } else { return 2; } }
    let then_b = vec![st(2, StmtKind::Return(Some(Box::new(lit_int(2, 1)))))];
    let else_b = vec![st(3, StmtKind::Return(Some(Box::new(lit_int(3, 2)))))];
    let body = vec![st(1, StmtKind::If(Box::new(ident(1, "a")), then_b, Some(else_b)))];
    let f = st(
        1,
        StmtKind::Fn(
            "f".to_string(),
            vec![Param { name: "a".to_string(), ty: Type::Bool, pos: 1 }],
            Type::Int(IntWidth::W32),
            body,
        ),
    );
    let r = run(vec![f]);
    assert!(r.accepted);
}

#[test]
fn return_type_mismatch_is_reported() {
    // fn f() -> i32 { return true; }
    let body = vec![st(2, StmtKind::Return(Some(Box::new(boolean(2, true)))))];
    let f = st(
        1,
        StmtKind::Fn("f".to_string(), Vec::<Param>::new(), Type::Int(IntWidth::W32), body),
    );
    let r = run(vec![f]);
    assert!(!r.accepted);
    assert_eq!(r.diagnostics.len(), 1);
    assert_eq!(r.diagnostics[0].kind, DiagKind::TypeMismatch);
    assert_eq!(r.diagnostics[0].pos, 2);
}

fn two_fault_program() -> Program {
    Program {
        stmts: vec![
            slet(1, "x", false, ident(1, "missing")),
            slet(2, "x", false, lit_int(2, 2)),
        ],
    }
}

#[test]
fn reanalysis_is_deterministic() {
    let r1 = analyze(&two_fault_program());
    let r2 = analyze(&two_fault_program());
    assert_eq!(r1.diagnostics, r2.diagnostics);
    assert_eq!(r1.accepted, r2.accepted);
    assert_eq!(r1.diagnostics.len(), 2);
}

#[test]
fn diagnostics_come_in_source_order() {
    let r = analyze(&two_fault_program());
    assert_eq!(r.diagnostics[0].kind, DiagKind::UnresolvedIdentifier);
    assert_eq!(r.diagnostics[0].pos, 1);
    assert_eq!(r.diagnostics[1].kind, DiagKind::DuplicateDeclaration);
    assert_eq!(r.diagnostics[1].pos, 2);
}

#[test]
fn all_checks_pass_means_empty_diagnostics() {
    // let mut i = 0; while i < 5 { i = i + 1; }
    let cond = binary(2, BinOp::Lt, ident(2, "i"), lit_int(2, 5));
    let body = vec![st(
        3,
        StmtKind::Assign("i".to_string(), Box::new(binary(3, BinOp::Add, ident(3, "i"), lit_int(3, 1)))),
    )];
    let r = run(vec![
        slet(1, "i", true, lit_int(1, 0)),
        st(2, StmtKind::While(Box::new(cond), body)),
    ]);
    assert!(r.accepted);
    assert!(r.diagnostics.is_empty());
}

#[test]
fn sample_routines_compute_their_values() {
    assert_eq!(calcular(), 42);
    assert_eq!(procesar(), 55);
}
