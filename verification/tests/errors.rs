use semcheck::analysis::{analyze, AnalysisResult};
use semcheck::ast::{ClosureParam, Expr, ExprKind, Lit, Param, Program, Stmt, StmtKind, BinOp, UnOp};
use semcheck::diag::DiagKind;
use semcheck::types::{FloatWidth, IntWidth, Type};

fn ex(pos: u32, kind: ExprKind) -> Expr {
    Expr { pos, kind }
}

fn st(pos: u32, kind: StmtKind) -> Stmt {
    Stmt { pos, kind }
}

fn ident(pos: u32, name: &str) -> Expr {
    ex(pos, ExprKind::Ident(name.to_string()))
}

fn lit_int(pos: u32, v: i64) -> Expr {
    ex(pos, ExprKind::Lit(Lit::Int(v)))
}

fn boolean(pos: u32, v: bool) -> Expr {
    ex(pos, ExprKind::Lit(Lit::Bool(v)))
}

fn slet(pos: u32, name: &str, mutable: bool, init: Expr) -> Stmt {
    st(pos, StmtKind::Let(name.to_string(), mutable, None, Box::new(init)))
}

fn call(pos: u32, callee: Expr, args: Vec<Expr>) -> Expr {
    ex(pos, ExprKind::Call(Box::new(callee), args))
}

fn run(stmts: Vec<Stmt>) -> AnalysisResult {
    analyze(&Program { stmts })
}

fn i32t() -> Type {
    Type::Int(IntWidth::W32)
}

fn one_error(r: &AnalysisResult, kind: DiagKind) {
    assert!(!r.accepted);
    assert_eq!(r.diagnostics.len(), 1);
    assert_eq!(r.diagnostics[0].kind, kind);
}

#[test]
fn unresolved_identifier() {
    let r = run(vec![slet(1, "y", false, ident(1, "z"))]);
    one_error(&r, DiagKind::UnresolvedIdentifier);
}

#[test]
fn use_before_declaration() {
    // let y = x; let x = 1;
    let r = run(vec![
        slet(1, "y", false, ident(1, "x")),
        slet(2, "x", false, lit_int(2, 1)),
    ]);
    one_error(&r, DiagKind::UseBeforeDeclaration);
    assert_eq!(r.diagnostics[0].pos, 1);
}

#[test]
fn illegal_cast_from_bool() {
    let c = ex(5, ExprKind::Cast(Box::new(boolean(5, true)), Type::Float(FloatWidth::W64)));
    let r = run(vec![slet(5, "b", false, c)]);
    one_error(&r, DiagKind::IllegalCast);
}

#[test]
fn legal_cast_int_to_float() {
    let c = ex(5, ExprKind::Cast(Box::new(lit_int(5, 10)), Type::Float(FloatWidth::W64)));
    let r = run(vec![slet(5, "f", false, c)]);
    assert!(r.accepted);
    assert_eq!(r.diagnostics.len(), 0);
}

#[test]
fn ambiguous_closure_parameter() {
    // let f = |x| 42;  -- nothing constrains x
    let clo = ex(
        3,
        ExprKind::Closure(
            vec![ClosureParam { name: "x".to_string(), ty: None, pos: 7 }],
            None,
            Vec::<Stmt>::new(),
            Some(Box::new(lit_int(3, 42))),
        ),
    );
    let r = run(vec![slet(3, "f", false, clo)]);
    one_error(&r, DiagKind::AmbiguousType);
    assert_eq!(r.diagnostics[0].pos, 7);
}

#[test]
fn non_constant_initializer() {
    // let y = 1; const C: i32 = y;
    let r = run(vec![
        slet(1, "y", false, lit_int(1, 1)),
        st(2, StmtKind::Const("C".to_string(), i32t(), Box::new(ident(2, "y")))),
    ]);
    one_error(&r, DiagKind::NonConstantInitializer);
}

#[test]
fn constant_initializer_may_fold_constants() {
    // const A: i32 = 2; const B: i32 = A + 3;
    let r = run(vec![
        st(1, StmtKind::Const("A".to_string(), i32t(), Box::new(lit_int(1, 2)))),
        st(
            2,
            StmtKind::Const(
                "B".to_string(),
                i32t(),
                Box::new(ex(2, ExprKind::Binary(BinOp::Add, Box::new(ident(2, "A")), Box::new(lit_int(2, 3))))),
            ),
        ),
    ]);
    assert!(r.accepted);
}

#[test]
fn invalid_mutable_borrow() {
    // let x = 1; let r = &mut x;
    let b = ex(2, ExprKind::Unary(UnOp::RefMut, Box::new(ident(2, "x"))));
    let r = run(vec![
        slet(1, "x", false, lit_int(1, 1)),
        slet(2, "r", false, b),
    ]);
    one_error(&r, DiagKind::InvalidMutableBorrow);
}

#[test]
fn conflicting_mutable_borrows() {
    // let mut m = 1; let r1 = &mut m; let r2 = &mut m;
    let b1 = ex(2, ExprKind::Unary(UnOp::RefMut, Box::new(ident(2, "m"))));
    let b2 = ex(3, ExprKind::Unary(UnOp::RefMut, Box::new(ident(3, "m"))));
    let r = run(vec![
        slet(1, "m", true, lit_int(1, 1)),
        slet(2, "r1", false, b1),
        slet(3, "r2", false, b2),
    ]);
    one_error(&r, DiagKind::ConflictingBorrow);
    assert_eq!(r.diagnostics[0].pos, 3);
}

#[test]
fn shared_borrow_is_free() {
    // let x = 1; let r = &x;
    let b = ex(2, ExprKind::Unary(UnOp::Ref, Box::new(ident(2, "x"))));
    let r = run(vec![
        slet(1, "x", false, lit_int(1, 1)),
        slet(2, "r", false, b),
    ]);
    assert!(r.accepted);
}

#[test]
fn arity_mismatch() {
    // fn f(a: i32) -> i32 { return a; } f();
    let body = vec![st(2, StmtKind::Return(Some(Box::new(ident(2, "a")))))];
    let f = st(
        1,
        StmtKind::Fn(
            "f".to_string(),
            vec![Param { name: "a".to_string(), ty: i32t(), pos: 1 }],
            i32t(),
            body,
        ),
    );
    let r = run(vec![f, st(3, StmtKind::Expr(Box::new(call(3, ident(3, "f"), vec![]))))]);
    one_error(&r, DiagKind::ArityMismatch);
}

#[test]
fn argument_type_mismatch() {
    // fn f(a: i32) -> i32 { return a; } f(true);
    let body = vec![st(2, StmtKind::Return(Some(Box::new(ident(2, "a")))))];
    let f = st(
        1,
        StmtKind::Fn(
            "f".to_string(),
            vec![Param { name: "a".to_string(), ty: i32t(), pos: 1 }],
            i32t(),
            body,
        ),
    );
    let c = call(3, ident(3, "f"), vec![boolean(3, true)]);
    let r = run(vec![f, st(3, StmtKind::Expr(Box::new(c)))]);
    one_error(&r, DiagKind::ArgumentTypeMismatch);
}

#[test]
fn not_indexable() {
    // let v = 5[0];
    let idx = ex(1, ExprKind::Index(Box::new(lit_int(1, 5)), Box::new(lit_int(1, 0))));
    let r = run(vec![slet(1, "v", false, idx)]);
    one_error(&r, DiagKind::NotIndexable);
}

#[test]
fn non_boolean_condition() {
    // while 5 { }
    let w = st(1, StmtKind::While(Box::new(lit_int(1, 5)), Vec::<Stmt>::new()));
    let r = run(vec![w]);
    one_error(&r, DiagKind::NonBooleanCondition);
}

#[test]
fn mixed_arithmetic_is_rejected() {
    // let a = 5; let b = 2.5; let c = a + b;
    let fl = ex(2, ExprKind::Lit(Lit::Float));
    let sum = ex(3, ExprKind::Binary(BinOp::Add, Box::new(ident(3, "a")), Box::new(ident(3, "b"))));
    let r = run(vec![
        slet(1, "a", false, lit_int(1, 5)),
        slet(2, "b", false, fl),
        slet(3, "c", false, sum),
    ]);
    one_error(&r, DiagKind::TypeMismatch);
}

#[test]
fn string_literal_is_not_a_char() {
    // let inicial: char = "A";
    let s = st(
        1,
        StmtKind::Let(
            "inicial".to_string(),
            false,
            Some(Type::Char),
            Box::new(ex(1, ExprKind::Lit(Lit::Str("A".to_string())))),
        ),
    );
    let r = run(vec![s]);
    one_error(&r, DiagKind::TypeMismatch);
}

#[test]
fn messages_are_fixed_per_kind() {
    let r = run(vec![slet(1, "y", false, ident(1, "z"))]);
    assert_eq!(r.diagnostics[0].message(), "use of an undeclared identifier");
}
