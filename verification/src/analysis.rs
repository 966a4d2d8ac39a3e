//! The analyzer: one depth-first traversal of the tree that interleaves
//! binding resolution, mutability tracking, type checking and control-flow
//! checks, collecting diagnostics into the run's sink.
//!
//! Every executable piece is proved to agree exactly with a spec-level
//! interpreter (`sp_expr`, `sp_stmt`, ...); the whole run is therefore a
//! mathematical function of the input tree, which is what makes the
//! analyzer's output deterministic.

use vstd::prelude::*;
use crate::ast::{ClosureParam, Expr, ExprKind, Lit, Param, Program, Stmt, StmtKind, BinOp, UnOp};
use crate::diag::{DiagKind, Diagnostic, spec_error_at, spec_has_error};
use crate::scope::{BindKind, Binding, BindingV, Run, RunV, ScopeKind, ScopeV, binds_view, bview, names_view, spec_scope_has, sv_declare, sv_enter, sv_exit, sv_has_borrow, sv_in_upcoming, sv_note_borrow, sv_push_diag, sv_resolve};
use crate::types::{FloatWidth, IntWidth, Type, TypeList, compatible, cast_allowed, duplicate_list, spec_cast_allowed, spec_compatible, spec_is_numeric, spec_list_len, type_eq};

verus! {

// ---------------------------------------------------------------------------
// Names declared by a statement list (the "upcoming" set of its scope).
// ---------------------------------------------------------------------------

/// The names a single statement declares into its surrounding scope.
pub open spec fn sp_stmt_decl(s: Stmt) -> Seq<Seq<char>> {
    match s.kind {
        StmtKind::Let(n, _, _, _) => seq![n@],
        StmtKind::Const(n, _, _) => seq![n@],
        StmtKind::Fn(n, _, _, _) => seq![n@],
        _ => seq![],
    }
}

/// All names declared by the statements of one list, in order.
pub open spec fn sp_decl_names(ss: Seq<Stmt>) -> Seq<Seq<char>>
    decreases ss.len(),
{
    if ss.len() == 0 {
        seq![]
    } else {
        sp_decl_names(ss.drop_last()) + sp_stmt_decl(ss.last())
    }
}

/// See `sp_decl_names`.
pub fn decl_names(ss: &Vec<Stmt>) -> (r: Vec<String>)
    ensures
        names_view(r@) == sp_decl_names(ss@),
{
    let mut acc: Vec<String> = Vec::new();
    let mut i: usize = 0;
    proof {
        assert(ss@.take(0) =~= Seq::<Stmt>::empty());
        assert(names_view(acc@) =~= sp_decl_names(ss@.take(0)));
    }
    while i < ss.len()
        invariant
            i <= ss@.len(),
            names_view(acc@) == sp_decl_names(ss@.take(i as int)),
        decreases ss@.len() - i,
    {
        proof {
            assert(ss@.take(i as int + 1).drop_last() =~= ss@.take(i as int));
            assert(ss@.take(i as int + 1).last() == ss@[i as int]);
        }
        match &ss[i].kind {
            StmtKind::Let(n, _, _, _) => {
                acc.push(n.clone());
            },
            StmtKind::Const(n, _, _) => {
                acc.push(n.clone());
            },
            StmtKind::Fn(n, _, _, _) => {
                acc.push(n.clone());
            },
            _ => {},
        }
        proof {
            assert(names_view(acc@) =~= sp_decl_names(ss@.take(i as int + 1)));
        }
        i = i + 1;
    }
    proof {
        assert(ss@.take(ss@.len() as int) =~= ss@);
    }
    acc
}

// ---------------------------------------------------------------------------
// Literal typing.
// ---------------------------------------------------------------------------

/// The intrinsic type of a literal. Integer literals default to the 32-bit
/// integer type and float literals to the 64-bit float type; a string
/// literal is an array of characters.
pub open spec fn sp_lit_type(l: Lit) -> Type {
    match l {
        Lit::Bool(_) => Type::Bool,
        Lit::Int(_) => Type::Int(IntWidth::W32),
        Lit::Float => Type::Float(FloatWidth::W64),
        Lit::Char(_) => Type::Char,
        Lit::Str(s) => Type::Array(Box::new(Type::Char), s@.len() as usize),
    }
}

/// See `sp_lit_type`.
pub fn lit_type(l: &Lit) -> (t: Type)
    ensures
        t == sp_lit_type(*l),
{
    match l {
        Lit::Bool(_) => Type::Bool,
        Lit::Int(_) => Type::Int(IntWidth::W32),
        Lit::Float => Type::Float(FloatWidth::W64),
        Lit::Char(_) => Type::Char,
        Lit::Str(s) => {
            let n = s.as_str().unicode_len();
            Type::Array(Box::new(Type::Char), n)
        },
    }
}

// ---------------------------------------------------------------------------
// Building parameter-type lists.
// ---------------------------------------------------------------------------

/// The parameter-type list of a function declaration's parameters.
pub open spec fn sp_params_list(ps: Seq<Param>) -> TypeList
    decreases ps.len(),
{
    if ps.len() == 0 {
        TypeList::Nil
    } else {
        TypeList::Cons(ps[0].ty, Box::new(sp_params_list(ps.drop_first())))
    }
}

/// See `sp_params_list`; builds the suffix starting at `i`.
pub fn params_list_from(ps: &Vec<Param>, i: usize) -> (r: TypeList)
    requires
        i <= ps@.len(),
    ensures
        r == sp_params_list(ps@.skip(i as int)),
    decreases ps@.len() - i,
{
    if i == ps.len() {
        proof {
            assert(ps@.skip(i as int) =~= Seq::<Param>::empty());
        }
        TypeList::Nil
    } else {
        proof {
            assert(ps@.skip(i as int)[0] == ps@[i as int]);
            assert(ps@.skip(i as int).drop_first() =~= ps@.skip(i as int + 1));
        }
        TypeList::Cons(ps[i].ty.duplicate(), Box::new(params_list_from(ps, i + 1)))
    }
}

/// A parameter-type list holding the given types, in order.
pub open spec fn sp_types_list(ts: Seq<Type>) -> TypeList
    decreases ts.len(),
{
    if ts.len() == 0 {
        TypeList::Nil
    } else {
        TypeList::Cons(ts[0], Box::new(sp_types_list(ts.drop_first())))
    }
}

/// See `sp_types_list`; builds the suffix starting at `i`.
pub fn types_list_from(ts: &Vec<Type>, i: usize) -> (r: TypeList)
    requires
        i <= ts@.len(),
    ensures
        r == sp_types_list(ts@.skip(i as int)),
    decreases ts@.len() - i,
{
    if i == ts.len() {
        proof {
            assert(ts@.skip(i as int) =~= Seq::<Type>::empty());
        }
        TypeList::Nil
    } else {
        proof {
            assert(ts@.skip(i as int)[0] == ts@[i as int]);
            assert(ts@.skip(i as int).drop_first() =~= ts@.skip(i as int + 1));
        }
        TypeList::Cons(ts[i].duplicate(), Box::new(types_list_from(ts, i + 1)))
    }
}

// ---------------------------------------------------------------------------
// Call-site checks.
// ---------------------------------------------------------------------------

/// Whether the parameter list has exactly `k` entries.
pub fn arity_matches(ps: &TypeList, k: usize) -> (r: bool)
    ensures
        r == (spec_list_len(*ps) == k as nat),
    decreases *ps,
{
    match ps {
        TypeList::Nil => k == 0,
        TypeList::Cons(_, rest) => k > 0 && arity_matches(&**rest, k - 1),
    }
}

/// Pointwise compatibility of argument types against a parameter list,
/// including the length.
pub open spec fn sp_args_compat(ts: Seq<Type>, ps: TypeList) -> bool
    decreases ps,
{
    match ps {
        TypeList::Nil => ts.len() == 0,
        TypeList::Cons(p, rest) => ts.len() > 0 && spec_compatible(ts[0], p) && sp_args_compat(
            ts.drop_first(),
            *rest,
        ),
    }
}

/// See `sp_args_compat`; checks the suffix of `ts` starting at `i`.
pub fn args_compat_from(ts: &Vec<Type>, i: usize, ps: &TypeList) -> (r: bool)
    requires
        i <= ts@.len(),
    ensures
        r == sp_args_compat(ts@.skip(i as int), *ps),
    decreases *ps,
{
    match ps {
        TypeList::Nil => {
            proof {
                assert(ts@.skip(i as int).len() == ts@.len() - i);
            }
            i == ts.len()
        },
        TypeList::Cons(p, rest) => {
            if i == ts.len() {
                false
            } else {
                proof {
                    assert(ts@.skip(i as int)[0] == ts@[i as int]);
                    assert(ts@.skip(i as int).drop_first() =~= ts@.skip(i as int + 1));
                }
                compatible(&ts[i], p) && args_compat_from(ts, i + 1, rest)
            }
        },
    }
}

/// Whether every type of the sequence is compatible with `elem`.
pub open spec fn sp_all_compat(ts: Seq<Type>, elem: Type) -> bool {
    forall|i: int| 0 <= i < ts.len() ==> spec_compatible(ts[i], elem)
}

/// See `sp_all_compat`.
pub fn all_compat(ts: &Vec<Type>, elem: &Type) -> (r: bool)
    ensures
        r == sp_all_compat(ts@, *elem),
{
    let mut i: usize = 0;
    while i < ts.len()
        invariant
            i <= ts@.len(),
            forall|k: int| 0 <= k < i ==> spec_compatible(ts@[k], *elem),
        decreases ts@.len() - i,
    {
        if !compatible(&ts[i], elem) {
            return false;
        }
        i = i + 1;
    }
    true
}

// ---------------------------------------------------------------------------
// Structural return-path check (for MissingReturn).
// ---------------------------------------------------------------------------

/// Whether a statement list certainly returns before reaching its end:
/// its final statement is a `return`, or an `if`/`else` both of whose
/// branches certainly return. This is the structural approximation used by
/// the control-flow check; it does no dataflow.
pub open spec fn sp_always_returns(ss: Seq<Stmt>) -> bool
    decreases ss,
{
    if ss.len() == 0 {
        false
    } else {
        match ss.last().kind {
            StmtKind::Return(_) => true,
            StmtKind::If(_, t, e) => match e {
                Some(els) => sp_always_returns(t@) && sp_always_returns(els@),
                None => false,
            },
            _ => false,
        }
    }
}

/// See `sp_always_returns`.
pub fn always_returns(ss: &Vec<Stmt>) -> (r: bool)
    ensures
        r == sp_always_returns(ss@),
    decreases ss@,
{
    if ss.len() == 0 {
        return false;
    }
    proof {
        assert(ss@.last() == ss@[ss@.len() - 1]);
    }
    match &ss[ss.len() - 1].kind {
        StmtKind::Return(_) => true,
        StmtKind::If(_, t, e) => match e {
            Some(els) => always_returns(t) && always_returns(els),
            None => false,
        },
        _ => false,
    }
}

// ---------------------------------------------------------------------------
// Constant-foldability (for NonConstantInitializer).
// ---------------------------------------------------------------------------

/// Whether an expression is constant-foldable: a literal, a reference to a
/// constant binding, or unary/binary operators and casts over such.
pub open spec fn sp_is_const(scopes: Seq<ScopeV>, e: Expr) -> bool
    decreases e,
{
    match e.kind {
        ExprKind::Lit(_) => true,
        ExprKind::Ident(n) => match sv_resolve(scopes, n@) {
            Some(b) => b.kind == BindKind::Constant,
            None => false,
        },
        ExprKind::Unary(op, a) => (op == UnOp::Not || op == UnOp::Neg) && sp_is_const(scopes, *a),
        ExprKind::Binary(_, a, b) => sp_is_const(scopes, *a) && sp_is_const(scopes, *b),
        ExprKind::Cast(a, _) => sp_is_const(scopes, *a),
        _ => false,
    }
}

/// See `sp_is_const`.
pub fn is_const_expr(run: &Run, e: &Expr) -> (r: bool)
    ensures
        r == sp_is_const(run@.scopes, *e),
    decreases *e,
{
    match &e.kind {
        ExprKind::Lit(_) => true,
        ExprKind::Ident(n) => match run.resolve(n) {
            Some((si, bi)) => {
                let k = run.scopes[si].bindings[bi].kind;
                k == BindKind::Constant
            },
            None => false,
        },
        ExprKind::Unary(op, a) => (*op == UnOp::Not || *op == UnOp::Neg) && is_const_expr(
            run,
            &**a,
        ),
        ExprKind::Binary(_, a, b) => is_const_expr(run, &**a) && is_const_expr(run, &**b),
        ExprKind::Cast(a, _) => is_const_expr(run, &**a),
        _ => false,
    }
}

} // verus!

// ---------------------------------------------------------------------------
// Closure parameter inference.
//
// A closure parameter without an annotation takes its type from the first
// constraining usage inside the closure body, in preorder: a logical
// operator or a condition constrains it to bool, an array index position to
// the default integer, and an arithmetic or comparison operator to the type
// of the other operand (the default integer when that operand determines
// none). A parameter with no constraining usage at all is ambiguous.
// ---------------------------------------------------------------------------

verus! {

/// The first of two optional findings.
pub open spec fn sp_opt_or(a: Option<Type>, b: Option<Type>) -> Option<Type> {
    match a {
        Some(t) => Some(t),
        None => b,
    }
}

/// Whether `e` is exactly a reference to the identifier `name`.
pub open spec fn sp_is_ident(e: Expr, name: Seq<char>) -> bool {
    match e.kind {
        ExprKind::Ident(n) => n@ == name,
        _ => false,
    }
}

/// The type the other operand of an arithmetic or comparison operator
/// imposes on a parameter: a literal's type, a resolvable identifier's
/// type, and otherwise the default integer.
pub open spec fn sp_other_type(scopes: Seq<ScopeV>, e: Expr) -> Type {
    match e.kind {
        ExprKind::Lit(l) => sp_lit_type(l),
        ExprKind::Ident(n) => match sv_resolve(scopes, n@) {
            Some(b) => b.ty,
            None => Type::Int(IntWidth::W32),
        },
        _ => Type::Int(IntWidth::W32),
    }
}

/// See `sp_other_type`.
pub fn other_type(run: &Run, e: &Expr) -> (t: Type)
    ensures
        t == sp_other_type(run@.scopes, *e),
{
    match &e.kind {
        ExprKind::Lit(l) => lit_type(l),
        ExprKind::Ident(n) => match run.resolve(n) {
            Some((si, bi)) => run.scopes[si].bindings[bi].ty.duplicate(),
            None => Type::Int(IntWidth::W32),
        },
        _ => Type::Int(IntWidth::W32),
    }
}

/// The first constraining usage of `name` in an expression, in preorder.
pub open spec fn sp_hint_expr(scopes: Seq<ScopeV>, name: Seq<char>, e: Expr) -> Option<Type>
    decreases e,
{
    match e.kind {
        ExprKind::Lit(_) => None,
        ExprKind::Ident(_) => None,
        ExprKind::Unary(op, a) => if op == UnOp::Not && sp_is_ident(*a, name) {
            Some(Type::Bool)
        } else if op == UnOp::Neg && sp_is_ident(*a, name) {
            Some(Type::Int(IntWidth::W32))
        } else {
            sp_hint_expr(scopes, name, *a)
        },
        ExprKind::Binary(op, a, b) => if op.spec_is_logic() && (sp_is_ident(*a, name)
            || sp_is_ident(*b, name)) {
            Some(Type::Bool)
        } else if (op.spec_is_arith() || op.spec_is_cmp()) && sp_is_ident(*a, name) {
            Some(sp_other_type(scopes, *b))
        } else if (op.spec_is_arith() || op.spec_is_cmp()) && sp_is_ident(*b, name) {
            Some(sp_other_type(scopes, *a))
        } else {
            sp_opt_or(sp_hint_expr(scopes, name, *a), sp_hint_expr(scopes, name, *b))
        },
        ExprKind::ArrayLit(es) => sp_hint_exprs(scopes, name, es@),
        ExprKind::ArrayRepeat(a, _) => sp_hint_expr(scopes, name, *a),
        ExprKind::Index(base, idx) => if sp_is_ident(*idx, name) {
            Some(Type::Int(IntWidth::W32))
        } else {
            sp_opt_or(sp_hint_expr(scopes, name, *base), sp_hint_expr(scopes, name, *idx))
        },
        ExprKind::Call(c, args) => sp_opt_or(
            sp_hint_expr(scopes, name, *c),
            sp_hint_exprs(scopes, name, args@),
        ),
        ExprKind::Cast(a, _) => sp_hint_expr(scopes, name, *a),
        ExprKind::Closure(_, _, _, _) => None,
    }
}

/// The first constraining usage of `name` in a list of expressions.
pub open spec fn sp_hint_exprs(scopes: Seq<ScopeV>, name: Seq<char>, es: Seq<Expr>) -> Option<
    Type,
>
    decreases es,
{
    if es.len() == 0 {
        None
    } else {
        sp_opt_or(sp_hint_expr(scopes, name, es[0]), sp_hint_exprs(scopes, name, es.drop_first()))
    }
}

/// The first constraining usage of `name` in a statement.
pub open spec fn sp_hint_stmt(scopes: Seq<ScopeV>, name: Seq<char>, s: Stmt) -> Option<Type>
    decreases s,
{
    match s.kind {
        StmtKind::Let(_, _, _, init) => sp_hint_expr(scopes, name, *init),
        StmtKind::Const(_, _, init) => sp_hint_expr(scopes, name, *init),
        StmtKind::Assign(_, v) => sp_hint_expr(scopes, name, *v),
        StmtKind::Expr(e) => sp_hint_expr(scopes, name, *e),
        StmtKind::While(c, body) => if sp_is_ident(*c, name) {
            Some(Type::Bool)
        } else {
            sp_opt_or(sp_hint_expr(scopes, name, *c), sp_hint_stmts(scopes, name, body@))
        },
        StmtKind::For(_, iter, body) => sp_opt_or(
            sp_hint_expr(scopes, name, *iter),
            sp_hint_stmts(scopes, name, body@),
        ),
        StmtKind::If(c, t, e) => if sp_is_ident(*c, name) {
            Some(Type::Bool)
        } else {
            sp_opt_or(
                sp_hint_expr(scopes, name, *c),
                sp_opt_or(
                    sp_hint_stmts(scopes, name, t@),
                    match e {
                        Some(els) => sp_hint_stmts(scopes, name, els@),
                        None => None,
                    },
                ),
            )
        },
        StmtKind::Return(o) => match o {
            Some(e) => sp_hint_expr(scopes, name, *e),
            None => None,
        },
        StmtKind::Fn(_, _, _, _) => None,
    }
}

/// The first constraining usage of `name` in a statement list.
pub open spec fn sp_hint_stmts(scopes: Seq<ScopeV>, name: Seq<char>, ss: Seq<Stmt>) -> Option<
    Type,
>
    decreases ss,
{
    if ss.len() == 0 {
        None
    } else {
        sp_opt_or(sp_hint_stmt(scopes, name, ss[0]), sp_hint_stmts(scopes, name, ss.drop_first()))
    }
}

/// See `sp_hint_expr`.
pub fn hint_expr(run: &Run, name: &String, e: &Expr) -> (r: Option<Type>)
    ensures
        r == sp_hint_expr(run@.scopes, name@, *e),
    decreases *e,
{
    match &e.kind {
        ExprKind::Lit(_) => None,
        ExprKind::Ident(_) => None,
        ExprKind::Unary(op, a) => {
            if *op == UnOp::Not && is_ident(&**a, name) {
                Some(Type::Bool)
            } else if *op == UnOp::Neg && is_ident(&**a, name) {
                Some(Type::Int(IntWidth::W32))
            } else {
                hint_expr(run, name, &**a)
            }
        },
        ExprKind::Binary(op, a, b) => {
            if op.is_logic() && (is_ident(&**a, name) || is_ident(&**b, name)) {
                Some(Type::Bool)
            } else if (op.is_arith() || op.is_cmp()) && is_ident(&**a, name) {
                Some(other_type(run, &**b))
            } else if (op.is_arith() || op.is_cmp()) && is_ident(&**b, name) {
                Some(other_type(run, &**a))
            } else {
                match hint_expr(run, name, &**a) {
                    Some(t) => Some(t),
                    None => hint_expr(run, name, &**b),
                }
            }
        },
        ExprKind::ArrayLit(es) => hint_exprs(run, name, es),
        ExprKind::ArrayRepeat(a, _) => hint_expr(run, name, &**a),
        ExprKind::Index(base, idx) => {
            if is_ident(&**idx, name) {
                Some(Type::Int(IntWidth::W32))
            } else {
                match hint_expr(run, name, &**base) {
                    Some(t) => Some(t),
                    None => hint_expr(run, name, &**idx),
                }
            }
        },
        ExprKind::Call(c, args) => {
            match hint_expr(run, name, &**c) {
                Some(t) => Some(t),
                None => hint_exprs(run, name, args),
            }
        },
        ExprKind::Cast(a, _) => hint_expr(run, name, &**a),
        ExprKind::Closure(_, _, _, _) => None,
    }
}

/// See `sp_is_ident`.
pub fn is_ident(e: &Expr, name: &String) -> (r: bool)
    ensures
        r == sp_is_ident(*e, name@),
{
    match &e.kind {
        ExprKind::Ident(n) => *n == *name,
        _ => false,
    }
}

/// See `sp_hint_exprs`.
pub fn hint_exprs(run: &Run, name: &String, es: &Vec<Expr>) -> (r: Option<Type>)
    ensures
        r == sp_hint_exprs(run@.scopes, name@, es@),
    decreases es@,
{
    let mut i: usize = 0;
    proof {
        assert(es@.skip(0) =~= es@);
    }
    while i < es.len()
        invariant
            i <= es@.len(),
            sp_hint_exprs(run@.scopes, name@, es@) == sp_hint_exprs(
                run@.scopes,
                name@,
                es@.skip(i as int),
            ),
        decreases es@.len() - i,
    {
        proof {
            assert(es@.skip(i as int)[0] == es@[i as int]);
            assert(es@.skip(i as int).drop_first() =~= es@.skip(i as int + 1));
        }
        let h = hint_expr(run, name, &es[i]);
        if let Some(t) = h {
            return Some(t);
        }
        i = i + 1;
    }
    None
}

/// See `sp_hint_stmt`.
pub fn hint_stmt(run: &Run, name: &String, s: &Stmt) -> (r: Option<Type>)
    ensures
        r == sp_hint_stmt(run@.scopes, name@, *s),
    decreases *s,
{
    match &s.kind {
        StmtKind::Let(_, _, _, init) => hint_expr(run, name, &**init),
        StmtKind::Const(_, _, init) => hint_expr(run, name, &**init),
        StmtKind::Assign(_, v) => hint_expr(run, name, &**v),
        StmtKind::Expr(e) => hint_expr(run, name, &**e),
        StmtKind::While(c, body) => {
            if is_ident(&**c, name) {
                Some(Type::Bool)
            } else {
                match hint_expr(run, name, &**c) {
                    Some(t) => Some(t),
                    None => hint_stmts(run, name, body),
                }
            }
        },
        StmtKind::For(_, iter, body) => {
            match hint_expr(run, name, &**iter) {
                Some(t) => Some(t),
                None => hint_stmts(run, name, body),
            }
        },
        StmtKind::If(c, t, e) => {
            if is_ident(&**c, name) {
                Some(Type::Bool)
            } else {
                match hint_expr(run, name, &**c) {
                    Some(ty) => Some(ty),
                    None => match hint_stmts(run, name, t) {
                        Some(ty) => Some(ty),
                        None => match e {
                            Some(els) => hint_stmts(run, name, els),
                            None => None,
                        },
                    },
                }
            }
        },
        StmtKind::Return(o) => match o {
            Some(e) => hint_expr(run, name, &**e),
            None => None,
        },
        StmtKind::Fn(_, _, _, _) => None,
    }
}

/// See `sp_hint_stmts`.
pub fn hint_stmts(run: &Run, name: &String, ss: &Vec<Stmt>) -> (r: Option<Type>)
    ensures
        r == sp_hint_stmts(run@.scopes, name@, ss@),
    decreases ss@,
{
    let mut i: usize = 0;
    proof {
        assert(ss@.skip(0) =~= ss@);
    }
    while i < ss.len()
        invariant
            i <= ss@.len(),
            sp_hint_stmts(run@.scopes, name@, ss@) == sp_hint_stmts(
                run@.scopes,
                name@,
                ss@.skip(i as int),
            ),
        decreases ss@.len() - i,
    {
        proof {
            assert(ss@.skip(i as int)[0] == ss@[i as int]);
            assert(ss@.skip(i as int).drop_first() =~= ss@.skip(i as int + 1));
        }
        let h = hint_stmt(run, name, &ss[i]);
        if let Some(t) = h {
            return Some(t);
        }
        i = i + 1;
    }
    None
}

} // verus!

// ---------------------------------------------------------------------------
// Closure parameter typing and parameter declaration.
// ---------------------------------------------------------------------------

verus! {

/// The inferred type of one closure parameter, and whether it was
/// ambiguous: the annotation if present, else the first constraining usage
/// in the body statements or the tail expression, else `Unknown` with the
/// ambiguity flag set.
pub open spec fn sp_cparam_type(
    scopes: Seq<ScopeV>,
    p: ClosureParam,
    body: Seq<Stmt>,
    tail: Option<Box<Expr>>,
) -> (Type, bool) {
    match p.ty {
        Some(t) => (t, false),
        None => match sp_opt_or(
            sp_hint_stmts(scopes, p.name@, body),
            match tail {
                Some(te) => sp_hint_expr(scopes, p.name@, *te),
                None => None,
            },
        ) {
            Some(t) => (t, false),
            None => (Type::Unknown, true),
        },
    }
}

/// See `sp_cparam_type`.
pub fn cparam_type(run: &Run, p: &ClosureParam, body: &Vec<Stmt>, tail: &Option<Box<Expr>>) -> (r:
    (Type, bool))
    ensures
        r == sp_cparam_type(run@.scopes, *p, body@, *tail),
{
    match &p.ty {
        Some(t) => (t.duplicate(), false),
        None => {
            let h = match hint_stmts(run, &p.name, body) {
                Some(t) => Some(t),
                None => match tail {
                    Some(te) => hint_expr(run, &p.name, &**te),
                    None => None,
                },
            };
            match h {
                Some(t) => (t, false),
                None => (Type::Unknown, true),
            }
        },
    }
}

/// Types all closure parameters in order, reporting `AmbiguousType` at each
/// parameter no constraint determines.
pub open spec fn sp_cparams(
    st: RunV,
    ps: Seq<ClosureParam>,
    body: Seq<Stmt>,
    tail: Option<Box<Expr>>,
    acc: Seq<Type>,
) -> (RunV, Seq<Type>)
    decreases ps.len(),
{
    if ps.len() == 0 {
        (st, acc)
    } else {
        let (t, amb) = sp_cparam_type(st.scopes, ps[0], body, tail);
        let st1 = if amb {
            sv_push_diag(st, DiagKind::AmbiguousType, ps[0].pos)
        } else {
            st
        };
        sp_cparams(st1, ps.drop_first(), body, tail, acc.push(t))
    }
}

/// See `sp_cparams`.
pub fn cparams(run: &mut Run, ps: &Vec<ClosureParam>, body: &Vec<Stmt>, tail: &Option<Box<Expr>>)
    -> (ts: Vec<Type>)
    ensures
        final(run)@ == sp_cparams(old(run)@, ps@, body@, *tail, seq![]).0,
        ts@ == sp_cparams(old(run)@, ps@, body@, *tail, seq![]).1,
        ts@.len() == ps@.len(),
{
    let mut ts: Vec<Type> = Vec::new();
    let mut i: usize = 0;
    proof {
        assert(ps@.skip(0) =~= ps@);
        assert(ts@ =~= Seq::<Type>::empty());
    }
    while i < ps.len()
        invariant
            i <= ps@.len(),
            ts@.len() == i as nat,
            sp_cparams(old(run)@, ps@, body@, *tail, seq![]) == sp_cparams(
                run@,
                ps@.skip(i as int),
                body@,
                *tail,
                ts@,
            ),
        decreases ps@.len() - i,
    {
        proof {
            assert(ps@.skip(i as int)[0] == ps@[i as int]);
            assert(ps@.skip(i as int).drop_first() =~= ps@.skip(i as int + 1));
        }
        let (t, amb) = cparam_type(run, &ps[i], body, tail);
        if amb {
            run.push_diag(DiagKind::AmbiguousType, ps[i].pos);
        }
        ts.push(t);
        i = i + 1;
    }
    proof {
        assert(ps@.skip(ps@.len() as int) =~= Seq::<ClosureParam>::empty());
    }
    ts
}

/// Declares the closure parameters into the (already entered) body scope.
pub open spec fn sp_declare_cparams(st: RunV, ps: Seq<ClosureParam>, ts: Seq<Type>) -> RunV
    decreases ps.len(),
{
    if ps.len() == 0 || ts.len() == 0 {
        st
    } else {
        sp_declare_cparams(
            sv_declare(
                st,
                BindingV {
                    name: ps[0].name@,
                    ty: ts[0],
                    mutable: false,
                    kind: BindKind::Parameter,
                    pos: ps[0].pos,
                    owner: 0,
                },
            ),
            ps.drop_first(),
            ts.drop_first(),
        )
    }
}

/// See `sp_declare_cparams`.
pub fn declare_cparams(run: &mut Run, ps: &Vec<ClosureParam>, ts: &Vec<Type>)
    requires
        ps@.len() == ts@.len(),
    ensures
        final(run)@ == sp_declare_cparams(old(run)@, ps@, ts@),
{
    let mut i: usize = 0;
    proof {
        assert(ps@.skip(0) =~= ps@);
        assert(ts@.skip(0) =~= ts@);
    }
    while i < ps.len()
        invariant
            i <= ps@.len(),
            ps@.len() == ts@.len(),
            sp_declare_cparams(old(run)@, ps@, ts@) == sp_declare_cparams(
                run@,
                ps@.skip(i as int),
                ts@.skip(i as int),
            ),
        decreases ps@.len() - i,
    {
        proof {
            assert(ps@.skip(i as int)[0] == ps@[i as int]);
            assert(ts@.skip(i as int)[0] == ts@[i as int]);
            assert(ps@.skip(i as int).drop_first() =~= ps@.skip(i as int + 1));
            assert(ts@.skip(i as int).drop_first() =~= ts@.skip(i as int + 1));
        }
        let b = Binding {
            name: ps[i].name.clone(),
            ty: ts[i].duplicate(),
            mutable: false,
            kind: BindKind::Parameter,
            pos: ps[i].pos,
            owner: 0,
        };
        run.declare(b);
        i = i + 1;
    }
    proof {
        assert(ps@.skip(ps@.len() as int) =~= Seq::<ClosureParam>::empty());
    }
}

/// Declares the parameters of a function declaration into its body scope.
pub open spec fn sp_declare_fn_params(st: RunV, ps: Seq<Param>) -> RunV
    decreases ps.len(),
{
    if ps.len() == 0 {
        st
    } else {
        sp_declare_fn_params(
            sv_declare(
                st,
                BindingV {
                    name: ps[0].name@,
                    ty: ps[0].ty,
                    mutable: false,
                    kind: BindKind::Parameter,
                    pos: ps[0].pos,
                    owner: 0,
                },
            ),
            ps.drop_first(),
        )
    }
}

/// See `sp_declare_fn_params`.
pub fn declare_fn_params(run: &mut Run, ps: &Vec<Param>)
    ensures
        final(run)@ == sp_declare_fn_params(old(run)@, ps@),
{
    let mut i: usize = 0;
    proof {
        assert(ps@.skip(0) =~= ps@);
    }
    while i < ps.len()
        invariant
            i <= ps@.len(),
            sp_declare_fn_params(old(run)@, ps@) == sp_declare_fn_params(
                run@,
                ps@.skip(i as int),
            ),
        decreases ps@.len() - i,
    {
        proof {
            assert(ps@.skip(i as int)[0] == ps@[i as int]);
            assert(ps@.skip(i as int).drop_first() =~= ps@.skip(i as int + 1));
        }
        let b = Binding {
            name: ps[i].name.clone(),
            ty: ps[i].ty.duplicate(),
            mutable: false,
            kind: BindKind::Parameter,
            pos: ps[i].pos,
            owner: 0,
        };
        run.declare(b);
        i = i + 1;
    }
    proof {
        assert(ps@.skip(ps@.len() as int) =~= Seq::<Param>::empty());
    }
}

} // verus!

// ---------------------------------------------------------------------------
// The spec-level interpreter: what one analysis run returns, as a
// mathematical function of the tree. The executable checker below is proved
// to agree with it exactly.
// ---------------------------------------------------------------------------

verus! {

/// Types an expression, threading the run state; returns the new state and
/// the expression's type. Failed checks record a diagnostic and recover
/// with `Unknown` (or the expected type) so one fault does not cascade.
pub open spec fn sp_expr(st: RunV, e: Expr) -> (RunV, Type)
    decreases e,
{
    match e.kind {
        ExprKind::Lit(l) => (st, sp_lit_type(l)),
        ExprKind::Ident(n) => match sv_resolve(st.scopes, n@) {
            Some(b) => (st, b.ty),
            None => if sv_in_upcoming(st.scopes, n@) {
                (sv_push_diag(st, DiagKind::UseBeforeDeclaration, e.pos), Type::Unknown)
            } else {
                (sv_push_diag(st, DiagKind::UnresolvedIdentifier, e.pos), Type::Unknown)
            },
        },
        ExprKind::Unary(op, a) => {
            let (st1, ta) = sp_expr(st, *a);
            if op == UnOp::Not {
                if spec_compatible(ta, Type::Bool) {
                    (st1, Type::Bool)
                } else {
                    (sv_push_diag(st1, DiagKind::TypeMismatch, e.pos), Type::Bool)
                }
            } else if op == UnOp::Neg {
                if ta is Unknown {
                    (st1, Type::Unknown)
                } else if spec_is_numeric(ta) {
                    (st1, ta)
                } else {
                    (sv_push_diag(st1, DiagKind::TypeMismatch, e.pos), Type::Unknown)
                }
            } else if op == UnOp::Ref {
                (st1, ta)
            } else {
                match (*a).kind {
                    ExprKind::Ident(n) => match sv_resolve(st1.scopes, n@) {
                        Some(b) => if !b.mutable {
                            (sv_push_diag(st1, DiagKind::InvalidMutableBorrow, e.pos), ta)
                        } else {
                            let st2 = if sv_has_borrow(st1.scopes, b.owner, n@) {
                                sv_push_diag(st1, DiagKind::ConflictingBorrow, e.pos)
                            } else {
                                st1
                            };
                            (sv_note_borrow(st2, b.owner, n@), ta)
                        },
                        None => (st1, ta),
                    },
                    _ => (st1, ta),
                }
            }
        },
        ExprKind::Binary(op, a, b) => {
            let (st1, ta) = sp_expr(st, *a);
            let (st2, tb) = sp_expr(st1, *b);
            if op.spec_is_logic() {
                if spec_compatible(ta, Type::Bool) && spec_compatible(tb, Type::Bool) {
                    (st2, Type::Bool)
                } else {
                    (sv_push_diag(st2, DiagKind::TypeMismatch, e.pos), Type::Bool)
                }
            } else if op.spec_is_arith() {
                if ta is Unknown || tb is Unknown {
                    (st2, Type::Unknown)
                } else if spec_is_numeric(ta) && ta == tb {
                    (st2, ta)
                } else {
                    (sv_push_diag(st2, DiagKind::TypeMismatch, e.pos), Type::Unknown)
                }
            } else {
                if spec_compatible(ta, tb) {
                    (st2, Type::Bool)
                } else {
                    (sv_push_diag(st2, DiagKind::TypeMismatch, e.pos), Type::Bool)
                }
            }
        },
        ExprKind::ArrayLit(es) => {
            let (st1, ts) = sp_exprs(st, es@, seq![]);
            if ts.len() == 0 {
                (st1, Type::Array(Box::new(Type::Unknown), 0))
            } else {
                let elem = ts[0];
                if sp_all_compat(ts, elem) {
                    (st1, Type::Array(Box::new(elem), es@.len() as usize))
                } else {
                    (
                        sv_push_diag(st1, DiagKind::TypeMismatch, e.pos),
                        Type::Array(Box::new(elem), es@.len() as usize),
                    )
                }
            }
        },
        ExprKind::ArrayRepeat(a, n) => {
            let (st1, ta) = sp_expr(st, *a);
            (st1, Type::Array(Box::new(ta), n))
        },
        ExprKind::Index(base, idx) => {
            let (st1, tb) = sp_expr(st, *base);
            let (st2, ti) = sp_expr(st1, *idx);
            let st3 = if ti is Unknown || ti is Int {
                st2
            } else {
                sv_push_diag(st2, DiagKind::IndexTypeError, e.pos)
            };
            match tb {
                Type::Array(el, _) => (st3, *el),
                Type::Unknown => (st3, Type::Unknown),
                _ => (sv_push_diag(st3, DiagKind::NotIndexable, e.pos), Type::Unknown),
            }
        },
        ExprKind::Call(c, args) => {
            let (st1, tc) = sp_expr(st, *c);
            let (st2, ts) = sp_exprs(st1, args@, seq![]);
            match tc {
                Type::Function(ps, ret) => if spec_list_len(*ps) != ts.len() {
                    (sv_push_diag(st2, DiagKind::ArityMismatch, e.pos), *ret)
                } else if !sp_args_compat(ts, *ps) {
                    (sv_push_diag(st2, DiagKind::ArgumentTypeMismatch, e.pos), *ret)
                } else {
                    (st2, *ret)
                },
                Type::Unknown => (st2, Type::Unknown),
                _ => (sv_push_diag(st2, DiagKind::TypeMismatch, e.pos), Type::Unknown),
            }
        },
        ExprKind::Cast(a, t) => {
            let (st1, ta) = sp_expr(st, *a);
            if spec_cast_allowed(ta, t) {
                (st1, t)
            } else {
                (sv_push_diag(st1, DiagKind::IllegalCast, e.pos), t)
            }
        },
        ExprKind::Closure(ps, retann, body, tail) => {
            let (st1, pts) = sp_cparams(st, ps@, body@, tail, seq![]);
            let ret0 = match retann {
                Some(t) => t,
                None => Type::Unknown,
            };
            let st2 = sv_enter(st1, ScopeKind::ClosureBody, sp_decl_names(body@));
            let st3 = sp_declare_cparams(st2, ps@, pts);
            let st4 = sp_stmts(st3, ret0, body@);
            let (st5, ttail) = match tail {
                Some(te) => sp_expr(st4, *te),
                None => (st4, Type::Unit),
            };
            let (st6, retf) = match retann {
                Some(t) => (
                    if spec_compatible(ttail, t) {
                        st5
                    } else {
                        sv_push_diag(st5, DiagKind::TypeMismatch, e.pos)
                    },
                    t,
                ),
                None => (st5, ttail),
            };
            (sv_exit(st6), Type::Function(Box::new(sp_types_list(pts)), Box::new(retf)))
        },
    }
}

/// Types a list of expressions left to right, accumulating their types.
pub open spec fn sp_exprs(st: RunV, es: Seq<Expr>, acc: Seq<Type>) -> (RunV, Seq<Type>)
    decreases es,
{
    if es.len() == 0 {
        (st, acc)
    } else {
        let (st1, t) = sp_expr(st, es[0]);
        sp_exprs(st1, es.drop_first(), acc.push(t))
    }
}

/// Checks one statement under the enclosing return-type context `ret`.
pub open spec fn sp_stmt(st: RunV, ret: Type, s: Stmt) -> RunV
    decreases s,
{
    match s.kind {
        StmtKind::Let(n, mt, ann, init) => {
            let (st1, ti) = sp_expr(st, *init);
            match ann {
                Some(t) => {
                    let st2 = if spec_compatible(ti, t) {
                        st1
                    } else {
                        sv_push_diag(st1, DiagKind::TypeMismatch, s.pos)
                    };
                    sv_declare(
                        st2,
                        BindingV {
                            name: n@,
                            ty: t,
                            mutable: mt,
                            kind: BindKind::Variable,
                            pos: s.pos,
                            owner: 0,
                        },
                    )
                },
                None => sv_declare(
                    st1,
                    BindingV {
                        name: n@,
                        ty: ti,
                        mutable: mt,
                        kind: BindKind::Variable,
                        pos: s.pos,
                        owner: 0,
                    },
                ),
            }
        },
        StmtKind::Const(n, ann, init) => {
            let (st1, ti) = sp_expr(st, *init);
            let st2 = if sp_is_const(st1.scopes, *init) {
                st1
            } else {
                sv_push_diag(st1, DiagKind::NonConstantInitializer, s.pos)
            };
            let st3 = if spec_compatible(ti, ann) {
                st2
            } else {
                sv_push_diag(st2, DiagKind::TypeMismatch, s.pos)
            };
            sv_declare(
                st3,
                BindingV {
                    name: n@,
                    ty: ann,
                    mutable: false,
                    kind: BindKind::Constant,
                    pos: s.pos,
                    owner: 0,
                },
            )
        },
        StmtKind::Assign(n, v) => {
            let (st1, tv) = sp_expr(st, *v);
            match sv_resolve(st1.scopes, n@) {
                Some(b) => {
                    let st2 = if b.mutable {
                        st1
                    } else {
                        sv_push_diag(st1, DiagKind::AssignToImmutable, s.pos)
                    };
                    if spec_compatible(tv, b.ty) {
                        st2
                    } else {
                        sv_push_diag(st2, DiagKind::TypeMismatch, s.pos)
                    }
                },
                None => if sv_in_upcoming(st1.scopes, n@) {
                    sv_push_diag(st1, DiagKind::UseBeforeDeclaration, s.pos)
                } else {
                    sv_push_diag(st1, DiagKind::UnresolvedIdentifier, s.pos)
                },
            }
        },
        StmtKind::Expr(e) => sp_expr(st, *e).0,
        StmtKind::While(c, body) => {
            let (st1, tc) = sp_expr(st, *c);
            let st2 = if spec_compatible(tc, Type::Bool) {
                st1
            } else {
                sv_push_diag(st1, DiagKind::NonBooleanCondition, s.pos)
            };
            sv_exit(sp_stmts(sv_enter(st2, ScopeKind::LoopBody, sp_decl_names(body@)), ret, body@))
        },
        StmtKind::For(v, iter, body) => {
            let (st1, ti) = sp_expr(st, *iter);
            let (st2, elem) = match ti {
                Type::Array(el, _) => (st1, *el),
                Type::Unknown => (st1, Type::Unknown),
                _ => (sv_push_diag(st1, DiagKind::TypeMismatch, s.pos), Type::Unknown),
            };
            let st3 = sv_enter(st2, ScopeKind::LoopBody, sp_decl_names(body@));
            let st4 = sv_declare(
                st3,
                BindingV {
                    name: v@,
                    ty: elem,
                    mutable: false,
                    kind: BindKind::Variable,
                    pos: s.pos,
                    owner: 0,
                },
            );
            sv_exit(sp_stmts(st4, ret, body@))
        },
        StmtKind::If(c, t, e) => {
            let (st1, tc) = sp_expr(st, *c);
            let st2 = if spec_compatible(tc, Type::Bool) {
                st1
            } else {
                sv_push_diag(st1, DiagKind::NonBooleanCondition, s.pos)
            };
            let st3 = sv_exit(
                sp_stmts(sv_enter(st2, ScopeKind::Block, sp_decl_names(t@)), ret, t@),
            );
            match e {
                Some(els) => sv_exit(
                    sp_stmts(sv_enter(st3, ScopeKind::Block, sp_decl_names(els@)), ret, els@),
                ),
                None => st3,
            }
        },
        StmtKind::Return(o) => {
            let (st1, tv) = match o {
                Some(e) => sp_expr(st, *e),
                None => (st, Type::Unit),
            };
            if spec_compatible(tv, ret) {
                st1
            } else {
                sv_push_diag(st1, DiagKind::TypeMismatch, s.pos)
            }
        },
        StmtKind::Fn(n, ps, retty, body) => {
            let ft = Type::Function(Box::new(sp_params_list(ps@)), Box::new(retty));
            let st1 = sv_declare(
                st,
                BindingV {
                    name: n@,
                    ty: ft,
                    mutable: false,
                    kind: BindKind::Function,
                    pos: s.pos,
                    owner: 0,
                },
            );
            let st2 = if retty is Unit || sp_always_returns(body@) {
                st1
            } else {
                sv_push_diag(st1, DiagKind::MissingReturn, s.pos)
            };
            let st3 = sv_enter(st2, ScopeKind::FunctionBody, sp_decl_names(body@));
            let st4 = sp_declare_fn_params(st3, ps@);
            sv_exit(sp_stmts(st4, retty, body@))
        },
    }
}

/// Checks a statement list in order.
pub open spec fn sp_stmts(st: RunV, ret: Type, ss: Seq<Stmt>) -> RunV
    decreases ss,
{
    if ss.len() == 0 {
        st
    } else {
        sp_stmts(sp_stmt(st, ret, ss[0]), ret, ss.drop_first())
    }
}

/// The initial state of a run on `p`: one global scope whose upcoming names
/// are the top-level declarations.
pub open spec fn sp_init(p: Program) -> RunV {
    sv_enter(
        RunV { scopes: seq![], log: seq![], diags: seq![], next_id: 0 },
        ScopeKind::Global,
        sp_decl_names(p.stmts@),
    )
}

/// The final state of one analysis run on `p`: the global scope's bindings
/// end in the log, and the diagnostics are complete.
pub open spec fn sp_program(p: Program) -> RunV {
    sv_exit(sp_stmts(sp_init(p), Type::Unit, p.stmts@))
}

} // verus!

// ---------------------------------------------------------------------------
// The executable checker, proved to agree with the spec interpreter.
// ---------------------------------------------------------------------------

verus! {

/// Types an expression, recording diagnostics into the run.
#[verifier::rlimit(100)]
pub fn check_expr(run: &mut Run, e: &Expr) -> (t: Type)
    ensures
        final(run)@ == sp_expr(old(run)@, *e).0,
        t == sp_expr(old(run)@, *e).1,
    decreases *e,
{
    match &e.kind {
        ExprKind::Lit(l) => lit_type(l),
        ExprKind::Ident(n) => {
            match run.resolve(n) {
                Some((si, bi)) => run.scopes[si].bindings[bi].ty.duplicate(),
                None => {
                    if run.in_upcoming(n) {
                        run.push_diag(DiagKind::UseBeforeDeclaration, e.pos);
                    } else {
                        run.push_diag(DiagKind::UnresolvedIdentifier, e.pos);
                    }
                    Type::Unknown
                },
            }
        },
        ExprKind::Unary(op, a) => {
            let ta = check_expr(run, &**a);
            if *op == UnOp::Not {
                if compatible(&ta, &Type::Bool) {
                    Type::Bool
                } else {
                    run.push_diag(DiagKind::TypeMismatch, e.pos);
                    Type::Bool
                }
            } else if *op == UnOp::Neg {
                if matches!(ta, Type::Unknown) {
                    Type::Unknown
                } else if ta.is_numeric() {
                    ta
                } else {
                    run.push_diag(DiagKind::TypeMismatch, e.pos);
                    Type::Unknown
                }
            } else if *op == UnOp::Ref {
                ta
            } else {
                match &(**a).kind {
                    ExprKind::Ident(n) => {
                        match run.resolve(n) {
                            Some((si, bi)) => {
                                let mutable = run.scopes[si].bindings[bi].mutable;
                                let owner = run.scopes[si].bindings[bi].owner;
                                if !mutable {
                                    run.push_diag(DiagKind::InvalidMutableBorrow, e.pos);
                                } else {
                                    if run.has_borrow(owner, n) {
                                        run.push_diag(DiagKind::ConflictingBorrow, e.pos);
                                    }
                                    run.note_borrow(owner, n.clone());
                                }
                                ta
                            },
                            None => ta,
                        }
                    },
                    _ => ta,
                }
            }
        },
        ExprKind::Binary(op, a, b) => {
            let ta = check_expr(run, &**a);
            let tb = check_expr(run, &**b);
            if op.is_logic() {
                if compatible(&ta, &Type::Bool) && compatible(&tb, &Type::Bool) {
                    Type::Bool
                } else {
                    run.push_diag(DiagKind::TypeMismatch, e.pos);
                    Type::Bool
                }
            } else if op.is_arith() {
                if matches!(ta, Type::Unknown) || matches!(tb, Type::Unknown) {
                    Type::Unknown
                } else if ta.is_numeric() && type_eq(&ta, &tb) {
                    ta
                } else {
                    run.push_diag(DiagKind::TypeMismatch, e.pos);
                    Type::Unknown
                }
            } else {
                if compatible(&ta, &tb) {
                    Type::Bool
                } else {
                    run.push_diag(DiagKind::TypeMismatch, e.pos);
                    Type::Bool
                }
            }
        },
        ExprKind::ArrayLit(es) => {
            let ts = check_exprs(run, es);
            if ts.len() == 0 {
                Type::Array(Box::new(Type::Unknown), 0)
            } else {
                let elem = ts[0].duplicate();
                if all_compat(&ts, &elem) {
                    Type::Array(Box::new(elem), es.len())
                } else {
                    run.push_diag(DiagKind::TypeMismatch, e.pos);
                    Type::Array(Box::new(elem), es.len())
                }
            }
        },
        ExprKind::ArrayRepeat(a, n) => {
            let ta = check_expr(run, &**a);
            Type::Array(Box::new(ta), *n)
        },
        ExprKind::Index(base, idx) => {
            let tb = check_expr(run, &**base);
            let ti = check_expr(run, &**idx);
            if !(matches!(ti, Type::Unknown) || matches!(ti, Type::Int(_))) {
                run.push_diag(DiagKind::IndexTypeError, e.pos);
            }
            match tb {
                Type::Array(el, _) => *el,
                Type::Unknown => Type::Unknown,
                _ => {
                    run.push_diag(DiagKind::NotIndexable, e.pos);
                    Type::Unknown
                },
            }
        },
        ExprKind::Call(c, args) => {
            let tc = check_expr(run, &**c);
            let ts = check_exprs(run, args);
            match tc {
                Type::Function(ps, ret) => {
                    if !arity_matches(&*ps, ts.len()) {
                        run.push_diag(DiagKind::ArityMismatch, e.pos);
                        *ret
                    } else {
                        proof {
                            assert(ts@.skip(0) =~= ts@);
                        }
                        if !args_compat_from(&ts, 0, &*ps) {
                            run.push_diag(DiagKind::ArgumentTypeMismatch, e.pos);
                            *ret
                        } else {
                            *ret
                        }
                    }
                },
                Type::Unknown => Type::Unknown,
                _ => {
                    run.push_diag(DiagKind::TypeMismatch, e.pos);
                    Type::Unknown
                },
            }
        },
        ExprKind::Cast(a, t) => {
            let ta = check_expr(run, &**a);
            if cast_allowed(&ta, t) {
                t.duplicate()
            } else {
                run.push_diag(DiagKind::IllegalCast, e.pos);
                t.duplicate()
            }
        },
        ExprKind::Closure(ps, retann, body, tail) => {
            let ts = cparams(run, ps, body, tail);
            let ret0 = match retann {
                Some(t) => t.duplicate(),
                None => Type::Unknown,
            };
            let up = decl_names(body);
            run.enter_scope(ScopeKind::ClosureBody, up);
            declare_cparams(run, ps, &ts);
            check_stmts(run, &ret0, body);
            let ttail = match tail {
                Some(te) => check_expr(run, &**te),
                None => Type::Unit,
            };
            let retf = match retann {
                Some(t) => {
                    if !compatible(&ttail, t) {
                        run.push_diag(DiagKind::TypeMismatch, e.pos);
                    }
                    t.duplicate()
                },
                None => ttail,
            };
            run.exit_scope();
            proof {
                assert(ts@.skip(0) =~= ts@);
            }
            let tl = types_list_from(&ts, 0);
            Type::Function(Box::new(tl), Box::new(retf))
        },
    }
}

/// Types a list of expressions left to right.
pub fn check_exprs(run: &mut Run, es: &Vec<Expr>) -> (ts: Vec<Type>)
    ensures
        final(run)@ == sp_exprs(old(run)@, es@, seq![]).0,
        ts@ == sp_exprs(old(run)@, es@, seq![]).1,
        ts@.len() == es@.len(),
    decreases es@,
{
    let mut ts: Vec<Type> = Vec::new();
    let mut i: usize = 0;
    proof {
        assert(es@.skip(0) =~= es@);
        assert(ts@ =~= Seq::<Type>::empty());
    }
    while i < es.len()
        invariant
            i <= es@.len(),
            ts@.len() == i as nat,
            sp_exprs(old(run)@, es@, seq![]) == sp_exprs(run@, es@.skip(i as int), ts@),
        decreases es@.len() - i,
    {
        proof {
            assert(es@.skip(i as int)[0] == es@[i as int]);
            assert(es@.skip(i as int).drop_first() =~= es@.skip(i as int + 1));
        }
        let t = check_expr(run, &es[i]);
        ts.push(t);
        i = i + 1;
    }
    proof {
        assert(es@.skip(es@.len() as int) =~= Seq::<Expr>::empty());
    }
    ts
}

/// Checks one statement under the return-type context `ret`.
#[verifier::rlimit(100)]
pub fn check_stmt(run: &mut Run, ret: &Type, s: &Stmt)
    ensures
        final(run)@ == sp_stmt(old(run)@, *ret, *s),
    decreases *s,
{
    match &s.kind {
        StmtKind::Let(n, mt, ann, init) => {
            let ti = check_expr(run, &**init);
            match ann {
                Some(t) => {
                    if !compatible(&ti, t) {
                        run.push_diag(DiagKind::TypeMismatch, s.pos);
                    }
                    run.declare(
                        Binding {
                            name: n.clone(),
                            ty: t.duplicate(),
                            mutable: *mt,
                            kind: BindKind::Variable,
                            pos: s.pos,
                            owner: 0,
                        },
                    );
                },
                None => {
                    run.declare(
                        Binding {
                            name: n.clone(),
                            ty: ti,
                            mutable: *mt,
                            kind: BindKind::Variable,
                            pos: s.pos,
                            owner: 0,
                        },
                    );
                },
            }
        },
        StmtKind::Const(n, ann, init) => {
            let ti = check_expr(run, &**init);
            if !is_const_expr(run, &**init) {
                run.push_diag(DiagKind::NonConstantInitializer, s.pos);
            }
            if !compatible(&ti, ann) {
                run.push_diag(DiagKind::TypeMismatch, s.pos);
            }
            run.declare(
                Binding {
                    name: n.clone(),
                    ty: ann.duplicate(),
                    mutable: false,
                    kind: BindKind::Constant,
                    pos: s.pos,
                    owner: 0,
                },
            );
        },
        StmtKind::Assign(n, v) => {
            let tv = check_expr(run, &**v);
            match run.resolve(n) {
                Some((si, bi)) => {
                    let mutable = run.scopes[si].bindings[bi].mutable;
                    let ok = compatible(&tv, &run.scopes[si].bindings[bi].ty);
                    if !mutable {
                        run.push_diag(DiagKind::AssignToImmutable, s.pos);
                    }
                    if !ok {
                        run.push_diag(DiagKind::TypeMismatch, s.pos);
                    }
                },
                None => {
                    if run.in_upcoming(n) {
                        run.push_diag(DiagKind::UseBeforeDeclaration, s.pos);
                    } else {
                        run.push_diag(DiagKind::UnresolvedIdentifier, s.pos);
                    }
                },
            }
        },
        StmtKind::Expr(e) => {
            let _ = check_expr(run, &**e);
        },
        StmtKind::While(c, body) => {
            let tc = check_expr(run, &**c);
            if !compatible(&tc, &Type::Bool) {
                run.push_diag(DiagKind::NonBooleanCondition, s.pos);
            }
            let up = decl_names(body);
            run.enter_scope(ScopeKind::LoopBody, up);
            check_stmts(run, ret, body);
            run.exit_scope();
        },
        StmtKind::For(v, iter, body) => {
            let ti = check_expr(run, &**iter);
            let elem = match ti {
                Type::Array(el, _) => *el,
                Type::Unknown => Type::Unknown,
                _ => {
                    run.push_diag(DiagKind::TypeMismatch, s.pos);
                    Type::Unknown
                },
            };
            let up = decl_names(body);
            run.enter_scope(ScopeKind::LoopBody, up);
            run.declare(
                Binding {
                    name: v.clone(),
                    ty: elem,
                    mutable: false,
                    kind: BindKind::Variable,
                    pos: s.pos,
                    owner: 0,
                },
            );
            check_stmts(run, ret, body);
            run.exit_scope();
        },
        StmtKind::If(c, t, e) => {
            let tc = check_expr(run, &**c);
            if !compatible(&tc, &Type::Bool) {
                run.push_diag(DiagKind::NonBooleanCondition, s.pos);
            }
            let up = decl_names(t);
            run.enter_scope(ScopeKind::Block, up);
            check_stmts(run, ret, t);
            run.exit_scope();
            match e {
                Some(els) => {
                    let up2 = decl_names(els);
                    run.enter_scope(ScopeKind::Block, up2);
                    check_stmts(run, ret, els);
                    run.exit_scope();
                },
                None => {},
            }
        },
        StmtKind::Return(o) => {
            let tv = match o {
                Some(e) => check_expr(run, &**e),
                None => Type::Unit,
            };
            if !compatible(&tv, ret) {
                run.push_diag(DiagKind::TypeMismatch, s.pos);
            }
        },
        StmtKind::Fn(n, ps, retty, body) => {
            proof {
                assert(ps@.skip(0) =~= ps@);
            }
            let pl = params_list_from(ps, 0);
            let ft = Type::Function(Box::new(pl), Box::new(retty.duplicate()));
            run.declare(
                Binding {
                    name: n.clone(),
                    ty: ft,
                    mutable: false,
                    kind: BindKind::Function,
                    pos: s.pos,
                    owner: 0,
                },
            );
            if !(matches!(retty, Type::Unit) || always_returns(body)) {
                run.push_diag(DiagKind::MissingReturn, s.pos);
            }
            let up = decl_names(body);
            run.enter_scope(ScopeKind::FunctionBody, up);
            declare_fn_params(run, ps);
            check_stmts(run, retty, body);
            run.exit_scope();
        },
    }
}

/// Checks a statement list in order.
pub fn check_stmts(run: &mut Run, ret: &Type, ss: &Vec<Stmt>)
    ensures
        final(run)@ == sp_stmts(old(run)@, *ret, ss@),
    decreases ss@,
{
    let mut i: usize = 0;
    proof {
        assert(ss@.skip(0) =~= ss@);
    }
    while i < ss.len()
        invariant
            i <= ss@.len(),
            sp_stmts(old(run)@, *ret, ss@) == sp_stmts(run@, *ret, ss@.skip(i as int)),
        decreases ss@.len() - i,
    {
        proof {
            assert(ss@.skip(i as int)[0] == ss@[i as int]);
            assert(ss@.skip(i as int).drop_first() =~= ss@.skip(i as int + 1));
        }
        check_stmt(run, ret, &ss[i]);
        i = i + 1;
    }
    proof {
        assert(ss@.skip(ss@.len() as int) =~= Seq::<Stmt>::empty());
    }
}

} // verus!

// ---------------------------------------------------------------------------
// The driver: one full analysis run.
// ---------------------------------------------------------------------------

verus! {

/// The result of one analysis run: the ordered diagnostics, the log of all
/// bindings whose scopes closed (the whole program, once the run ends), and
/// the verdict. The run is accepted exactly when no error-severity
/// diagnostic was recorded.
#[derive(Debug)]
pub struct AnalysisResult {
    pub diagnostics: Vec<Diagnostic>,
    pub bindings: Vec<Binding>,
    pub accepted: bool,
}

/// Whether the diagnostics hold an error-severity entry.
pub fn has_error(ds: &Vec<Diagnostic>) -> (r: bool)
    ensures
        r == spec_has_error(ds@),
{
    let mut i: usize = 0;
    while i < ds.len()
        invariant
            i <= ds@.len(),
            forall|k: int| 0 <= k < i ==> ds@[k].severity != crate::diag::Severity::Error,
        decreases ds@.len() - i,
    {
        if ds[i].severity == crate::diag::Severity::Error {
            return true;
        }
        i = i + 1;
    }
    false
}

/// Analyzes a whole program: a single depth-first traversal that collects
/// every diagnostic (it never stops at the first fault) and then decides
/// the verdict. The result is exactly `sp_program(*p)`: a mathematical
/// function of the tree, so two runs on the same tree agree entirely.
pub fn analyze(p: &Program) -> (r: AnalysisResult)
    ensures
        r.diagnostics@ == sp_program(*p).diags,
        binds_view(r.bindings@) == sp_program(*p).log,
        r.accepted == !spec_has_error(sp_program(*p).diags),
{
    let up = decl_names(&p.stmts);
    let mut run = Run::new(up);
    proof {
        assert(run@ == sp_init(*p));
    }
    let unit = Type::Unit;
    check_stmts(&mut run, &unit, &p.stmts);
    run.exit_scope();
    let accepted = !has_error(&run.diags);
    AnalysisResult { diagnostics: run.diags, bindings: run.log, accepted }
}

} // verus!
