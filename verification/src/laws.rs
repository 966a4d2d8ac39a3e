//! Laws of the analyzer, stated and proved against the spec-level
//! interpreter that `analyze` is pinned to.

use vstd::prelude::*;
use crate::ast::{BinOp, ClosureParam, Expr, ExprKind, Param, Program, Stmt, StmtKind};
use crate::diag::{DiagKind, Diagnostic, Severity, spec_error_at, spec_has_error};
use crate::scope::{BindingV, RunV, ScopeV, spec_find_in, spec_scope_has, sv_declare, sv_resolve, sv_in_upcoming};
use crate::types::{Type, spec_compatible};
use crate::analysis::{sp_cparams, sp_declare_cparams, sp_declare_fn_params, sp_expr, sp_exprs, sp_program, sp_stmt, sp_stmts};

verus! {

/// A run is accepted exactly when its diagnostic list holds no
/// error-severity entry; warnings never block acceptance. In particular, a
/// program on which every check passes is accepted with an empty error
/// list.
pub proof fn lemma_verdict(p: Program, diags: Seq<Diagnostic>, accepted: bool)
    requires
        diags == sp_program(p).diags,
        accepted == !spec_has_error(sp_program(p).diags),
    ensures
        accepted <==> (forall|i: int|
            0 <= i < diags.len() ==> diags[i].severity != Severity::Error),
{
}

/// Two analysis runs on the same tree return the same diagnostic sequence:
/// `analyze` ensures its output equals `sp_program`, a function of the
/// tree alone, so no run depends on anything but the input.
pub proof fn lemma_deterministic(p: Program, d1: Seq<Diagnostic>, d2: Seq<Diagnostic>)
    requires
        d1 == sp_program(p).diags,
        d2 == sp_program(p).diags,
    ensures
        d1 == d2,
{
}

/// Declaring a name that exists only in an enclosing scope (shadowing)
/// never reports a duplicate declaration: the diagnostics are unchanged,
/// whatever the outer scopes hold.
pub proof fn lemma_shadowing_reports_nothing(st: RunV, b: BindingV)
    requires
        st.scopes.len() > 0,
        !spec_scope_has(st.scopes.last().bindings, b.name),
    ensures
        sv_declare(st, b).diags == st.diags,
{
}

/// Declaring a name twice in the same scope always reports exactly one
/// duplicate declaration, at the position of the second declaration.
pub proof fn lemma_duplicate_in_same_scope(st: RunV, b: BindingV)
    requires
        st.scopes.len() > 0,
        spec_scope_has(st.scopes.last().bindings, b.name),
    ensures
        sv_declare(st, b).diags == st.diags.push(
            spec_error_at(DiagKind::DuplicateDeclaration, b.pos),
        ),
{
}

/// Assigning to a binding that resolves but is not mutable records exactly
/// one `AssignToImmutable` diagnostic, at the assignment's position (a
/// type fault of the assigned value is reported separately after it).
pub proof fn lemma_assign_to_immutable(st: RunV, ret: Type, s: Stmt, n: String, v: Box<Expr>)
    requires
        s.kind == StmtKind::Assign(n, v),
        sv_resolve(sp_expr(st, *v).0.scopes, n@) is Some,
        !sv_resolve(sp_expr(st, *v).0.scopes, n@).unwrap().mutable,
    ensures
        ({
            let st1 = sp_expr(st, *v).0;
            let b = sv_resolve(st1.scopes, n@).unwrap();
            sp_stmt(st, ret, s).diags == if spec_compatible(sp_expr(st, *v).1, b.ty) {
                st1.diags.push(spec_error_at(DiagKind::AssignToImmutable, s.pos))
            } else {
                st1.diags.push(spec_error_at(DiagKind::AssignToImmutable, s.pos)).push(
                    spec_error_at(DiagKind::TypeMismatch, s.pos),
                )
            }
        }),
{
}

/// Arithmetic over one integer-typed and one float-typed operand, with no
/// cast, always records a `TypeMismatch` at the operator and recovers with
/// the unknown type; such a program is never accepted, since diagnostics
/// are only ever appended.
pub proof fn lemma_mixed_arithmetic(st: RunV, e: Expr, op: BinOp, a: Box<Expr>, b: Box<Expr>)
    requires
        e.kind == ExprKind::Binary(op, a, b),
        op.spec_is_arith(),
        sp_expr(st, *a).1 is Int,
        sp_expr(sp_expr(st, *a).0, *b).1 is Float,
    ensures
        sp_expr(st, e).0.diags == sp_expr(sp_expr(st, *a).0, *b).0.diags.push(
            spec_error_at(DiagKind::TypeMismatch, e.pos),
        ),
        sp_expr(st, e).1 == Type::Unknown,
{
}

/// If some binding of the sequence bears the name, lookup in that one
/// scope finds one.
pub proof fn lemma_find_in_some(binds: Seq<BindingV>, name: Seq<char>)
    requires
        spec_scope_has(binds, name),
    ensures
        spec_find_in(binds, name) is Some,
    decreases binds.len(),
{
    if binds.len() > 0 && binds.last().name != name {
        let i = choose|i: int| 0 <= i < binds.len() && binds[i].name == name;
        assert(binds.drop_last()[i] == binds[i]);
        lemma_find_in_some(binds.drop_last(), name);
    }
}

/// If no binding of the sequence bears the name, lookup in that one scope
/// finds none.
pub proof fn lemma_find_in_none(binds: Seq<BindingV>, name: Seq<char>)
    requires
        !spec_scope_has(binds, name),
    ensures
        spec_find_in(binds, name) is None,
    decreases binds.len(),
{
    if binds.len() > 0 {
        assert(binds.last() == binds[binds.len() - 1]);
        assert(forall|i: int|
            0 <= i < binds.drop_last().len() ==> binds.drop_last()[i] == binds[i]);
        lemma_find_in_none(binds.drop_last(), name);
    }
}

/// Closure capture, first half: a name bound in any active scope — in
/// particular a variable of the closure's defining scope, with no
/// redeclaration inside the closure body — resolves.
pub proof fn lemma_capture_resolves(scopes: Seq<ScopeV>, i: int, name: Seq<char>)
    requires
        0 <= i < scopes.len(),
        spec_scope_has(scopes[i].bindings, name),
    ensures
        sv_resolve(scopes, name) is Some,
    decreases scopes.len(),
{
    if i == scopes.len() - 1 {
        lemma_find_in_some(scopes.last().bindings, name);
    } else {
        match spec_find_in(scopes.last().bindings, name) {
            Some(_) => {},
            None => {
                assert(scopes.drop_last()[i] == scopes[i]);
                lemma_capture_resolves(scopes.drop_last(), i, name);
            },
        }
    }
}

/// Closure capture, second half: a name bound in no active scope resolves
/// nowhere.
pub proof fn lemma_unresolvable(scopes: Seq<ScopeV>, name: Seq<char>)
    requires
        forall|i: int| 0 <= i < scopes.len() ==> !spec_scope_has(scopes[i].bindings, name),
    ensures
        sv_resolve(scopes, name) is None,
    decreases scopes.len(),
{
    if scopes.len() > 0 {
        assert(scopes.last() == scopes[scopes.len() - 1]);
        lemma_find_in_none(scopes.last().bindings, name);
        assert(forall|i: int|
            0 <= i < scopes.drop_last().len() ==> scopes.drop_last()[i] == scopes[i]);
        lemma_unresolvable(scopes.drop_last(), name);
    }
}

/// A reference to a name that resolves adds no diagnostic and has the
/// resolved binding's type: capture needs no redeclaration.
pub proof fn lemma_resolved_ident_clean(st: RunV, e: Expr, n: String)
    requires
        e.kind == ExprKind::Ident(n),
        sv_resolve(st.scopes, n@) is Some,
    ensures
        sp_expr(st, e).0 == st,
        sp_expr(st, e).1 == sv_resolve(st.scopes, n@).unwrap().ty,
{
}

/// A reference to a name that resolves nowhere, and that no later
/// declaration of an active scope explains, records exactly one
/// `UnresolvedIdentifier` at the reference.
pub proof fn lemma_unresolved_ident_reports(st: RunV, e: Expr, n: String)
    requires
        e.kind == ExprKind::Ident(n),
        sv_resolve(st.scopes, n@) is None,
        !sv_in_upcoming(st.scopes, n@),
    ensures
        sp_expr(st, e).0.diags == st.diags.push(
            spec_error_at(DiagKind::UnresolvedIdentifier, e.pos),
        ),
        sp_expr(st, e).1 == Type::Unknown,
{
}

/// Prefixes chain.
proof fn lemma_prefix_trans(a: Seq<Diagnostic>, b: Seq<Diagnostic>, c: Seq<Diagnostic>)
    requires
        a.is_prefix_of(b),
        b.is_prefix_of(c),
    ensures
        a.is_prefix_of(c),
{
    assert forall|i: int| 0 <= i < a.len() implies a[i] == c.subrange(0, a.len() as int)[i] by {
        assert(a[i] == b.subrange(0, a.len() as int)[i]);
        assert(b[i] == c.subrange(0, b.len() as int)[i]);
    }
    assert(a =~= c.subrange(0, a.len() as int));
}

/// A sequence is a prefix of itself extended by one entry.
proof fn lemma_prefix_push(s: Seq<Diagnostic>, d: Diagnostic)
    ensures
        s.is_prefix_of(s.push(d)),
{
    assert(s =~= s.push(d).subrange(0, s.len() as int));
}

/// Typing the parameters of a closure only appends diagnostics.
proof fn lemma_cparams_appends(
    st: RunV,
    ps: Seq<ClosureParam>,
    body: Seq<Stmt>,
    tail: Option<Box<Expr>>,
    acc: Seq<Type>,
)
    ensures
        st.diags.is_prefix_of(sp_cparams(st, ps, body, tail, acc).0.diags),
    decreases ps.len(),
{
    if ps.len() == 0 {
        assert(st.diags =~= st.diags.subrange(0, st.diags.len() as int));
    } else {
        let (t, amb) = sp_cparam_type_of(st, ps, body, tail);
        let st1 = if amb {
            crate::scope::sv_push_diag(st, DiagKind::AmbiguousType, ps[0].pos)
        } else {
            st
        };
        lemma_prefix_push(st.diags, spec_error_at(DiagKind::AmbiguousType, ps[0].pos));
        lemma_cparams_appends(st1, ps.drop_first(), body, tail, acc.push(t));
        lemma_prefix_trans(
            st.diags,
            st1.diags,
            sp_cparams(st1, ps.drop_first(), body, tail, acc.push(t)).0.diags,
        );
    }
}

/// The parameter type and ambiguity of the head parameter; a shorthand
/// used by the induction above.
spec fn sp_cparam_type_of(
    st: RunV,
    ps: Seq<ClosureParam>,
    body: Seq<Stmt>,
    tail: Option<Box<Expr>>,
) -> (Type, bool) {
    crate::analysis::sp_cparam_type(st.scopes, ps[0], body, tail)
}

/// Declaring a sequence of closure parameters only appends diagnostics.
proof fn lemma_declare_cparams_appends(st: RunV, ps: Seq<ClosureParam>, ts: Seq<Type>)
    ensures
        st.diags.is_prefix_of(sp_declare_cparams(st, ps, ts).diags),
    decreases ps.len(),
{
    if ps.len() == 0 || ts.len() == 0 {
        assert(st.diags =~= st.diags.subrange(0, st.diags.len() as int));
    } else {
        let b = BindingV {
            name: ps[0].name@,
            ty: ts[0],
            mutable: false,
            kind: crate::scope::BindKind::Parameter,
            pos: ps[0].pos,
            owner: 0,
        };
        let st1 = sv_declare(st, b);
        lemma_prefix_push(st.diags, spec_error_at(DiagKind::DuplicateDeclaration, b.pos));
        assert(st.diags.is_prefix_of(st1.diags)) by {
            assert(st.diags =~= st.diags.subrange(0, st.diags.len() as int));
        }
        lemma_declare_cparams_appends(st1, ps.drop_first(), ts.drop_first());
        lemma_prefix_trans(
            st.diags,
            st1.diags,
            sp_declare_cparams(st1, ps.drop_first(), ts.drop_first()).diags,
        );
    }
}

/// Declaring a sequence of function parameters only appends diagnostics.
proof fn lemma_declare_fn_params_appends(st: RunV, ps: Seq<Param>)
    ensures
        st.diags.is_prefix_of(sp_declare_fn_params(st, ps).diags),
    decreases ps.len(),
{
    if ps.len() == 0 {
        assert(st.diags =~= st.diags.subrange(0, st.diags.len() as int));
    } else {
        let b = BindingV {
            name: ps[0].name@,
            ty: ps[0].ty,
            mutable: false,
            kind: crate::scope::BindKind::Parameter,
            pos: ps[0].pos,
            owner: 0,
        };
        let st1 = sv_declare(st, b);
        lemma_prefix_push(st.diags, spec_error_at(DiagKind::DuplicateDeclaration, b.pos));
        assert(st.diags.is_prefix_of(st1.diags)) by {
            assert(st.diags =~= st.diags.subrange(0, st.diags.len() as int));
        }
        lemma_declare_fn_params_appends(st1, ps.drop_first());
        lemma_prefix_trans(st.diags, st1.diags, sp_declare_fn_params(st1, ps.drop_first()).diags);
    }
}

/// Diagnostics are append-only: typing any expression leaves the recorded
/// diagnostics as a prefix of the new sequence. Together with the verdict
/// law, a fault once recorded can never be argued away by later traversal.
pub proof fn lemma_expr_appends(st: RunV, e: Expr)
    ensures
        st.diags.is_prefix_of(sp_expr(st, e).0.diags),
    decreases e,
{
    assert(st.diags =~= st.diags.subrange(0, st.diags.len() as int));
    match e.kind {
        ExprKind::Lit(_) => {},
        ExprKind::Ident(n) => {
            if sv_resolve(st.scopes, n@) is None {
                lemma_prefix_push(st.diags, spec_error_at(DiagKind::UseBeforeDeclaration, e.pos));
                lemma_prefix_push(st.diags, spec_error_at(DiagKind::UnresolvedIdentifier, e.pos));
            }
        },
        ExprKind::Unary(op, a) => {
            lemma_expr_appends(st, *a);
            let st1 = sp_expr(st, *a).0;
            lemma_prefix_push(st1.diags, spec_error_at(DiagKind::TypeMismatch, e.pos));
            lemma_prefix_push(st1.diags, spec_error_at(DiagKind::InvalidMutableBorrow, e.pos));
            lemma_prefix_push(st1.diags, spec_error_at(DiagKind::ConflictingBorrow, e.pos));
            lemma_prefix_trans(st.diags, st1.diags, sp_expr(st, e).0.diags);
        },
        ExprKind::Binary(_, a, b) => {
            lemma_expr_appends(st, *a);
            let st1 = sp_expr(st, *a).0;
            lemma_expr_appends(st1, *b);
            let st2 = sp_expr(st1, *b).0;
            lemma_prefix_trans(st.diags, st1.diags, st2.diags);
            lemma_prefix_push(st2.diags, spec_error_at(DiagKind::TypeMismatch, e.pos));
            lemma_prefix_trans(st.diags, st2.diags, sp_expr(st, e).0.diags);
        },
        ExprKind::ArrayLit(es) => {
            lemma_exprs_appends(st, es@, seq![]);
            let st1 = sp_exprs(st, es@, seq![]).0;
            lemma_prefix_push(st1.diags, spec_error_at(DiagKind::TypeMismatch, e.pos));
            lemma_prefix_trans(st.diags, st1.diags, sp_expr(st, e).0.diags);
        },
        ExprKind::ArrayRepeat(a, _) => {
            lemma_expr_appends(st, *a);
        },
        ExprKind::Index(base, idx) => {
            lemma_expr_appends(st, *base);
            let st1 = sp_expr(st, *base).0;
            lemma_expr_appends(st1, *idx);
            let st2 = sp_expr(st1, *idx).0;
            lemma_prefix_trans(st.diags, st1.diags, st2.diags);
            lemma_prefix_push(st2.diags, spec_error_at(DiagKind::IndexTypeError, e.pos));
            let st3 = if sp_expr(st1, *idx).1 is Unknown || sp_expr(st1, *idx).1 is Int {
                st2
            } else {
                crate::scope::sv_push_diag(st2, DiagKind::IndexTypeError, e.pos)
            };
            lemma_prefix_trans(st.diags, st2.diags, st3.diags);
            lemma_prefix_push(st3.diags, spec_error_at(DiagKind::NotIndexable, e.pos));
            lemma_prefix_trans(st.diags, st3.diags, sp_expr(st, e).0.diags);
        },
        ExprKind::Call(c, args) => {
            lemma_expr_appends(st, *c);
            let st1 = sp_expr(st, *c).0;
            lemma_exprs_appends(st1, args@, seq![]);
            let st2 = sp_exprs(st1, args@, seq![]).0;
            lemma_prefix_trans(st.diags, st1.diags, st2.diags);
            lemma_prefix_push(st2.diags, spec_error_at(DiagKind::ArityMismatch, e.pos));
            lemma_prefix_push(st2.diags, spec_error_at(DiagKind::ArgumentTypeMismatch, e.pos));
            lemma_prefix_push(st2.diags, spec_error_at(DiagKind::TypeMismatch, e.pos));
            lemma_prefix_trans(st.diags, st2.diags, sp_expr(st, e).0.diags);
        },
        ExprKind::Cast(a, _) => {
            lemma_expr_appends(st, *a);
            let st1 = sp_expr(st, *a).0;
            lemma_prefix_push(st1.diags, spec_error_at(DiagKind::IllegalCast, e.pos));
            lemma_prefix_trans(st.diags, st1.diags, sp_expr(st, e).0.diags);
        },
        ExprKind::Closure(ps, retann, body, tail) => {
            lemma_cparams_appends(st, ps@, body@, tail, seq![]);
            let r1 = sp_cparams(st, ps@, body@, tail, seq![]);
            let st1 = r1.0;
            let pts = r1.1;
            let ret0 = match retann {
                Some(t) => t,
                None => Type::Unknown,
            };
            let st2 = crate::scope::sv_enter(
                st1,
                crate::scope::ScopeKind::ClosureBody,
                crate::analysis::sp_decl_names(body@),
            );
            lemma_declare_cparams_appends(st2, ps@, pts);
            let st3 = sp_declare_cparams(st2, ps@, pts);
            lemma_stmts_appends(st3, ret0, body@);
            let st4 = sp_stmts(st3, ret0, body@);
            lemma_prefix_trans(st.diags, st1.diags, st3.diags);
            lemma_prefix_trans(st.diags, st3.diags, st4.diags);
            let st5 = match tail {
                Some(te) => {
                    lemma_expr_appends(st4, *te);
                    sp_expr(st4, *te).0
                },
                None => st4,
            };
            lemma_prefix_trans(st.diags, st4.diags, st5.diags);
            lemma_prefix_push(st5.diags, spec_error_at(DiagKind::TypeMismatch, e.pos));
            let st6 = match retann {
                Some(t) => if spec_compatible(
                    match tail {
                        Some(te) => sp_expr(st4, *te).1,
                        None => Type::Unit,
                    },
                    t,
                ) {
                    st5
                } else {
                    crate::scope::sv_push_diag(st5, DiagKind::TypeMismatch, e.pos)
                },
                None => st5,
            };
            lemma_prefix_trans(st.diags, st5.diags, st6.diags);
            assert(sp_expr(st, e).0.diags == st6.diags);
        },
    }
}

/// Diagnostics are append-only across a list of expressions.
pub proof fn lemma_exprs_appends(st: RunV, es: Seq<Expr>, acc: Seq<Type>)
    ensures
        st.diags.is_prefix_of(sp_exprs(st, es, acc).0.diags),
    decreases es,
{
    assert(st.diags =~= st.diags.subrange(0, st.diags.len() as int));
    if es.len() > 0 {
        lemma_expr_appends(st, es[0]);
        let st1 = sp_expr(st, es[0]).0;
        let t = sp_expr(st, es[0]).1;
        lemma_exprs_appends(st1, es.drop_first(), acc.push(t));
        lemma_prefix_trans(st.diags, st1.diags, sp_exprs(st1, es.drop_first(), acc.push(t)).0.diags);
    }
}

/// Diagnostics are append-only across one statement.
pub proof fn lemma_stmt_appends(st: RunV, ret: Type, s: Stmt)
    ensures
        st.diags.is_prefix_of(sp_stmt(st, ret, s).diags),
    decreases s,
{
    assert(st.diags =~= st.diags.subrange(0, st.diags.len() as int));
    match s.kind {
        StmtKind::Let(n, mt, ann, init) => {
            lemma_expr_appends(st, *init);
            let st1 = sp_expr(st, *init).0;
            lemma_prefix_push(st1.diags, spec_error_at(DiagKind::TypeMismatch, s.pos));
            let st2 = match ann {
                Some(t) => if spec_compatible(sp_expr(st, *init).1, t) {
                    st1
                } else {
                    crate::scope::sv_push_diag(st1, DiagKind::TypeMismatch, s.pos)
                },
                None => st1,
            };
            lemma_prefix_trans(st.diags, st1.diags, st2.diags);
            lemma_prefix_push(st2.diags, spec_error_at(DiagKind::DuplicateDeclaration, s.pos));
            lemma_prefix_trans(st.diags, st2.diags, sp_stmt(st, ret, s).diags);
        },
        StmtKind::Const(n, ann, init) => {
            lemma_expr_appends(st, *init);
            let st1 = sp_expr(st, *init).0;
            lemma_prefix_push(st1.diags, spec_error_at(DiagKind::NonConstantInitializer, s.pos));
            let st2 = if crate::analysis::sp_is_const(st1.scopes, *init) {
                st1
            } else {
                crate::scope::sv_push_diag(st1, DiagKind::NonConstantInitializer, s.pos)
            };
            lemma_prefix_trans(st.diags, st1.diags, st2.diags);
            lemma_prefix_push(st2.diags, spec_error_at(DiagKind::TypeMismatch, s.pos));
            let st3 = if spec_compatible(sp_expr(st, *init).1, ann) {
                st2
            } else {
                crate::scope::sv_push_diag(st2, DiagKind::TypeMismatch, s.pos)
            };
            lemma_prefix_trans(st.diags, st2.diags, st3.diags);
            lemma_prefix_push(st3.diags, spec_error_at(DiagKind::DuplicateDeclaration, s.pos));
            lemma_prefix_trans(st.diags, st3.diags, sp_stmt(st, ret, s).diags);
        },
        StmtKind::Assign(n, v) => {
            lemma_expr_appends(st, *v);
            let st1 = sp_expr(st, *v).0;
            lemma_prefix_push(st1.diags, spec_error_at(DiagKind::AssignToImmutable, s.pos));
            lemma_prefix_push(st1.diags, spec_error_at(DiagKind::UseBeforeDeclaration, s.pos));
            lemma_prefix_push(st1.diags, spec_error_at(DiagKind::UnresolvedIdentifier, s.pos));
            match sv_resolve(st1.scopes, n@) {
                Some(b) => {
                    let st2 = if b.mutable {
                        st1
                    } else {
                        crate::scope::sv_push_diag(st1, DiagKind::AssignToImmutable, s.pos)
                    };
                    lemma_prefix_trans(st.diags, st1.diags, st2.diags);
                    lemma_prefix_push(st2.diags, spec_error_at(DiagKind::TypeMismatch, s.pos));
                    lemma_prefix_trans(st.diags, st2.diags, sp_stmt(st, ret, s).diags);
                },
                None => {
                    lemma_prefix_trans(st.diags, st1.diags, sp_stmt(st, ret, s).diags);
                },
            }
        },
        StmtKind::Expr(e) => {
            lemma_expr_appends(st, *e);
        },
        StmtKind::While(c, body) => {
            lemma_expr_appends(st, *c);
            let st1 = sp_expr(st, *c).0;
            lemma_prefix_push(st1.diags, spec_error_at(DiagKind::NonBooleanCondition, s.pos));
            let st2 = if spec_compatible(sp_expr(st, *c).1, Type::Bool) {
                st1
            } else {
                crate::scope::sv_push_diag(st1, DiagKind::NonBooleanCondition, s.pos)
            };
            lemma_prefix_trans(st.diags, st1.diags, st2.diags);
            let st3 = crate::scope::sv_enter(
                st2,
                crate::scope::ScopeKind::LoopBody,
                crate::analysis::sp_decl_names(body@),
            );
            lemma_stmts_appends(st3, ret, body@);
            lemma_prefix_trans(st.diags, st2.diags, sp_stmts(st3, ret, body@).diags);
        },
        StmtKind::For(v, iter, body) => {
            lemma_expr_appends(st, *iter);
            let st1 = sp_expr(st, *iter).0;
            lemma_prefix_push(st1.diags, spec_error_at(DiagKind::TypeMismatch, s.pos));
            let st2 = match sp_expr(st, *iter).1 {
                Type::Array(el, _) => st1,
                Type::Unknown => st1,
                _ => crate::scope::sv_push_diag(st1, DiagKind::TypeMismatch, s.pos),
            };
            lemma_prefix_trans(st.diags, st1.diags, st2.diags);
            let elem = match sp_expr(st, *iter).1 {
                Type::Array(el, _) => *el,
                _ => Type::Unknown,
            };
            let st3 = crate::scope::sv_enter(
                st2,
                crate::scope::ScopeKind::LoopBody,
                crate::analysis::sp_decl_names(body@),
            );
            let st4 = sv_declare(
                st3,
                BindingV {
                    name: v@,
                    ty: elem,
                    mutable: false,
                    kind: crate::scope::BindKind::Variable,
                    pos: s.pos,
                    owner: 0,
                },
            );
            lemma_prefix_push(st3.diags, spec_error_at(DiagKind::DuplicateDeclaration, s.pos));
            lemma_prefix_trans(st.diags, st2.diags, st4.diags);
            lemma_stmts_appends(st4, ret, body@);
            lemma_prefix_trans(st.diags, st4.diags, sp_stmts(st4, ret, body@).diags);
        },
        StmtKind::If(c, t, els) => {
            lemma_expr_appends(st, *c);
            let st1 = sp_expr(st, *c).0;
            lemma_prefix_push(st1.diags, spec_error_at(DiagKind::NonBooleanCondition, s.pos));
            let st2 = if spec_compatible(sp_expr(st, *c).1, Type::Bool) {
                st1
            } else {
                crate::scope::sv_push_diag(st1, DiagKind::NonBooleanCondition, s.pos)
            };
            lemma_prefix_trans(st.diags, st1.diags, st2.diags);
            let stt = crate::scope::sv_enter(
                st2,
                crate::scope::ScopeKind::Block,
                crate::analysis::sp_decl_names(t@),
            );
            lemma_stmts_appends(stt, ret, t@);
            let st3 = crate::scope::sv_exit(sp_stmts(stt, ret, t@));
            lemma_prefix_trans(st.diags, st2.diags, st3.diags);
            match els {
                Some(eb) => {
                    let ste = crate::scope::sv_enter(
                        st3,
                        crate::scope::ScopeKind::Block,
                        crate::analysis::sp_decl_names(eb@),
                    );
                    lemma_stmts_appends(ste, ret, eb@);
                    lemma_prefix_trans(st.diags, st3.diags, sp_stmts(ste, ret, eb@).diags);
                },
                None => {},
            }
        },
        StmtKind::Return(o) => {
            let st1 = match o {
                Some(e) => {
                    lemma_expr_appends(st, *e);
                    sp_expr(st, *e).0
                },
                None => st,
            };
            lemma_prefix_push(st1.diags, spec_error_at(DiagKind::TypeMismatch, s.pos));
            lemma_prefix_trans(st.diags, st1.diags, sp_stmt(st, ret, s).diags);
        },
        StmtKind::Fn(n, ps, retty, body) => {
            let st1 = sv_declare(
                st,
                BindingV {
                    name: n@,
                    ty: Type::Function(
                        Box::new(crate::analysis::sp_params_list(ps@)),
                        Box::new(retty),
                    ),
                    mutable: false,
                    kind: crate::scope::BindKind::Function,
                    pos: s.pos,
                    owner: 0,
                },
            );
            lemma_prefix_push(st.diags, spec_error_at(DiagKind::DuplicateDeclaration, s.pos));
            lemma_prefix_push(st1.diags, spec_error_at(DiagKind::MissingReturn, s.pos));
            let st2 = if retty is Unit || crate::analysis::sp_always_returns(body@) {
                st1
            } else {
                crate::scope::sv_push_diag(st1, DiagKind::MissingReturn, s.pos)
            };
            lemma_prefix_trans(st.diags, st1.diags, st2.diags);
            let st3 = crate::scope::sv_enter(
                st2,
                crate::scope::ScopeKind::FunctionBody,
                crate::analysis::sp_decl_names(body@),
            );
            lemma_declare_fn_params_appends(st3, ps@);
            let st4 = sp_declare_fn_params(st3, ps@);
            lemma_prefix_trans(st.diags, st2.diags, st4.diags);
            lemma_stmts_appends(st4, retty, body@);
            lemma_prefix_trans(st.diags, st4.diags, sp_stmts(st4, retty, body@).diags);
        },
    }
}

/// Diagnostics are append-only across a statement list.
pub proof fn lemma_stmts_appends(st: RunV, ret: Type, ss: Seq<Stmt>)
    ensures
        st.diags.is_prefix_of(sp_stmts(st, ret, ss).diags),
    decreases ss,
{
    assert(st.diags =~= st.diags.subrange(0, st.diags.len() as int));
    if ss.len() > 0 {
        lemma_stmt_appends(st, ret, ss[0]);
        let st1 = sp_stmt(st, ret, ss[0]);
        lemma_stmts_appends(st1, ret, ss.drop_first());
        lemma_prefix_trans(st.diags, st1.diags, sp_stmts(st1, ret, ss.drop_first()).diags);
    }
}

/// Every binding that lookup returns belongs to some scope on the active
/// stack and bears the looked-up name.
pub proof fn lemma_found_is_bound(binds: Seq<BindingV>, name: Seq<char>)
    requires
        spec_find_in(binds, name) is Some,
    ensures
        ({
            let b = spec_find_in(binds, name).unwrap();
            b.name == name && exists|j: int| 0 <= j < binds.len() && binds[j] == b
        }),
    decreases binds.len(),
{
    if binds.len() > 0 && binds.last().name == name {
        assert(binds[binds.len() - 1] == binds.last());
    } else {
        lemma_found_is_bound(binds.drop_last(), name);
        let b = spec_find_in(binds.drop_last(), name).unwrap();
        let j = choose|j: int| 0 <= j < binds.drop_last().len() && binds.drop_last()[j] == b;
        assert(binds[j] == b);
    }
}

/// Every binding that resolution returns belongs to some scope on the
/// active stack, and bears the looked-up name.
pub proof fn lemma_resolved_is_bound(scopes: Seq<ScopeV>, name: Seq<char>)
    requires
        sv_resolve(scopes, name) is Some,
    ensures
        ({
            let b = sv_resolve(scopes, name).unwrap();
            b.name == name && exists|i: int, j: int|
                0 <= i < scopes.len() && 0 <= j < scopes[i].bindings.len() && scopes[i].bindings[j]
                    == b
        }),
    decreases scopes.len(),
{
    if scopes.len() > 0 {
        match spec_find_in(scopes.last().bindings, name) {
            Some(b) => {
                lemma_found_is_bound(scopes.last().bindings, name);
                let j = choose|j: int|
                    0 <= j < scopes.last().bindings.len() && scopes.last().bindings[j] == b;
                assert(scopes[scopes.len() - 1].bindings[j] == b);
            },
            None => {
                lemma_resolved_is_bound(scopes.drop_last(), name);
                let b = sv_resolve(scopes.drop_last(), name).unwrap();
                let (i, j) = choose|i: int, j: int|
                    0 <= i < scopes.drop_last().len() && 0 <= j
                        < scopes.drop_last()[i].bindings.len() && scopes.drop_last()[i].bindings[j]
                        == b;
                assert(scopes[i].bindings[j] == b);
            },
        }
    }
}

/// Nearest-enclosing-scope wins: when the innermost scope binds the name,
/// resolution answers from that scope, whatever outer scopes hold.
pub proof fn lemma_nearest_scope_wins(scopes: Seq<ScopeV>, name: Seq<char>)
    requires
        scopes.len() > 0,
        spec_scope_has(scopes.last().bindings, name),
    ensures
        sv_resolve(scopes, name) == spec_find_in(scopes.last().bindings, name),
{
    lemma_find_in_some(scopes.last().bindings, name);
}

/// Within one scope, the latest binding of a name wins lookup: textual
/// re-binding replaces visibility while the older record stays in place.
pub proof fn lemma_latest_binding_wins(binds: Seq<BindingV>, name: Seq<char>, j: int)
    requires
        0 <= j < binds.len(),
        binds[j].name == name,
        forall|k: int| j < k < binds.len() ==> binds[k].name != name,
    ensures
        spec_find_in(binds, name) == Some(binds[j]),
    decreases binds.len(),
{
    if j == binds.len() - 1 {
        assert(binds.last() == binds[j]);
    } else {
        assert(binds.last().name != name);
        assert(binds.drop_last()[j] == binds[j]);
        lemma_latest_binding_wins(binds.drop_last(), name, j);
    }
}

/// A declaration whose initializer typing reported nothing, and whose name
/// is fresh in the innermost scope, reports nothing either: fault-free
/// statements leave the diagnostics untouched, which is what makes a fully
/// consistent program come out accepted with an empty error list.
pub proof fn lemma_clean_let_reports_nothing(
    st: RunV,
    ret: Type,
    s: Stmt,
    n: String,
    mt: bool,
    init: Box<Expr>,
)
    requires
        s.kind == StmtKind::Let(n, mt, None, init),
        sp_expr(st, *init).0.diags == st.diags,
        sp_expr(st, *init).0.scopes.len() > 0,
        !spec_scope_has(sp_expr(st, *init).0.scopes.last().bindings, n@),
    ensures
        sp_stmt(st, ret, s).diags == st.diags,
{
}

} // verus!
