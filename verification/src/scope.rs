//! The scope table and the state of one analysis run.
//!
//! A run owns a stack of lexical scopes, each holding the bindings declared
//! in it, a log of bindings whose scopes have closed (kept for reporting and
//! testing), and the append-only diagnostic sink. Every operation is
//! mirrored by a spec-level function on the ghost state `RunV`, and the
//! executable operation is proved to agree with it exactly.

use vstd::prelude::*;
use crate::diag::{DiagKind, Diagnostic, spec_error_at, error_at};
use crate::types::Type;

verus! {

/// What kind of construct a binding names.
#[derive(Clone, Copy, PartialEq, Eq, Structural, Debug)]
pub enum BindKind {
    Variable,
    Constant,
    Parameter,
    Function,
    Closure,
}

/// What kind of lexical region a scope is.
#[derive(Clone, Copy, PartialEq, Eq, Structural, Debug)]
pub enum ScopeKind {
    Global,
    FunctionBody,
    Block,
    LoopBody,
    ClosureBody,
}

/// A named, typed, scope-owned slot.
#[derive(Debug)]
pub struct Binding {
    pub name: String,
    pub ty: Type,
    pub mutable: bool,
    pub kind: BindKind,
    /// Source position of the declaration.
    pub pos: u32,
    /// Identifier of the scope that owns this binding; set by `declare`.
    pub owner: u64,
}

/// A recorded mutable borrow: the owning scope of the borrowed binding and
/// the binding's name. Two live records with the same owner and name are a
/// conflict.
#[derive(Debug)]
pub struct BorrowRec {
    pub owner: u64,
    pub name: String,
}

/// One lexical scope.
#[derive(Debug)]
pub struct Scope {
    pub kind: ScopeKind,
    /// Unique identifier of this scope within the run.
    pub id: u64,
    /// Bindings declared in this scope, in declaration order. Lookup walks
    /// from the end, so a later binding shadows an earlier one of the same
    /// name (the earlier record is kept as an audit trail).
    pub bindings: Vec<Binding>,
    /// Names declared by statements of this scope's statement list; a
    /// resolution miss on one of these is a use before its declaration.
    pub upcoming: Vec<String>,
    /// Mutable borrows taken while this scope is active.
    pub borrows: Vec<BorrowRec>,
}

/// The state of one analysis run.
#[derive(Debug)]
pub struct Run {
    /// The active scope stack; the last element is the innermost scope.
    pub scopes: Vec<Scope>,
    /// Bindings of scopes that have closed, in the order the scopes closed.
    pub log: Vec<Binding>,
    /// The append-only diagnostic sink, in source order of emission.
    pub diags: Vec<Diagnostic>,
    /// The next unused scope identifier.
    pub next_id: u64,
}

/// Ghost mirror of `Binding` (the name as a character sequence).
#[verifier::ext_equal]
pub ghost struct BindingV {
    pub name: Seq<char>,
    pub ty: Type,
    pub mutable: bool,
    pub kind: BindKind,
    pub pos: u32,
    pub owner: u64,
}

/// Ghost mirror of `BorrowRec`.
#[verifier::ext_equal]
pub ghost struct BorrowV {
    pub owner: u64,
    pub name: Seq<char>,
}

/// Ghost mirror of `Scope`.
#[verifier::ext_equal]
pub ghost struct ScopeV {
    pub kind: ScopeKind,
    pub id: u64,
    pub bindings: Seq<BindingV>,
    pub upcoming: Seq<Seq<char>>,
    pub borrows: Seq<BorrowV>,
}

/// Ghost mirror of `Run`.
#[verifier::ext_equal]
pub ghost struct RunV {
    pub scopes: Seq<ScopeV>,
    pub log: Seq<BindingV>,
    pub diags: Seq<Diagnostic>,
    pub next_id: u64,
}

pub open spec fn bview(b: Binding) -> BindingV {
    BindingV {
        name: b.name@,
        ty: b.ty,
        mutable: b.mutable,
        kind: b.kind,
        pos: b.pos,
        owner: b.owner,
    }
}

pub open spec fn borview(b: BorrowRec) -> BorrowV {
    BorrowV { owner: b.owner, name: b.name@ }
}

pub open spec fn binds_view(s: Seq<Binding>) -> Seq<BindingV> {
    Seq::new(s.len(), |i: int| bview(s[i]))
}

pub open spec fn names_view(s: Seq<String>) -> Seq<Seq<char>> {
    Seq::new(s.len(), |i: int| s[i]@)
}

pub open spec fn bors_view(s: Seq<BorrowRec>) -> Seq<BorrowV> {
    Seq::new(s.len(), |i: int| borview(s[i]))
}

pub open spec fn sview(s: Scope) -> ScopeV {
    ScopeV {
        kind: s.kind,
        id: s.id,
        bindings: binds_view(s.bindings@),
        upcoming: names_view(s.upcoming@),
        borrows: bors_view(s.borrows@),
    }
}

pub open spec fn scopes_view(s: Seq<Scope>) -> Seq<ScopeV> {
    Seq::new(s.len(), |i: int| sview(s[i]))
}

impl View for Run {
    type V = RunV;

    open spec fn view(&self) -> RunV {
        RunV {
            scopes: scopes_view(self.scopes@),
            log: binds_view(self.log@),
            diags: self.diags@,
            next_id: self.next_id,
        }
    }
}

/// Appends one error diagnostic to the sink.
pub open spec fn sv_push_diag(st: RunV, kind: DiagKind, pos: u32) -> RunV {
    RunV { diags: st.diags.push(spec_error_at(kind, pos)), ..st }
}

/// Pushes a fresh scope of the given kind, with the given upcoming names.
pub open spec fn sv_enter(st: RunV, kind: ScopeKind, up: Seq<Seq<char>>) -> RunV {
    RunV {
        scopes: st.scopes.push(
            ScopeV { kind, id: st.next_id, bindings: seq![], upcoming: up, borrows: seq![] },
        ),
        next_id: if st.next_id == u64::MAX {
            st.next_id
        } else {
            (st.next_id + 1) as u64
        },
        ..st
    }
}

/// Pops the innermost scope, moving its bindings into the resolved log.
pub open spec fn sv_exit(st: RunV) -> RunV {
    if st.scopes.len() == 0 {
        st
    } else {
        RunV {
            scopes: st.scopes.drop_last(),
            log: st.log + st.scopes.last().bindings,
            ..st
        }
    }
}

/// Whether some binding of the sequence has the given name.
pub open spec fn spec_scope_has(binds: Seq<BindingV>, name: Seq<char>) -> bool {
    exists|i: int| 0 <= i < binds.len() && binds[i].name == name
}

/// Declares a binding in the innermost scope. A name that already exists in
/// that same scope is a duplicate declaration (shadowing an enclosing scope
/// is legal and reports nothing); the new binding is recorded either way,
/// replacing the older one in lookup while keeping its record.
pub open spec fn sv_declare(st: RunV, b: BindingV) -> RunV {
    if st.scopes.len() == 0 {
        st
    } else {
        let top = st.scopes.last();
        let rest = st.scopes.drop_last();
        let diags = if spec_scope_has(top.bindings, b.name) {
            st.diags.push(spec_error_at(DiagKind::DuplicateDeclaration, b.pos))
        } else {
            st.diags
        };
        let owned = BindingV { owner: top.id, ..b };
        RunV {
            scopes: rest.push(ScopeV { bindings: top.bindings.push(owned), ..top }),
            diags,
            ..st
        }
    }
}

/// The innermost visible binding of the given name in one scope: the last
/// binding with that name, or `None`.
pub open spec fn spec_find_in(binds: Seq<BindingV>, name: Seq<char>) -> Option<BindingV>
    decreases binds.len(),
{
    if binds.len() == 0 {
        None
    } else if binds.last().name == name {
        Some(binds.last())
    } else {
        spec_find_in(binds.drop_last(), name)
    }
}

/// Resolution: searches the scope stack from innermost to outermost and
/// returns the first (nearest) binding of the given name.
pub open spec fn sv_resolve(scopes: Seq<ScopeV>, name: Seq<char>) -> Option<BindingV>
    decreases scopes.len(),
{
    if scopes.len() == 0 {
        None
    } else {
        match spec_find_in(scopes.last().bindings, name) {
            Some(b) => Some(b),
            None => sv_resolve(scopes.drop_last(), name),
        }
    }
}

/// Whether the name is declared later (textually) by a statement list of
/// some active scope.
pub open spec fn sv_in_upcoming(scopes: Seq<ScopeV>, name: Seq<char>) -> bool {
    exists|i: int, j: int|
        0 <= i < scopes.len() && 0 <= j < scopes[i].upcoming.len() && scopes[i].upcoming[j] == name
}

/// Whether a mutable borrow of the binding `(owner, name)` is recorded in
/// some active scope.
pub open spec fn sv_has_borrow(scopes: Seq<ScopeV>, owner: u64, name: Seq<char>) -> bool {
    exists|i: int, j: int|
        0 <= i < scopes.len() && 0 <= j < scopes[i].borrows.len() && scopes[i].borrows[j]
            == (BorrowV { owner, name })
}

/// Records a mutable borrow in the innermost scope.
pub open spec fn sv_note_borrow(st: RunV, owner: u64, name: Seq<char>) -> RunV {
    if st.scopes.len() == 0 {
        st
    } else {
        let top = st.scopes.last();
        let rest = st.scopes.drop_last();
        RunV {
            scopes: rest.push(
                ScopeV { borrows: top.borrows.push(BorrowV { owner, name }), ..top },
            ),
            ..st
        }
    }
}

impl Run {
    /// A fresh run: a single global scope with the given upcoming names.
    pub fn new(upcoming: Vec<String>) -> (r: Run)
        ensures
            r@ == sv_enter(
                RunV { scopes: seq![], log: seq![], diags: seq![], next_id: 0 },
                ScopeKind::Global,
                names_view(upcoming@),
            ),
    {
        let scope = Scope {
            kind: ScopeKind::Global,
            id: 0,
            bindings: Vec::new(),
            upcoming,
            borrows: Vec::new(),
        };
        let mut scopes: Vec<Scope> = Vec::new();
        scopes.push(scope);
        let r = Run { scopes, log: Vec::new(), diags: Vec::new(), next_id: 1 };
        proof {
            assert(r@.scopes =~~= sv_enter(
                RunV { scopes: seq![], log: seq![], diags: seq![], next_id: 0 },
                ScopeKind::Global,
                names_view(upcoming@),
            ).scopes);
            assert(r@ =~~= sv_enter(
                RunV { scopes: seq![], log: seq![], diags: seq![], next_id: 0 },
                ScopeKind::Global,
                names_view(upcoming@),
            ));
        }
        r
    }

    /// Appends one error diagnostic to the sink.
    pub fn push_diag(&mut self, kind: DiagKind, pos: u32)
        ensures
            final(self)@ == sv_push_diag(old(self)@, kind, pos),
    {
        self.diags.push(error_at(kind, pos));
        proof {
            assert(self@ =~~= sv_push_diag(old(self)@, kind, pos));
        }
    }

    /// Pushes a fresh scope of the given kind.
    pub fn enter_scope(&mut self, kind: ScopeKind, upcoming: Vec<String>)
        ensures
            final(self)@ == sv_enter(old(self)@, kind, names_view(upcoming@)),
    {
        let scope = Scope {
            kind,
            id: self.next_id,
            bindings: Vec::new(),
            upcoming,
            borrows: Vec::new(),
        };
        self.scopes.push(scope);
        if self.next_id < u64::MAX {
            self.next_id = self.next_id + 1;
        }
        proof {
            assert(self@.scopes =~~= sv_enter(old(self)@, kind, names_view(upcoming@)).scopes);
            assert(self@ =~~= sv_enter(old(self)@, kind, names_view(upcoming@)));
        }
    }

    /// Pops the innermost scope, moving its bindings into the resolved log.
    pub fn exit_scope(&mut self)
        ensures
            final(self)@ == sv_exit(old(self)@),
    {
        if self.scopes.len() == 0 {
            proof {
                assert(self@ =~~= sv_exit(old(self)@));
            }
            return ;
        }
        let mut top = self.scopes.pop().unwrap();
        self.log.append(&mut top.bindings);
        proof {
            assert(self@.scopes =~~= sv_exit(old(self)@).scopes);
            assert(self@.log =~~= sv_exit(old(self)@).log);
            assert(self@ =~~= sv_exit(old(self)@));
        }
    }

    /// Declares a binding in the innermost scope; see `sv_declare`.
    pub fn declare(&mut self, b: Binding)
        ensures
            final(self)@ == sv_declare(old(self)@, bview(b)),
    {
        if self.scopes.len() == 0 {
            proof {
                assert(self@ =~~= sv_declare(old(self)@, bview(b)));
            }
            return ;
        }
        let mut top = self.scopes.pop().unwrap();
        proof {
            assert(sview(top) == old(self)@.scopes.last());
        }
        if scope_has(&top.bindings, &b.name) {
            self.diags.push(error_at(DiagKind::DuplicateDeclaration, b.pos));
        }
        let mut owned = b;
        owned.owner = top.id;
        top.bindings.push(owned);
        self.scopes.push(top);
        proof {
            assert(self@.scopes =~~= sv_declare(old(self)@, bview(b)).scopes);
            assert(self@ =~~= sv_declare(old(self)@, bview(b)));
        }
    }

    /// Resolution from innermost to outermost scope; on a hit, returns the
    /// indices of the found binding in the scope stack.
    pub fn resolve(&self, name: &String) -> (r: Option<(usize, usize)>)
        ensures
            match r {
                Some(p) => {
                    &&& p.0 < self.scopes@.len()
                    &&& p.1 < self.scopes@[p.0 as int].bindings@.len()
                    &&& sv_resolve(self@.scopes, name@) == Some(
                        bview(self.scopes@[p.0 as int].bindings@[p.1 as int]),
                    )
                },
                None => sv_resolve(self@.scopes, name@) is None,
            },
    {
        let mut si: usize = self.scopes.len();
        proof {
            assert(self@.scopes.take(si as int) =~= self@.scopes);
        }
        while si > 0
            invariant
                si <= self.scopes@.len(),
                sv_resolve(self@.scopes, name@) == sv_resolve(
                    self@.scopes.take(si as int),
                    name@,
                ),
            decreases si,
        {
            si = si - 1;
            let ghost bv = self@.scopes[si as int].bindings;
            let mut bi: usize = self.scopes[si].bindings.len();
            proof {
                assert(bv.take(bi as int) =~= bv);
            }
            while bi > 0
                invariant
                    si < self.scopes@.len(),
                    bi <= bv.len(),
                    bv == self@.scopes[si as int].bindings,
                    spec_find_in(bv, name@) == spec_find_in(bv.take(bi as int), name@),
                    sv_resolve(self@.scopes, name@) == sv_resolve(
                        self@.scopes.take(si as int + 1),
                        name@,
                    ),
                decreases bi,
            {
                bi = bi - 1;
                proof {
                    assert(bv.take(bi as int + 1).drop_last() =~= bv.take(bi as int));
                    assert(bv.take(bi as int + 1).last() == bv[bi as int]);
                }
                if self.scopes[si].bindings[bi].name == *name {
                    proof {
                        assert(spec_find_in(bv, name@) == Some(bv[bi as int]));
                        assert(self@.scopes.take(si as int + 1).last() == self@.scopes[si as int]);
                        assert(sv_resolve(self@.scopes, name@) == Some(bv[bi as int]));
                    }
                    return Some((si, bi));
                }
            }
            proof {
                assert(bv.take(0) =~= Seq::<BindingV>::empty());
                assert(spec_find_in(bv, name@) is None);
                assert(self@.scopes.take(si as int + 1).drop_last() =~= self@.scopes.take(
                    si as int,
                ));
                assert(self@.scopes.take(si as int + 1).last() == self@.scopes[si as int]);
            }
        }
        proof {
            assert(self@.scopes.take(0) =~= Seq::<ScopeV>::empty());
        }
        None
    }

    /// Whether the name is declared later by a statement list of an active
    /// scope; see `sv_in_upcoming`.
    pub fn in_upcoming(&self, name: &String) -> (r: bool)
        ensures
            r == sv_in_upcoming(self@.scopes, name@),
    {
        let mut i: usize = 0;
        while i < self.scopes.len()
            invariant
                i <= self.scopes@.len(),
                forall|a: int, b: int|
                    0 <= a < i && 0 <= b < self@.scopes[a].upcoming.len()
                        ==> self@.scopes[a].upcoming[b] != name@,
            decreases self.scopes@.len() - i,
        {
            let mut j: usize = 0;
            while j < self.scopes[i].upcoming.len()
                invariant
                    i < self.scopes@.len(),
                    j <= self@.scopes[i as int].upcoming.len(),
                    forall|b: int|
                        0 <= b < j ==> self@.scopes[i as int].upcoming[b] != name@,
                decreases self.scopes@[i as int].upcoming.len() - j,
            {
                if self.scopes[i].upcoming[j] == *name {
                    proof {
                        assert(self@.scopes[i as int].upcoming[j as int] == name@);
                    }
                    return true;
                }
                j = j + 1;
            }
            i = i + 1;
        }
        false
    }

    /// Whether a mutable borrow of `(owner, name)` is live in some active
    /// scope; see `sv_has_borrow`.
    pub fn has_borrow(&self, owner: u64, name: &String) -> (r: bool)
        ensures
            r == sv_has_borrow(self@.scopes, owner, name@),
    {
        let mut i: usize = 0;
        while i < self.scopes.len()
            invariant
                i <= self.scopes@.len(),
                forall|a: int, b: int|
                    0 <= a < i && 0 <= b < self@.scopes[a].borrows.len()
                        ==> self@.scopes[a].borrows[b] != (BorrowV { owner, name: name@ }),
            decreases self.scopes@.len() - i,
        {
            let mut j: usize = 0;
            while j < self.scopes[i].borrows.len()
                invariant
                    i < self.scopes@.len(),
                    j <= self@.scopes[i as int].borrows.len(),
                    forall|b: int|
                        0 <= b < j ==> self@.scopes[i as int].borrows[b] != (BorrowV {
                            owner,
                            name: name@,
                        }),
                decreases self.scopes@[i as int].borrows.len() - j,
            {
                if self.scopes[i].borrows[j].owner == owner && self.scopes[i].borrows[j].name
                    == *name {
                    proof {
                        assert(self@.scopes[i as int].borrows[j as int] == (BorrowV {
                            owner,
                            name: name@,
                        }));
                    }
                    return true;
                }
                j = j + 1;
            }
            i = i + 1;
        }
        false
    }

    /// Records a mutable borrow in the innermost scope.
    pub fn note_borrow(&mut self, owner: u64, name: String)
        ensures
            final(self)@ == sv_note_borrow(old(self)@, owner, name@),
    {
        if self.scopes.len() == 0 {
            proof {
                assert(self@ =~~= sv_note_borrow(old(self)@, owner, name@));
            }
            return ;
        }
        let mut top = self.scopes.pop().unwrap();
        top.borrows.push(BorrowRec { owner, name });
        self.scopes.push(top);
        proof {
            assert(self@.scopes =~~= sv_note_borrow(old(self)@, owner, name@).scopes);
            assert(self@ =~~= sv_note_borrow(old(self)@, owner, name@));
        }
    }
}

/// Whether some binding of the vector has the given name; see
/// `spec_scope_has`.
pub fn scope_has(binds: &Vec<Binding>, name: &String) -> (r: bool)
    ensures
        r == spec_scope_has(binds_view(binds@), name@),
{
    let mut i: usize = 0;
    while i < binds.len()
        invariant
            i <= binds@.len(),
            forall|k: int| 0 <= k < i ==> binds_view(binds@)[k].name != name@,
        decreases binds@.len() - i,
    {
        if binds[i].name == *name {
            proof {
                assert(binds_view(binds@)[i as int].name == name@);
            }
            return true;
        }
        i = i + 1;
    }
    false
}

} // verus!
