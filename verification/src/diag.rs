//! Diagnostics: structured reports of semantic problems.

use vstd::prelude::*;

verus! {

/// How serious a diagnostic is. Only errors block acceptance.
#[derive(Clone, Copy, PartialEq, Eq, Structural, Debug)]
pub enum Severity {
    Error,
    Warning,
}

/// The closed taxonomy of semantic faults the analyzer reports.
#[derive(Clone, Copy, PartialEq, Eq, Structural, Debug)]
pub enum DiagKind {
    DuplicateDeclaration,
    UnresolvedIdentifier,
    TypeMismatch,
    IllegalCast,
    AmbiguousType,
    NonConstantInitializer,
    AssignToImmutable,
    InvalidMutableBorrow,
    ConflictingBorrow,
    ArityMismatch,
    ArgumentTypeMismatch,
    NotIndexable,
    IndexTypeError,
    NonBooleanCondition,
    MissingReturn,
    UseBeforeDeclaration,
}

/// One diagnostic: severity, kind and the source position of the offending
/// construct. The message text is a fixed rendering of the kind, available
/// through `message`.
#[derive(Clone, Copy, PartialEq, Eq, Structural, Debug)]
pub struct Diagnostic {
    pub severity: Severity,
    pub kind: DiagKind,
    pub pos: u32,
}

/// An error diagnostic of kind `kind` at position `pos`.
pub open spec fn spec_error_at(kind: DiagKind, pos: u32) -> Diagnostic {
    Diagnostic { severity: Severity::Error, kind, pos }
}

/// See `spec_error_at`.
pub fn error_at(kind: DiagKind, pos: u32) -> (d: Diagnostic)
    ensures
        d == spec_error_at(kind, pos),
{
    Diagnostic { severity: Severity::Error, kind, pos }
}

/// The fixed message text for each diagnostic kind.
pub open spec fn spec_message(kind: DiagKind) -> Seq<char> {
    match kind {
        DiagKind::DuplicateDeclaration => "duplicate declaration in the same scope"@,
        DiagKind::UnresolvedIdentifier => "use of an undeclared identifier"@,
        DiagKind::TypeMismatch => "mismatched types"@,
        DiagKind::IllegalCast => "illegal cast"@,
        DiagKind::AmbiguousType => "no constraint determines the type"@,
        DiagKind::NonConstantInitializer => "constant initializer is not constant"@,
        DiagKind::AssignToImmutable => "assignment to an immutable binding"@,
        DiagKind::InvalidMutableBorrow => "mutable borrow of an immutable binding"@,
        DiagKind::ConflictingBorrow => "conflicting mutable borrows"@,
        DiagKind::ArityMismatch => "wrong number of arguments"@,
        DiagKind::ArgumentTypeMismatch => "argument has the wrong type"@,
        DiagKind::NotIndexable => "indexed value is not an array"@,
        DiagKind::IndexTypeError => "array index is not an integer"@,
        DiagKind::NonBooleanCondition => "condition is not boolean"@,
        DiagKind::MissingReturn => "not every path returns a value"@,
        DiagKind::UseBeforeDeclaration => "identifier used before its declaration"@,
    }
}

impl Diagnostic {
    /// The fixed message text for this diagnostic.
    pub fn message(&self) -> (m: &'static str)
        ensures
            m@ == spec_message(self.kind),
    {
        match self.kind {
            DiagKind::DuplicateDeclaration => "duplicate declaration in the same scope",
            DiagKind::UnresolvedIdentifier => "use of an undeclared identifier",
            DiagKind::TypeMismatch => "mismatched types",
            DiagKind::IllegalCast => "illegal cast",
            DiagKind::AmbiguousType => "no constraint determines the type",
            DiagKind::NonConstantInitializer => "constant initializer is not constant",
            DiagKind::AssignToImmutable => "assignment to an immutable binding",
            DiagKind::InvalidMutableBorrow => "mutable borrow of an immutable binding",
            DiagKind::ConflictingBorrow => "conflicting mutable borrows",
            DiagKind::ArityMismatch => "wrong number of arguments",
            DiagKind::ArgumentTypeMismatch => "argument has the wrong type",
            DiagKind::NotIndexable => "indexed value is not an array",
            DiagKind::IndexTypeError => "array index is not an integer",
            DiagKind::NonBooleanCondition => "condition is not boolean",
            DiagKind::MissingReturn => "not every path returns a value",
            DiagKind::UseBeforeDeclaration => "identifier used before its declaration",
        }
    }
}

/// Whether the diagnostic sequence contains an error-severity entry.
pub open spec fn spec_has_error(diags: Seq<Diagnostic>) -> bool {
    exists|i: int| 0 <= i < diags.len() && diags[i].severity == Severity::Error
}

} // verus!
