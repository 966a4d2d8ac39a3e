//! The type model: a closed set of value types for the analyzed language,
//! with structural compatibility and cast legality.

use vstd::prelude::*;

verus! {

/// Width of an integer type (i8 through i64).
#[derive(Clone, Copy, PartialEq, Eq, Structural, Debug)]
pub enum IntWidth {
    W8,
    W16,
    W32,
    W64,
}

/// Width of a floating-point type (f32 or f64).
#[derive(Clone, Copy, PartialEq, Eq, Structural, Debug)]
pub enum FloatWidth {
    W32,
    W64,
}

/// A value type of the analyzed language.
///
/// `Unknown` is the error-recovery sentinel: it is never written by the
/// source program, but stands in for a type the checker could not determine,
/// and is compatible with everything so that one fault does not cascade.
#[derive(Debug, PartialEq)]
pub enum Type {
    Bool,
    Int(IntWidth),
    Float(FloatWidth),
    Char,
    Unit,
    Unknown,
    /// Fixed-size array: element type and length.
    Array(Box<Type>, usize),
    /// Function or closure signature: parameter types and return type.
    Function(Box<TypeList>, Box<Type>),
}

/// An ordered list of parameter types.
#[derive(Debug, PartialEq)]
pub enum TypeList {
    Nil,
    Cons(Type, Box<TypeList>),
}

/// Whether `t` is a numeric (integer or floating-point) type.
pub open spec fn spec_is_numeric(t: Type) -> bool {
    match t {
        Type::Int(_) => true,
        Type::Float(_) => true,
        _ => false,
    }
}

/// Structural compatibility: equality, except that `Unknown` (the recovery
/// sentinel) is compatible with every type. There is no implicit widening:
/// an `Int` and a `Float` are never compatible, nor two different widths.
pub open spec fn spec_compatible(a: Type, b: Type) -> bool
    decreases a,
{
    match (a, b) {
        (Type::Unknown, _) => true,
        (_, Type::Unknown) => true,
        (Type::Bool, Type::Bool) => true,
        (Type::Char, Type::Char) => true,
        (Type::Unit, Type::Unit) => true,
        (Type::Int(w1), Type::Int(w2)) => w1 == w2,
        (Type::Float(w1), Type::Float(w2)) => w1 == w2,
        (Type::Array(e1, n1), Type::Array(e2, n2)) => n1 == n2 && spec_compatible(*e1, *e2),
        (Type::Function(p1, r1), Type::Function(p2, r2)) => spec_compatible_list(*p1, *p2)
            && spec_compatible(*r1, *r2),
        _ => false,
    }
}

/// Pointwise compatibility of two parameter-type lists of equal length.
pub open spec fn spec_compatible_list(a: TypeList, b: TypeList) -> bool
    decreases a,
{
    match (a, b) {
        (TypeList::Nil, TypeList::Nil) => true,
        (TypeList::Cons(x, xs), TypeList::Cons(y, ys)) => spec_compatible(x, y)
            && spec_compatible_list(*xs, *ys),
        _ => false,
    }
}

/// Cast legality: numeric-to-numeric, numeric-to-char and char-to-numeric
/// are the only legal casts; `Unknown` on either side is let through as
/// error recovery.
pub open spec fn spec_cast_allowed(from: Type, to: Type) -> bool {
    ||| from is Unknown
    ||| to is Unknown
    ||| (spec_is_numeric(from) && spec_is_numeric(to))
    ||| (spec_is_numeric(from) && to is Char)
    ||| (from is Char && spec_is_numeric(to))
}

/// Number of parameter types in the list.
pub open spec fn spec_list_len(l: TypeList) -> nat
    decreases l,
{
    match l {
        TypeList::Nil => 0,
        TypeList::Cons(_, rest) => 1 + spec_list_len(*rest),
    }
}

impl Type {
    /// Whether this type is numeric.
    pub fn is_numeric(&self) -> (r: bool)
        ensures
            r == spec_is_numeric(*self),
    {
        match self {
            Type::Int(_) => true,
            Type::Float(_) => true,
            _ => false,
        }
    }

    /// A structurally equal copy of this type.
    pub fn duplicate(&self) -> (r: Type)
        ensures
            r == *self,
        decreases *self,
    {
        match self {
            Type::Bool => Type::Bool,
            Type::Int(w) => Type::Int(*w),
            Type::Float(w) => Type::Float(*w),
            Type::Char => Type::Char,
            Type::Unit => Type::Unit,
            Type::Unknown => Type::Unknown,
            Type::Array(e, n) => Type::Array(Box::new((**e).duplicate()), *n),
            Type::Function(p, r0) => Type::Function(
                Box::new(duplicate_list(&**p)),
                Box::new((**r0).duplicate()),
            ),
        }
    }
}

/// A structurally equal copy of a parameter-type list.
pub fn duplicate_list(l: &TypeList) -> (r: TypeList)
    ensures
        r == *l,
    decreases *l,
{
    match l {
        TypeList::Nil => TypeList::Nil,
        TypeList::Cons(t, rest) => TypeList::Cons(t.duplicate(), Box::new(duplicate_list(&**rest))),
    }
}

/// Structural compatibility of two types; see `spec_compatible`.
pub fn compatible(a: &Type, b: &Type) -> (r: bool)
    ensures
        r == spec_compatible(*a, *b),
    decreases *a,
{
    match (a, b) {
        (Type::Unknown, _) => true,
        (_, Type::Unknown) => true,
        (Type::Bool, Type::Bool) => true,
        (Type::Char, Type::Char) => true,
        (Type::Unit, Type::Unit) => true,
        (Type::Int(w1), Type::Int(w2)) => w1 == w2,
        (Type::Float(w1), Type::Float(w2)) => w1 == w2,
        (Type::Array(e1, n1), Type::Array(e2, n2)) => *n1 == *n2 && compatible(&**e1, &**e2),
        (Type::Function(p1, r1), Type::Function(p2, r2)) => compatible_list(&**p1, &**p2)
            && compatible(&**r1, &**r2),
        _ => false,
    }
}

/// Pointwise compatibility of two parameter-type lists; see
/// `spec_compatible_list`.
pub fn compatible_list(a: &TypeList, b: &TypeList) -> (r: bool)
    ensures
        r == spec_compatible_list(*a, *b),
    decreases *a,
{
    match (a, b) {
        (TypeList::Nil, TypeList::Nil) => true,
        (TypeList::Cons(x, xs), TypeList::Cons(y, ys)) => compatible(x, y)
            && compatible_list(&**xs, &**ys),
        _ => false,
    }
}

/// Cast legality; see `spec_cast_allowed`.
pub fn cast_allowed(from: &Type, to: &Type) -> (r: bool)
    ensures
        r == spec_cast_allowed(*from, *to),
{
    if matches!(from, Type::Unknown) || matches!(to, Type::Unknown) {
        true
    } else if from.is_numeric() && to.is_numeric() {
        true
    } else if from.is_numeric() && matches!(to, Type::Char) {
        true
    } else {
        matches!(from, Type::Char) && to.is_numeric()
    }
}


/// Structural equality of two types.
pub fn type_eq(a: &Type, b: &Type) -> (r: bool)
    ensures
        r == (*a == *b),
    decreases *a,
{
    match (a, b) {
        (Type::Bool, Type::Bool) => true,
        (Type::Char, Type::Char) => true,
        (Type::Unit, Type::Unit) => true,
        (Type::Unknown, Type::Unknown) => true,
        (Type::Int(w1), Type::Int(w2)) => w1 == w2,
        (Type::Float(w1), Type::Float(w2)) => w1 == w2,
        (Type::Array(e1, n1), Type::Array(e2, n2)) => *n1 == *n2 && type_eq(&**e1, &**e2),
        (Type::Function(p1, r1), Type::Function(p2, r2)) => type_list_eq(&**p1, &**p2) && type_eq(
            &**r1,
            &**r2,
        ),
        _ => false,
    }
}

/// Structural equality of two parameter-type lists.
pub fn type_list_eq(a: &TypeList, b: &TypeList) -> (r: bool)
    ensures
        r == (*a == *b),
    decreases *a,
{
    match (a, b) {
        (TypeList::Nil, TypeList::Nil) => true,
        (TypeList::Cons(x, xs), TypeList::Cons(y, ys)) => type_eq(x, y) && type_list_eq(
            &**xs,
            &**ys,
        ),
        _ => false,
    }
}

} // verus!
