//! The abstract syntax tree the analyzer consumes.
//!
//! The tree is built by an external front end; every node carries a source
//! position (a byte offset or any other monotone marker the front end
//! chooses) used only for diagnostic reporting.

use vstd::prelude::*;
use crate::types::Type;

verus! {

/// A literal value. The analyzer only ever looks at a literal's type, so
/// floating-point literals carry no value. A string literal is typed as a
/// fixed-size array of characters.
#[derive(Debug)]
pub enum Lit {
    Bool(bool),
    /// Integer literal; defaults to the 32-bit integer type.
    Int(i64),
    /// Floating-point literal; defaults to the 64-bit float type.
    Float,
    Char(char),
    /// String literal, typed as `Array(Char, character count)`.
    Str(String),
}

/// A unary operator.
#[derive(Clone, Copy, PartialEq, Eq, Structural, Debug)]
pub enum UnOp {
    /// Logical negation `!`.
    Not,
    /// Arithmetic negation `-`.
    Neg,
    /// Shared reference `&`.
    Ref,
    /// Mutable reference `&mut`.
    RefMut,
}

/// A binary operator.
#[derive(Clone, Copy, PartialEq, Eq, Structural, Debug)]
pub enum BinOp {
    Add,
    Sub,
    Mul,
    Div,
    Rem,
    And,
    Or,
    Lt,
    Le,
    Gt,
    Ge,
    EqEq,
    Ne,
}

impl BinOp {
    /// Arithmetic operators: `+ - * / %`.
    pub open spec fn spec_is_arith(self) -> bool {
        self == BinOp::Add || self == BinOp::Sub || self == BinOp::Mul || self == BinOp::Div
            || self == BinOp::Rem
    }

    /// Logical operators: `&& ||`.
    pub open spec fn spec_is_logic(self) -> bool {
        self == BinOp::And || self == BinOp::Or
    }

    /// Comparison operators: `< <= > >= == !=`.
    pub open spec fn spec_is_cmp(self) -> bool {
        self == BinOp::Lt || self == BinOp::Le || self == BinOp::Gt || self == BinOp::Ge
            || self == BinOp::EqEq || self == BinOp::Ne
    }

    /// See `spec_is_arith`.
    pub fn is_arith(&self) -> (r: bool)
        ensures
            r == self.spec_is_arith(),
    {
        matches!(self, BinOp::Add | BinOp::Sub | BinOp::Mul | BinOp::Div | BinOp::Rem)
    }

    /// See `spec_is_logic`.
    pub fn is_logic(&self) -> (r: bool)
        ensures
            r == self.spec_is_logic(),
    {
        matches!(self, BinOp::And | BinOp::Or)
    }

    /// See `spec_is_cmp`.
    pub fn is_cmp(&self) -> (r: bool)
        ensures
            r == self.spec_is_cmp(),
    {
        matches!(self, BinOp::Lt | BinOp::Le | BinOp::Gt | BinOp::Ge | BinOp::EqEq | BinOp::Ne)
    }
}

/// A parameter of a function declaration: functions carry full annotations.
#[derive(Debug)]
pub struct Param {
    pub name: String,
    pub ty: Type,
    pub pos: u32,
}

/// A parameter of a closure: the type annotation is optional and, when
/// absent, is inferred from the closure body.
#[derive(Debug)]
pub struct ClosureParam {
    pub name: String,
    pub ty: Option<Type>,
    pub pos: u32,
}

/// An expression node.
#[derive(Debug)]
pub struct Expr {
    pub pos: u32,
    pub kind: ExprKind,
}

/// The expression forms of the language.
#[derive(Debug)]
pub enum ExprKind {
    Lit(Lit),
    Ident(String),
    Unary(UnOp, Box<Expr>),
    Binary(BinOp, Box<Expr>, Box<Expr>),
    /// Array literal `[a, b, c]`.
    ArrayLit(Vec<Expr>),
    /// Array repeat literal `[e; n]`.
    ArrayRepeat(Box<Expr>, usize),
    /// Index access `base[index]`.
    Index(Box<Expr>, Box<Expr>),
    /// Call `callee(args...)`.
    Call(Box<Expr>, Vec<Expr>),
    /// Cast `e as T`.
    Cast(Box<Expr>, Type),
    /// Closure literal: parameters, optional return annotation, a block of
    /// statements and an optional tail expression giving the body's value.
    Closure(Vec<ClosureParam>, Option<Type>, Vec<Stmt>, Option<Box<Expr>>),
}

/// A statement node.
#[derive(Debug)]
pub struct Stmt {
    pub pos: u32,
    pub kind: StmtKind,
}

/// The statement forms of the language.
#[derive(Debug)]
pub enum StmtKind {
    /// `let name = init;` or `let mut name: T = init;`
    Let(String, bool, Option<Type>, Box<Expr>),
    /// `const NAME: T = init;`
    Const(String, Type, Box<Expr>),
    /// `name = value;`
    Assign(String, Box<Expr>),
    /// An expression evaluated for effect.
    Expr(Box<Expr>),
    /// `while cond { body }`
    While(Box<Expr>, Vec<Stmt>),
    /// `for var in iter { body }`
    For(String, Box<Expr>, Vec<Stmt>),
    /// `if cond { then } else { els }`
    If(Box<Expr>, Vec<Stmt>, Option<Vec<Stmt>>),
    /// `return;` or `return e;`
    Return(Option<Box<Expr>>),
    /// `fn name(params...) -> ret { body }`
    Fn(String, Vec<Param>, Type, Vec<Stmt>),
}

/// A whole program: its top-level statements in source order.
#[derive(Debug)]
pub struct Program {
    pub stmts: Vec<Stmt>,
}

} // verus!
