//! The expression tree: a closed tagged union over the expression-level
//! grammar, one record type per variant, and the visitor dispatch protocol.
//! New operations over trees are added as new visitor implementations, never
//! by changing the node types; dispatch routes every node to exactly the
//! visitor method of its variant and is exhaustive over the variants.

use vstd::prelude::*;
use crate::error::LoxError;
use crate::token::{Object, Token};

verus! {

/// An expression node: exactly one of the grammar's variants. Children are
/// owned exclusively by their parent, so every tree is finite and strict.
pub enum Expr {
    Binary(BinaryExpr),
    Grouping(GroupingExpr),
    Literal(LiteralExpr),
    Unary(UnaryExpr),
}

/// `left operator right`.
pub struct BinaryExpr {
    pub left: Box<Expr>,
    pub operator: Token,
    pub right: Box<Expr>,
}

/// A parenthesized expression.
pub struct GroupingExpr {
    pub expression: Box<Expr>,
}

/// A literal value, or the absent literal `nil`.
pub struct LiteralExpr {
    pub value: Option<Object>,
}

/// `operator right`.
pub struct UnaryExpr {
    pub operator: Token,
    pub right: Box<Expr>,
}

/// The visitor contract: one method per grammar variant, each taking an
/// immutable reference to that variant's record and returning a result or a
/// typed failure. Each method's contract is the implementor's own
/// per-variant postcondition, so dispatching through `Expr::accept` yields
/// exactly the matching method's guarantee.
pub trait ExprVisitor<T> {
    /// What `visit_binary` promises of its result.
    spec fn binary_post(&self, expr: &BinaryExpr, r: Result<T, LoxError>) -> bool;

    /// What `visit_grouping` promises of its result.
    spec fn grouping_post(&self, expr: &GroupingExpr, r: Result<T, LoxError>) -> bool;

    /// What `visit_literal` promises of its result.
    spec fn literal_post(&self, expr: &LiteralExpr, r: Result<T, LoxError>) -> bool;

    /// What `visit_unary` promises of its result.
    spec fn unary_post(&self, expr: &UnaryExpr, r: Result<T, LoxError>) -> bool;

    fn visit_binary(&self, expr: &BinaryExpr) -> (r: Result<T, LoxError>)
        ensures
            self.binary_post(expr, r),
    ;

    fn visit_grouping(&self, expr: &GroupingExpr) -> (r: Result<T, LoxError>)
        ensures
            self.grouping_post(expr, r),
    ;

    fn visit_literal(&self, expr: &LiteralExpr) -> (r: Result<T, LoxError>)
        ensures
            self.literal_post(expr, r),
    ;

    fn visit_unary(&self, expr: &UnaryExpr) -> (r: Result<T, LoxError>)
        ensures
            self.unary_post(expr, r),
    ;
}

impl BinaryExpr {
    /// Route this node to the visitor's `Binary` method.
    pub fn accept<T, V: ExprVisitor<T>>(&self, visitor: &V) -> (r: Result<T, LoxError>)
        ensures
            visitor.binary_post(self, r),
    {
        visitor.visit_binary(self)
    }
}

impl GroupingExpr {
    /// Route this node to the visitor's `Grouping` method.
    pub fn accept<T, V: ExprVisitor<T>>(&self, visitor: &V) -> (r: Result<T, LoxError>)
        ensures
            visitor.grouping_post(self, r),
    {
        visitor.visit_grouping(self)
    }
}

impl LiteralExpr {
    /// Route this node to the visitor's `Literal` method.
    pub fn accept<T, V: ExprVisitor<T>>(&self, visitor: &V) -> (r: Result<T, LoxError>)
        ensures
            visitor.literal_post(self, r),
    {
        visitor.visit_literal(self)
    }
}

impl UnaryExpr {
    /// Route this node to the visitor's `Unary` method.
    pub fn accept<T, V: ExprVisitor<T>>(&self, visitor: &V) -> (r: Result<T, LoxError>)
        ensures
            visitor.unary_post(self, r),
    {
        visitor.visit_unary(self)
    }
}

impl Expr {
    /// The contract dispatch guarantees: the postcondition of exactly the
    /// visitor method matching this node's variant holds of the result.
    pub open spec fn dispatch_post<T, V: ExprVisitor<T>>(
        &self,
        visitor: &V,
        r: Result<T, LoxError>,
    ) -> bool {
        match self {
            Expr::Binary(e) => visitor.binary_post(e, r),
            Expr::Grouping(e) => visitor.grouping_post(e, r),
            Expr::Literal(e) => visitor.literal_post(e, r),
            Expr::Unary(e) => visitor.unary_post(e, r),
        }
    }

    /// Total dispatch over the union: route this node to the single visitor
    /// method matching its variant. A failure returned by the method
    /// propagates unchanged; nothing is synthesized here.
    pub fn accept<T, V: ExprVisitor<T>>(&self, visitor: &V) -> (r: Result<T, LoxError>)
        ensures
            self.dispatch_post(visitor, r),
    {
        match self {
            Expr::Binary(e) => e.accept(visitor),
            Expr::Grouping(e) => e.accept(visitor),
            Expr::Literal(e) => e.accept(visitor),
            Expr::Unary(e) => e.accept(visitor),
        }
    }
}

/// Dispatch is exhaustive over the grammar: for each variant, the guarantee
/// of dispatching is exactly the guarantee of that variant's visitor method
/// — never another method's and never a silent default.
pub proof fn lemma_dispatch_exhaustive<T, V: ExprVisitor<T>>(
    visitor: &V,
    r: Result<T, LoxError>,
    b: &BinaryExpr,
    g: &GroupingExpr,
    l: &LiteralExpr,
    u: &UnaryExpr,
)
    ensures
        (Expr::Binary(*b)).dispatch_post(visitor, r) == visitor.binary_post(b, r),
        (Expr::Grouping(*g)).dispatch_post(visitor, r) == visitor.grouping_post(g, r),
        (Expr::Literal(*l)).dispatch_post(visitor, r) == visitor.literal_post(l, r),
        (Expr::Unary(*u)).dispatch_post(visitor, r) == visitor.unary_post(u, r),
{
}

} // verus!
