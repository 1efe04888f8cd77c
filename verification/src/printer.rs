//! The reference visitor: renders an expression tree as a fully
//! parenthesized prefix expression. It is the executable specification of
//! tree shape and the golden-output format for tests; its output is not a
//! parseable serialization.

use vstd::prelude::*;
use vstd::string::StringExecFns;
use crate::error::LoxError;
use crate::expr::{BinaryExpr, Expr, ExprVisitor, GroupingExpr, LiteralExpr, UnaryExpr};
use crate::token::Object;

verus! {

/// The canonical text of a literal: its decoded text, or `nil` when the
/// literal is absent.
pub open spec fn literal_text(value: Option<Object>) -> Seq<char> {
    match value {
        None => "nil"@,
        Some(Object::Num(s)) => s@,
        Some(Object::Str(s)) => s@,
    }
}

/// The fully parenthesized prefix rendering of an expression tree:
/// `(operator left right)` for a binary node, `(group e)` for a grouping,
/// `(operator right)` for a unary node, and a literal's canonical text.
pub open spec fn render(e: Expr) -> Seq<char>
    decreases e,
{
    match e {
        Expr::Binary(b) => seq!['('] + b.operator.lexeme@ + seq![' '] + render(*b.left) + seq![' ']
            + render(*b.right) + seq![')'],
        Expr::Grouping(g) => seq!['('] + "group"@ + seq![' '] + render(*g.expression) + seq![')'],
        Expr::Literal(l) => literal_text(l.value),
        Expr::Unary(u) => seq!['('] + u.operator.lexeme@ + seq![' '] + render(*u.right) + seq![')'],
    }
}

/// Render an expression tree directly, variant by variant.
pub fn render_expr(expr: &Expr) -> (r: String)
    ensures
        r@ == render(*expr),
    decreases *expr,
{
    match expr {
        Expr::Binary(b) => {
            let mut s = String::from_str("(");
            s.append(b.operator.lexeme.as_str());
            s.append(" ");
            let left = render_expr(&*b.left);
            s.append(left.as_str());
            s.append(" ");
            let right = render_expr(&*b.right);
            s.append(right.as_str());
            s.append(")");
            proof {
                reveal_strlit("(");
                reveal_strlit(" ");
                reveal_strlit(")");
                assert(s@ =~= render(*expr));
            }
            s
        },
        Expr::Grouping(g) => {
            let mut s = String::from_str("(group ");
            let inner = render_expr(&*g.expression);
            s.append(inner.as_str());
            s.append(")");
            proof {
                reveal_strlit("(group ");
                reveal_strlit("group");
                reveal_strlit(")");
                assert("(group "@ =~= seq!['('] + "group"@ + seq![' ']);
                assert(s@ =~= render(*expr));
            }
            s
        },
        Expr::Literal(l) => {
            match &l.value {
                None => String::from_str("nil"),
                Some(Object::Num(n)) => n.clone(),
                Some(Object::Str(t)) => t.clone(),
            }
        },
        Expr::Unary(u) => {
            let mut s = String::from_str("(");
            s.append(u.operator.lexeme.as_str());
            s.append(" ");
            let right = render_expr(&*u.right);
            s.append(right.as_str());
            s.append(")");
            proof {
                reveal_strlit("(");
                reveal_strlit(" ");
                reveal_strlit(")");
                assert(s@ =~= render(*expr));
            }
            s
        },
    }
}

/// The renderings of the first `i` expressions, each preceded by one space.
pub open spec fn parts_to(items: Seq<&Expr>, i: int) -> Seq<char>
    decreases i,
{
    if i <= 0 {
        Seq::empty()
    } else {
        parts_to(items, i - 1) + seq![' '] + render(*items[i - 1])
    }
}

/// `name` and the renderings of `items`, space-separated, wrapped in one
/// pair of parentheses.
pub open spec fn paren_text(name: Seq<char>, items: Seq<&Expr>) -> Seq<char> {
    seq!['('] + name + parts_to(items, items.len() as int) + seq![')']
}

/// The reference visitor: renders every variant as prefix text.
pub struct AstPrinter;

impl AstPrinter {
    /// Render `expr` through the dispatch protocol.
    pub fn print(&self, expr: &Expr) -> (r: Result<String, LoxError>)
        ensures
            r is Ok,
            r->Ok_0@ == render(*expr),
    {
        expr.accept(self)
    }

    /// Wrap `name` and the rendered expressions in parentheses:
    /// `(name e1 e2 ...)`.
    #[verifier::loop_isolation(false)]
    pub fn parenthesize(&self, name: &str, exprs: &Vec<&Expr>) -> (r: Result<String, LoxError>)
        ensures
            r is Ok,
            r->Ok_0@ == paren_text(name@, exprs@),
    {
        let mut s = String::from_str("(");
        s.append(name);
        proof {
            assert(s@ =~= seq!['('] + name@ + parts_to(exprs@, 0)) by {
                reveal_strlit("(");
            }
        }
        let mut i: usize = 0;
        while i < exprs.len()
            invariant
                i <= exprs.len(),
                s@ == seq!['('] + name@ + parts_to(exprs@, i as int),
            decreases exprs.len() - i,
        {
            s.append(" ");
            let part = render_expr(exprs[i]);
            s.append(part.as_str());
            proof {
                reveal_strlit(" ");
                assert(s@ =~= seq!['('] + name@ + parts_to(exprs@, i + 1 as int));
            }
            i = i + 1;
        }
        s.append(")");
        proof {
            reveal_strlit(")");
            assert(s@ =~= paren_text(name@, exprs@));
        }
        Ok(s)
    }
}

impl ExprVisitor<String> for AstPrinter {
    /// The printer renders a binary node as `(operator left right)`.
    open spec fn binary_post(&self, expr: &BinaryExpr, r: Result<String, LoxError>) -> bool {
        r is Ok && r->Ok_0@ == render(Expr::Binary(*expr))
    }

    /// The printer renders a grouping as `(group e)`.
    open spec fn grouping_post(&self, expr: &GroupingExpr, r: Result<String, LoxError>) -> bool {
        r is Ok && r->Ok_0@ == render(Expr::Grouping(*expr))
    }

    /// The printer renders a literal as its canonical text.
    open spec fn literal_post(&self, expr: &LiteralExpr, r: Result<String, LoxError>) -> bool {
        r is Ok && r->Ok_0@ == render(Expr::Literal(*expr))
    }

    /// The printer renders a unary node as `(operator right)`.
    open spec fn unary_post(&self, expr: &UnaryExpr, r: Result<String, LoxError>) -> bool {
        r is Ok && r->Ok_0@ == render(Expr::Unary(*expr))
    }

    fn visit_binary(&self, expr: &BinaryExpr) -> (r: Result<String, LoxError>) {
        let mut items: Vec<&Expr> = Vec::new();
        items.push(&*expr.left);
        items.push(&*expr.right);
        let r = self.parenthesize(expr.operator.lexeme.as_str(), &items);
        proof {
            reveal_with_fuel(parts_to, 3);
            assert(paren_text(expr.operator.lexeme@, items@) =~= render(Expr::Binary(*expr)));
        }
        r
    }

    fn visit_grouping(&self, expr: &GroupingExpr) -> (r: Result<String, LoxError>) {
        let mut items: Vec<&Expr> = Vec::new();
        items.push(&*expr.expression);
        let r = self.parenthesize("group", &items);
        proof {
            reveal_with_fuel(parts_to, 2);
            assert(paren_text("group"@, items@) =~= render(Expr::Grouping(*expr)));
        }
        r
    }

    fn visit_literal(&self, expr: &LiteralExpr) -> (r: Result<String, LoxError>) {
        match &expr.value {
            None => Ok(String::from_str("nil")),
            Some(Object::Num(n)) => Ok(n.clone()),
            Some(Object::Str(t)) => Ok(t.clone()),
        }
    }

    fn visit_unary(&self, expr: &UnaryExpr) -> (r: Result<String, LoxError>) {
        let mut items: Vec<&Expr> = Vec::new();
        items.push(&*expr.right);
        let r = self.parenthesize(expr.operator.lexeme.as_str(), &items);
        proof {
            reveal_with_fuel(parts_to, 2);
            assert(paren_text(expr.operator.lexeme@, items@) =~= render(Expr::Unary(*expr)));
        }
        r
    }
}

} // verus!
