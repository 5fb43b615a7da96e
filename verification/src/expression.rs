//! The expression tree: four node kinds, each node exclusively owning its
//! children, and the printer that renders a tree in fully parenthesized
//! prefix form so its shape can be observed and tested.
use vstd::prelude::*;
use vstd::string::StringExecFns;

use crate::token::{Token, TokenView};

verus! {

/// The value carried by a literal node. Numbers are carried as their
/// canonical decimal text; the null literal is the distinguished empty
/// value.
pub enum LiteralValue {
    String(String),
    Number(String),
    Bool(bool),
    Null,
}

/// Mathematical image of a [`LiteralValue`].
pub ghost enum LiteralValueView {
    String(Seq<char>),
    Number(Seq<char>),
    Bool(bool),
    Null,
}

impl View for LiteralValue {
    type V = LiteralValueView;

    open spec fn view(&self) -> LiteralValueView {
        match self {
            LiteralValue::String(s) => LiteralValueView::String(s@),
            LiteralValue::Number(t) => LiteralValueView::Number(t@),
            LiteralValue::Bool(b) => LiteralValueView::Bool(*b),
            LiteralValue::Null => LiteralValueView::Null,
        }
    }
}

/// An expression: a finite tree whose nodes are binary operations,
/// parenthesized groupings, literals and unary operations. Each node owns
/// its children outright.
pub enum Expr {
    Binary { left: Box<Expr>, operator: Token, right: Box<Expr> },
    Grouping { expression: Box<Expr> },
    Literal { value: LiteralValue },
    Unary { operator: Token, right: Box<Expr> },
}

/// Mathematical image of an [`Expr`].
pub ghost enum ExprView {
    Binary { left: Box<ExprView>, operator: TokenView, right: Box<ExprView> },
    Grouping { expression: Box<ExprView> },
    Literal { value: LiteralValueView },
    Unary { operator: TokenView, right: Box<ExprView> },
}

/// The image of an expression tree, node by node.
pub open spec fn expr_view(e: Expr) -> ExprView
    decreases e,
{
    match e {
        Expr::Binary { left, operator, right } => ExprView::Binary {
            left: Box::new(expr_view(*left)),
            operator: operator@,
            right: Box::new(expr_view(*right)),
        },
        Expr::Grouping { expression } => ExprView::Grouping {
            expression: Box::new(expr_view(*expression)),
        },
        Expr::Literal { value } => ExprView::Literal { value: value@ },
        Expr::Unary { operator, right } => ExprView::Unary {
            operator: operator@,
            right: Box::new(expr_view(*right)),
        },
    }
}

impl View for Expr {
    type V = ExprView;

    open spec fn view(&self) -> ExprView {
        expr_view(*self)
    }
}

/// The textual form of a literal: its text for strings and numbers, the
/// words `true` and `false` for booleans, and `null` for the null literal.
pub open spec fn literal_text(v: LiteralValueView) -> Seq<char> {
    match v {
        LiteralValueView::String(s) => s,
        LiteralValueView::Number(t) => t,
        LiteralValueView::Bool(b) => if b {
            "true"@
        } else {
            "false"@
        },
        LiteralValueView::Null => "null"@,
    }
}

/// The canonical prefix printing of an expression: an operator node is
/// `(<operator> <children...>)`, a grouping is `(grouping <inner>)`, and a
/// literal is its textual form.
pub open spec fn print_view(e: ExprView) -> Seq<char>
    decreases e,
{
    match e {
        ExprView::Binary { left, operator, right } => "("@ + operator.lexeme + " "@ + print_view(
            *left,
        ) + " "@ + print_view(*right) + ")"@,
        ExprView::Grouping { expression } => "(grouping "@ + print_view(*expression) + ")"@,
        ExprView::Literal { value } => literal_text(value),
        ExprView::Unary { operator, right } => "("@ + operator.lexeme + " "@ + print_view(*right)
            + ")"@,
    }
}

/// The textual form of one literal value.
pub fn literal_string(v: &LiteralValue) -> (r: String)
    ensures
        r@ == literal_text(v@),
{
    match v {
        LiteralValue::String(s) => s.clone(),
        LiteralValue::Number(t) => t.clone(),
        LiteralValue::Bool(b) => {
            if *b {
                "true".to_owned()
            } else {
                "false".to_owned()
            }
        },
        LiteralValue::Null => "null".to_owned(),
    }
}

/// Renders one expression tree in the canonical prefix form.
pub fn print_expr(e: &Expr) -> (r: String)
    ensures
        r@ == print_view(e@),
    decreases e,
{
    match e {
        Expr::Binary { left, operator, right } => {
            let mut r = String::from_str("(");
            r.append(operator.lexeme.as_str());
            r.append(" ");
            let ls = print_expr(&**left);
            r.append(ls.as_str());
            r.append(" ");
            let rs = print_expr(&**right);
            r.append(rs.as_str());
            r.append(")");
            proof {
                assert(r@ =~= print_view(e@));
            }
            r
        },
        Expr::Grouping { expression } => {
            let mut r = String::from_str("(grouping ");
            let is = print_expr(&**expression);
            r.append(is.as_str());
            r.append(")");
            proof {
                assert(r@ =~= print_view(e@));
            }
            r
        },
        Expr::Literal { value } => literal_string(value),
        Expr::Unary { operator, right } => {
            let mut r = String::from_str("(");
            r.append(operator.lexeme.as_str());
            r.append(" ");
            let rs = print_expr(&**right);
            r.append(rs.as_str());
            r.append(")");
            proof {
                assert(r@ =~= print_view(e@));
            }
            r
        },
    }
}

/// The images of a row of expressions.
pub open spec fn exprs_view(es: Seq<&Expr>) -> Seq<ExprView> {
    es.map_values(|e: &Expr| e@)
}

/// The body a parenthesized rendering appends after its head: a space and
/// the printing of each expression, in order.
pub open spec fn paren_items(es: Seq<ExprView>) -> Seq<char>
    decreases es.len(),
{
    if es.len() == 0 {
        Seq::<char>::empty()
    } else {
        paren_items(es.drop_last()) + " "@ + print_view(es.last())
    }
}

/// A parenthesized rendering: the head name, then each expression's
/// printing, space-separated.
pub open spec fn paren_view(name: Seq<char>, es: Seq<ExprView>) -> Seq<char> {
    "("@ + name + paren_items(es) + ")"@
}

/// The tree printer. It renders a node head and its children in
/// parentheses, the form the canonical printing [`print_view`] describes.
pub struct AstPrinter;

impl AstPrinter {
    /// Renders a whole expression tree.
    pub fn print(&self, expr: Expr) -> (r: String)
        ensures
            r@ == print_view(expr@),
    {
        print_expr(&expr)
    }

    /// Renders a head name and a row of subtrees as one parenthesized
    /// group.
    pub fn parenthesize(&self, name: &str, expressions: &[&Expr]) -> (r: String)
        ensures
            r@ == paren_view(name@, exprs_view(expressions@)),
    {
        let ghost vs = exprs_view(expressions@);
        let mut r = String::from_str("(");
        r.append(name);
        let n = expressions.len();
        let mut i: usize = 0;
        while i < n
            invariant
                0 <= i <= n,
                n == expressions@.len(),
                vs == exprs_view(expressions@),
                vs.len() == n,
                r@ == "("@ + name@ + paren_items(vs.take(i as int)),
            decreases n - i,
        {
            let s = print_expr(expressions[i]);
            r.append(" ");
            r.append(s.as_str());
            proof {
                assert(vs.take(i + 1).drop_last() =~= vs.take(i as int));
                assert(vs.take(i + 1).last() == vs[i as int]);
                assert(r@ =~= "("@ + name@ + paren_items(vs.take(i + 1)));
            }
            i = i + 1;
        }
        r.append(")");
        proof {
            assert(vs.take(n as int) =~= vs);
            assert(r@ =~= paren_view(name@, exprs_view(expressions@)));
        }
        r
    }
}

} // verus!
