//! The syntax tree and its canonical printed form.

use vstd::prelude::*;

verus! {

/// A literal value. A number is held as the printed form of its value.
#[derive(Debug, Clone)]
pub enum LitValue {
    Boolean(bool),
    Nil,
    Number(String),
    Str(String),
}

/// An expression: a literal, or a parenthesized expression.
#[derive(Debug)]
pub enum Expr {
    Literal(LitValue),
    Grouping(Box<Expr>),
}

/// The mathematical value of a [`LitValue`].
pub enum LitView {
    Boolean(bool),
    Nil,
    Number(Seq<char>),
    Str(Seq<char>),
}

/// The mathematical value of an [`Expr`].
pub enum ExprView {
    Literal(LitView),
    Grouping(Box<ExprView>),
}

impl View for LitValue {
    type V = LitView;

    open spec fn view(&self) -> LitView {
        match self {
            LitValue::Boolean(b) => LitView::Boolean(*b),
            LitValue::Nil => LitView::Nil,
            LitValue::Number(n) => LitView::Number(n@),
            LitValue::Str(s) => LitView::Str(s@),
        }
    }
}

/// The value of an expression, by recursion over its groupings.
pub open spec fn expr_view(expr: Expr) -> ExprView
    decreases expr,
{
    match expr {
        Expr::Literal(value) => ExprView::Literal(value@),
        Expr::Grouping(inner) => ExprView::Grouping(Box::new(expr_view(*inner))),
    }
}

impl View for Expr {
    type V = ExprView;

    open spec fn view(&self) -> ExprView {
        expr_view(*self)
    }
}

/// The printed form of a literal: `true`, `false` or `nil`; a number as the
/// text it holds; a string between double quotes, with no escaping.
pub open spec fn render_literal(value: LitView) -> Seq<char> {
    match value {
        LitView::Boolean(b) => if b {
            "true"@
        } else {
            "false"@
        },
        LitView::Nil => "nil"@,
        LitView::Number(n) => n,
        LitView::Str(s) => "\""@ + s + "\""@,
    }
}

/// The printed form of an expression: a literal as itself, a grouping as
/// `(group ` followed by the inner expression and `)`.
pub open spec fn render(expr: ExprView) -> Seq<char>
    decreases expr,
{
    match expr {
        ExprView::Literal(value) => render_literal(value),
        ExprView::Grouping(inner) => "(group "@ + render(*inner) + ")"@,
    }
}

/// The number of groupings around the literal of an expression.
pub open spec fn depth(expr: ExprView) -> nat
    decreases expr,
{
    match expr {
        ExprView::Literal(_) => 0,
        ExprView::Grouping(inner) => depth(*inner) + 1,
    }
}

/// Renders an expression in its printed form.
pub fn print_ast(expr: &Expr) -> (text: String)
    ensures
        text@ == render(expr@),
    decreases expr,
{
    match expr {
        Expr::Literal(value) => match value {
            LitValue::Boolean(b) => if *b {
                String::from_str("true")
            } else {
                String::from_str("false")
            },
            LitValue::Nil => String::from_str("nil"),
            LitValue::Number(n) => n.clone(),
            LitValue::Str(s) => {
                let mut text = String::from_str("\"");
                text.append(s.as_str());
                text.append("\"");
                text
            },
        },
        Expr::Grouping(inner) => {
            let mut text = String::from_str("(group ");
            let sub = print_ast(inner);
            text.append(sub.as_str());
            text.append(")");
            text
        },
    }
}

} // verus!
