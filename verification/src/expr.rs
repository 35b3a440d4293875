use vstd::prelude::*;
use crate::token::{
    Literal, LiteralView, Token, TokenView, clone_literal_option, literal_option_view,
};

verus! {

/// An expression: one of four shapes, each owning its operands.
#[derive(Debug)]
pub enum Expr {
    Binary(BinaryExpr),
    Unary(UnaryExpr),
    Grouping(GroupingExpr),
    Literal(LiteralExpr),
}

#[derive(Debug)]
pub struct BinaryExpr {
    pub left: Box<Expr>,
    pub operator: Token,
    pub right: Box<Expr>,
}

#[derive(Debug)]
pub struct UnaryExpr {
    pub operator: Token,
    pub right: Box<Expr>,
}

#[derive(Debug)]
pub struct GroupingExpr {
    pub expression: Box<Expr>,
}

/// A literal node. A node without a value stands for nil.
#[derive(Debug)]
pub struct LiteralExpr {
    pub value: Option<Literal>,
}

/// The mathematical value of an [`Expr`]: the same tree over the views of
/// its tokens and literals.
pub enum ExprView {
    Binary { left: Box<ExprView>, operator: TokenView, right: Box<ExprView> },
    Unary { operator: TokenView, right: Box<ExprView> },
    Grouping { expression: Box<ExprView> },
    Literal { value: Option<LiteralView> },
}

impl Expr {
    /// The tree that this expression stands for.
    pub open spec fn tree(self) -> ExprView
        decreases self,
    {
        match self {
            Expr::Binary(b) => ExprView::Binary {
                left: Box::new((*b.left).tree()),
                operator: b.operator@,
                right: Box::new((*b.right).tree()),
            },
            Expr::Unary(u) => ExprView::Unary {
                operator: u.operator@,
                right: Box::new((*u.right).tree()),
            },
            Expr::Grouping(g) => ExprView::Grouping {
                expression: Box::new((*g.expression).tree()),
            },
            Expr::Literal(l) => ExprView::Literal { value: literal_option_view(l.value) },
        }
    }
}

impl View for Expr {
    type V = ExprView;

    open spec fn view(&self) -> ExprView {
        self.tree()
    }
}

impl View for BinaryExpr {
    type V = ExprView;

    open spec fn view(&self) -> ExprView {
        Expr::Binary(*self).tree()
    }
}

impl View for UnaryExpr {
    type V = ExprView;

    open spec fn view(&self) -> ExprView {
        Expr::Unary(*self).tree()
    }
}

impl View for GroupingExpr {
    type V = ExprView;

    open spec fn view(&self) -> ExprView {
        Expr::Grouping(*self).tree()
    }
}

impl View for LiteralExpr {
    type V = ExprView;

    open spec fn view(&self) -> ExprView {
        Expr::Literal(*self).tree()
    }
}

impl Clone for Expr {
    fn clone(&self) -> (r: Self)
        ensures
            r@ == self@,
        decreases self,
    {
        match self {
            Expr::Binary(b) => Expr::Binary(
                BinaryExpr {
                    left: Box::new((*b.left).clone()),
                    operator: b.operator.clone(),
                    right: Box::new((*b.right).clone()),
                },
            ),
            Expr::Unary(u) => Expr::Unary(
                UnaryExpr { operator: u.operator.clone(), right: Box::new((*u.right).clone()) },
            ),
            Expr::Grouping(g) => Expr::Grouping(
                GroupingExpr { expression: Box::new((*g.expression).clone()) },
            ),
            Expr::Literal(l) => Expr::Literal(
                LiteralExpr { value: clone_literal_option(&l.value) },
            ),
        }
    }
}

/// The number of nodes of an expression.
pub open spec fn size(e: ExprView) -> nat
    decreases e,
{
    match e {
        ExprView::Binary { left, operator, right } => 1 + size(*left) + size(*right),
        ExprView::Unary { operator, right } => 1 + size(*right),
        ExprView::Grouping { expression } => 1 + size(*expression),
        ExprView::Literal { value } => 1,
    }
}

/// Whether no literal node of an expression holds `ArithmeticError`. Every
/// expression that the parser builds from scanned tokens is such.
pub open spec fn sentinel_free(e: ExprView) -> bool
    decreases e,
{
    match e {
        ExprView::Binary { left, operator, right } => sentinel_free(*left) && sentinel_free(*right),
        ExprView::Unary { operator, right } => sentinel_free(*right),
        ExprView::Grouping { expression } => sentinel_free(*expression),
        ExprView::Literal { value } => value != Some(LiteralView::ArithmeticError),
    }
}

} // verus!
