use vstd::prelude::*;
use vstd::string::StringExecFns;
use crate::expr::{Expr, ExprView, sentinel_free, size};
use crate::token::displays;

verus! {

/// `(name a)`
pub open spec fn wrap_one(name: Seq<char>, a: Seq<char>) -> Seq<char> {
    "("@ + name + " "@ + a + ")"@
}

/// `(name a b)`
pub open spec fn wrap_two(name: Seq<char>, a: Seq<char>, b: Seq<char>) -> Seq<char> {
    "("@ + name + " "@ + a + " "@ + b + ")"@
}

/// Whether `text` can be the rendering of an expression: a binary or unary
/// node as `(operator operand...)` with the operator's lexeme, a group as
/// `(group inner)`, a literal as the display form of its value, or `nil`
/// where it holds none.
pub open spec fn prints<S: Fn(u64) -> String>(show_number: S, e: ExprView, text: Seq<char>) -> bool
    decreases size(e), 0nat,
{
    match e {
        ExprView::Literal { value } => match value {
            Some(v) => displays(show_number, v, text),
            None => text == "nil"@,
        },
        ExprView::Grouping { expression } => prints_one(show_number, "group"@, *expression, text),
        ExprView::Unary { operator, right } => prints_one(
            show_number,
            operator.lexeme,
            *right,
            text,
        ),
        ExprView::Binary { left, operator, right } => prints_two(
            show_number,
            operator.lexeme,
            *left,
            *right,
            text,
        ),
    }
}

/// Whether `text` is `(name t)` for a rendering `t` of `inner`.
pub open spec fn prints_one<S: Fn(u64) -> String>(
    show_number: S,
    name: Seq<char>,
    inner: ExprView,
    text: Seq<char>,
) -> bool
    decreases size(inner), 1nat,
{
    exists|t: Seq<char>| text == #[trigger] wrap_one(name, t) && prints(show_number, inner, t)
}

/// Whether `text` is `(name t u)` for renderings `t` of `a` and `u` of `b`.
pub open spec fn prints_two<S: Fn(u64) -> String>(
    show_number: S,
    name: Seq<char>,
    a: ExprView,
    b: ExprView,
    text: Seq<char>,
) -> bool
    decreases size(a) + size(b), 1nat,
{
    exists|t: Seq<char>, u: Seq<char>|
        text == #[trigger] wrap_two(name, t, u) && prints(show_number, a, t) && prints(
            show_number,
            b,
            u,
        )
}

/// `(name a)`
fn parenthesize_one(name: &str, a: &str) -> (r: String)
    ensures
        r@ == wrap_one(name@, a@),
{
    let mut text = String::from_str("(");
    text.append(name);
    text.append(" ");
    text.append(a);
    text.append(")");
    text
}

/// `(name a b)`
fn parenthesize_two(name: &str, a: &str, b: &str) -> (r: String)
    ensures
        r@ == wrap_two(name@, a@, b@),
{
    let mut text = String::from_str("(");
    text.append(name);
    text.append(" ");
    text.append(a);
    text.append(" ");
    text.append(b);
    text.append(")");
    text
}

/// The rendering of an expression, with numbers as `show_number` gives them.
pub fn render<S: Fn(u64) -> String>(show_number: &S, expr: &Expr) -> (r: String)
    requires
        forall|n: u64| #[trigger] show_number.requires((n,)),
        sentinel_free(expr@),
    ensures
        prints(*show_number, expr@, r@),
    decreases expr,
{
    match expr {
        Expr::Binary(b) => {
            let left = render(show_number, &b.left);
            let right = render(show_number, &b.right);
            let name = b.operator.get_lexeme();
            let text = parenthesize_two(name.as_str(), left.as_str(), right.as_str());
            assert(prints_two(
                *show_number,
                b.operator@.lexeme,
                (*b.left)@,
                (*b.right)@,
                text@,
            ));
            text
        },
        Expr::Unary(u) => {
            let right = render(show_number, &u.right);
            let name = u.operator.get_lexeme();
            let text = parenthesize_one(name.as_str(), right.as_str());
            assert(prints_one(*show_number, u.operator@.lexeme, (*u.right)@, text@));
            text
        },
        Expr::Grouping(g) => {
            let inner = render(show_number, &g.expression);
            let text = parenthesize_one("group", inner.as_str());
            assert(prints_one(*show_number, "group"@, (*g.expression)@, text@));
            text
        },
        Expr::Literal(l) => match &l.value {
            Some(v) => v.to_text(show_number),
            None => String::from_str("nil"),
        },
    }
}

/// Renders expressions as fully parenthesised text. It holds the caller's
/// function `show_number`, which gives the decimal text of a number.
pub struct AstPrinter<S> {
    pub show_number: S,
}

impl<S: Fn(u64) -> String> AstPrinter<S> {
    /// The caller's function can be called on every number.
    pub open spec fn wf(&self) -> bool {
        forall|n: u64| #[trigger] self.show_number.requires((n,))
    }

    pub fn new(show_number: S) -> (r: Self)
        ensures
            r.show_number == show_number,
    {
        AstPrinter { show_number }
    }

    /// The rendering of an expression.
    pub fn print(&self, expr: &Expr) -> (r: String)
        requires
            self.wf(),
            sentinel_free(expr@),
        ensures
            prints(self.show_number, expr@, r@),
    {
        render(&self.show_number, expr)
    }
}

} // verus!
