use vstd::prelude::*;
use vstd::string::StringExecFns;
use crate::error::{LoxError, LoxErrorView, error_at};
use crate::expr::{
    BinaryExpr, Expr, ExprView, GroupingExpr, LiteralExpr, UnaryExpr, sentinel_free, size,
};
use crate::number::{
    Arithmetic, equal, less, less_equal, negated, number_equal, number_less, number_less_equal,
    number_negated, shows,
};
use crate::token::{Literal, LiteralView, TokenType, TokenView, displays, literal_option_view};

verus! {

/// What a binary operator asks for once both operands are known: a value
/// that is already decided, or one call of a function of the caller.
pub enum Step {
    /// The result, which may be `ArithmeticError`.
    Done(Literal),
    /// The rounded operation on two numbers.
    Compute(Arithmetic, u64, u64),
    /// The text of the number, followed by the string.
    NumberThenText(u64, String),
    /// The string, followed by the text of the number.
    TextThenNumber(String, u64),
}

/// The mathematical value of a [`Step`].
pub enum StepView {
    Done(LiteralView),
    Compute(Arithmetic, u64, u64),
    NumberThenText(u64, Seq<char>),
    TextThenNumber(Seq<char>, u64),
}

impl View for Step {
    type V = StepView;

    open spec fn view(&self) -> StepView {
        match self {
            Step::Done(v) => StepView::Done(v@),
            Step::Compute(op, a, b) => StepView::Compute(*op, *a, *b),
            Step::NumberThenText(a, s) => StepView::NumberThenText(*a, s@),
            Step::TextThenNumber(s, b) => StepView::TextThenNumber(s@, *b),
        }
    }
}

/// Whether an operator kind tests for equality. The kind of `=` counts as
/// that of `==`.
pub open spec fn is_equality(op: TokenType) -> bool {
    op == TokenType::EqualEqual || op == TokenType::Equal
}

/// Only nil and `false` are falsy.
pub open spec fn truthy(v: LiteralView) -> bool {
    !(v is Nil || v == LiteralView::Bool(false))
}

/// The value that a literal node holds: nil where it holds none.
pub open spec fn stored_value(value: Option<LiteralView>) -> LiteralView {
    match value {
        Some(v) => v,
        None => LiteralView::Nil,
    }
}

/// Two numbers under an operator.
pub open spec fn number_step(a: u64, op: TokenType, b: u64) -> StepView {
    match op {
        TokenType::Minus => StepView::Compute(Arithmetic::Subtract, a, b),
        TokenType::Slash => StepView::Compute(Arithmetic::Divide, a, b),
        TokenType::Star => StepView::Compute(Arithmetic::Multiply, a, b),
        TokenType::Plus => StepView::Compute(Arithmetic::Add, a, b),
        TokenType::Greater => StepView::Done(LiteralView::Bool(less(b, a))),
        TokenType::GreaterEqual => StepView::Done(LiteralView::Bool(less_equal(b, a))),
        TokenType::Less => StepView::Done(LiteralView::Bool(less(a, b))),
        TokenType::LessEqual => StepView::Done(LiteralView::Bool(less_equal(a, b))),
        TokenType::BangEqual => StepView::Done(LiteralView::Bool(!equal(a, b))),
        TokenType::EqualEqual | TokenType::Equal => StepView::Done(LiteralView::Bool(equal(a, b))),
        _ => StepView::Done(LiteralView::ArithmeticError),
    }
}

/// An equality test whose answer is known: `same` under `==`, its opposite
/// under `!=`. Any other operator is not defined on such operands.
pub open spec fn equality_value(op: TokenType, same: bool) -> LiteralView {
    if is_equality(op) {
        LiteralView::Bool(same)
    } else if op == TokenType::BangEqual {
        LiteralView::Bool(!same)
    } else {
        LiteralView::ArithmeticError
    }
}

/// What a binary operator asks for on two values, by their kinds.
pub open spec fn binary_step(left: LiteralView, op: TokenType, right: LiteralView) -> StepView {
    match (left, right) {
        (LiteralView::Number(a), LiteralView::Number(b)) => number_step(a, op, b),
        (LiteralView::Number(a), LiteralView::String(s)) => if op == TokenType::Plus {
            StepView::NumberThenText(a, s)
        } else {
            StepView::Done(LiteralView::ArithmeticError)
        },
        (LiteralView::String(s), LiteralView::Number(b)) => if op == TokenType::Plus {
            StepView::TextThenNumber(s, b)
        } else {
            StepView::Done(LiteralView::ArithmeticError)
        },
        (LiteralView::String(s), LiteralView::String(t)) => if op == TokenType::Plus {
            StepView::Done(LiteralView::String(s + t))
        } else {
            StepView::Done(equality_value(op, s == t))
        },
        (LiteralView::Bool(p), LiteralView::Bool(q)) => StepView::Done(equality_value(op, p == q)),
        (LiteralView::Nil, LiteralView::Nil) => StepView::Done(equality_value(op, true)),
        (LiteralView::Nil, _) => StepView::Done(equality_value(op, false)),
        (_, LiteralView::Nil) => StepView::Done(equality_value(op, false)),
        _ => StepView::Done(LiteralView::ArithmeticError),
    }
}

/// Whether `r` can be the text of the number `n` with `before` in front of
/// it and `after` behind it.
pub open spec fn joins<S: Fn(u64) -> String>(
    show_number: S,
    before: Seq<char>,
    n: u64,
    after: Seq<char>,
    r: LiteralView,
) -> bool {
    exists|text: Seq<char>| #[trigger]
        shows(show_number, n, text) && r == LiteralView::String(before + text + after)
}

/// Whether `r` can come out of a step, given the caller's two functions.
pub open spec fn step_result<A: Fn(Arithmetic, u64, u64) -> u64, S: Fn(u64) -> String>(
    arithmetic: A,
    show_number: S,
    step: StepView,
    r: LiteralView,
) -> bool {
    match step {
        StepView::Done(v) => r == v,
        StepView::Compute(op, a, b) => r is Number && arithmetic.ensures(
            (op, a, b),
            r->Number_0,
        ),
        StepView::NumberThenText(a, s) => joins(show_number, Seq::empty(), a, s, r),
        StepView::TextThenNumber(s, b) => joins(show_number, s, b, Seq::empty(), r),
    }
}

/// A binary node's result once its operator has produced `v`: the failure
/// at the operator where `v` is `ArithmeticError`, else `v`.
pub open spec fn checked(operator: TokenView, v: LiteralView) -> Result<LiteralView, LoxErrorView> {
    if v is ArithmeticError {
        Err(error_at(operator, "Illegal expression"@))
    } else {
        Ok(v)
    }
}

/// A unary node's result on the value of its operand.
pub open spec fn unary_result(operator: TokenView, v: LiteralView) -> Result<
    LiteralView,
    LoxErrorView,
> {
    match operator.token_type {
        TokenType::Minus => match v {
            LiteralView::Number(n) => Ok(LiteralView::Number(negated(n))),
            _ => Ok(LiteralView::Nil),
        },
        TokenType::Bang => Ok(LiteralView::Bool(!truthy(v))),
        _ => Err(error_at(operator, "Unreachable according to Nystrom"@)),
    }
}

/// Whether evaluating `e` can end in `r`, given the caller's two functions.
///
/// The operands of a binary node are evaluated left before right, and the
/// first failure is the node's result.
pub open spec fn evaluates<A: Fn(Arithmetic, u64, u64) -> u64, S: Fn(u64) -> String>(
    arithmetic: A,
    show_number: S,
    e: ExprView,
    r: Result<LiteralView, LoxErrorView>,
) -> bool
    decreases size(e), 0nat,
{
    match e {
        ExprView::Literal { value } => r == Ok::<LiteralView, LoxErrorView>(stored_value(value)),
        ExprView::Grouping { expression } => evaluates(arithmetic, show_number, *expression, r),
        ExprView::Unary { operator, right } => evaluates_unary(
            arithmetic,
            show_number,
            operator,
            *right,
            r,
        ),
        ExprView::Binary { left, operator, right } => evaluates_binary(
            arithmetic,
            show_number,
            *left,
            operator,
            *right,
            r,
        ),
    }
}

/// Whether a unary node with this operator and operand can end in `r`:
/// the operand ends in some `v`, and `r` is what the operator makes of it.
pub open spec fn evaluates_unary<A: Fn(Arithmetic, u64, u64) -> u64, S: Fn(u64) -> String>(
    arithmetic: A,
    show_number: S,
    operator: TokenView,
    right: ExprView,
    r: Result<LiteralView, LoxErrorView>,
) -> bool
    decreases size(right), 1nat,
{
    exists|v: Result<LiteralView, LoxErrorView>|
        r == #[trigger] after_operand(operator, v) && evaluates(arithmetic, show_number, right, v)
}

/// Whether a binary node with this operator and these operands can end in
/// `r`: the left operand ends in some `v`; where that is a value, the right
/// operand ends in some `w`; where that is a value too, the operator's step
/// on both comes to some `out`; and `r` is what follows from the three.
pub open spec fn evaluates_binary<A: Fn(Arithmetic, u64, u64) -> u64, S: Fn(u64) -> String>(
    arithmetic: A,
    show_number: S,
    left: ExprView,
    operator: TokenView,
    right: ExprView,
    r: Result<LiteralView, LoxErrorView>,
) -> bool
    decreases size(left) + size(right), 1nat,
{
    exists|
        v: Result<LiteralView, LoxErrorView>,
        w: Result<LiteralView, LoxErrorView>,
        out: LiteralView,
    |
        r == #[trigger] after_operands(operator, v, w, out) && evaluates(
            arithmetic,
            show_number,
            left,
            v,
        ) && (v is Ok ==> evaluates(arithmetic, show_number, right, w)) && (v is Ok && w is Ok
            ==> step_result(
            arithmetic,
            show_number,
            binary_step(v->Ok_0, operator.token_type, w->Ok_0),
            out,
        ))
}

/// A unary node's result on what its operand came to.
pub open spec fn after_operand(
    operator: TokenView,
    v: Result<LiteralView, LoxErrorView>,
) -> Result<LiteralView, LoxErrorView> {
    match v {
        Err(e) => Err(e),
        Ok(x) => unary_result(operator, x),
    }
}

/// A binary node's result on what its operands and its operator's step came
/// to: the first failure, else the checked outcome of the step.
pub open spec fn after_operands(
    operator: TokenView,
    v: Result<LiteralView, LoxErrorView>,
    w: Result<LiteralView, LoxErrorView>,
    out: LiteralView,
) -> Result<LiteralView, LoxErrorView> {
    match (v, w) {
        (Err(e), _) => Err(e),
        (Ok(_), Err(e)) => Err(e),
        (Ok(_), Ok(_)) => checked(operator, out),
    }
}

/// Whether `r` is what follows from an evaluation that ended in `v`: the
/// display form of a value, or the failure.
pub open spec fn reports<S: Fn(u64) -> String>(
    show_number: S,
    v: Result<LiteralView, LoxErrorView>,
    r: Result<Seq<char>, LoxErrorView>,
) -> bool {
    match v {
        Ok(x) => r is Ok && displays(show_number, x, r->Ok_0),
        Err(e) => r == Err::<Seq<char>, LoxErrorView>(e),
    }
}

/// Whether interpreting `e` can end in `r`: the display form of a value
/// that `e` evaluates to, or the failure that it evaluates to.
pub open spec fn interprets<A: Fn(Arithmetic, u64, u64) -> u64, S: Fn(u64) -> String>(
    arithmetic: A,
    show_number: S,
    e: ExprView,
    r: Result<Seq<char>, LoxErrorView>,
) -> bool {
    exists|v: Result<LiteralView, LoxErrorView>| #[trigger]
        reports(show_number, v, r) && evaluates(arithmetic, show_number, e, v)
}

/// The view of a text or a failure.
pub open spec fn text_result_view(r: Result<String, LoxError>) -> Result<Seq<char>, LoxErrorView> {
    match r {
        Ok(t) => Ok(t@),
        Err(e) => Err(e@),
    }
}

/// The view of an evaluation's result.
pub open spec fn result_view(r: Result<Literal, LoxError>) -> Result<LiteralView, LoxErrorView> {
    match r {
        Ok(v) => Ok(v@),
        Err(e) => Err(e@),
    }
}

/// What a binary operator asks for on two values.
pub fn plan_binary(left: Literal, op: TokenType, right: Literal) -> (r: Step)
    ensures
        r@ == binary_step(left@, op, right@),
{
    match (left, right) {
        (Literal::Number(a), Literal::Number(b)) => match op {
            TokenType::Minus => Step::Compute(Arithmetic::Subtract, a, b),
            TokenType::Slash => Step::Compute(Arithmetic::Divide, a, b),
            TokenType::Star => Step::Compute(Arithmetic::Multiply, a, b),
            TokenType::Plus => Step::Compute(Arithmetic::Add, a, b),
            TokenType::Greater => Step::Done(Literal::Bool(number_less(b, a))),
            TokenType::GreaterEqual => Step::Done(Literal::Bool(number_less_equal(b, a))),
            TokenType::Less => Step::Done(Literal::Bool(number_less(a, b))),
            TokenType::LessEqual => Step::Done(Literal::Bool(number_less_equal(a, b))),
            TokenType::BangEqual => Step::Done(Literal::Bool(!number_equal(a, b))),
            TokenType::EqualEqual | TokenType::Equal => Step::Done(
                Literal::Bool(number_equal(a, b)),
            ),
            _ => Step::Done(Literal::ArithmeticError),
        },
        (Literal::Number(a), Literal::String(s)) => match op {
            TokenType::Plus => Step::NumberThenText(a, s),
            _ => Step::Done(Literal::ArithmeticError),
        },
        (Literal::String(s), Literal::Number(b)) => match op {
            TokenType::Plus => Step::TextThenNumber(s, b),
            _ => Step::Done(Literal::ArithmeticError),
        },
        (Literal::String(s), Literal::String(t)) => match op {
            TokenType::Plus => Step::Done(Literal::String(s.concat(t.as_str()))),
            _ => Step::Done(decide_equality(op, s == t)),
        },
        (Literal::Bool(p), Literal::Bool(q)) => Step::Done(decide_equality(op, p == q)),
        (Literal::Nil, Literal::Nil) => Step::Done(decide_equality(op, true)),
        (Literal::Nil, _) => Step::Done(decide_equality(op, false)),
        (_, Literal::Nil) => Step::Done(decide_equality(op, false)),
        _ => Step::Done(Literal::ArithmeticError),
    }
}

/// An equality test whose answer is known.
pub fn decide_equality(op: TokenType, same: bool) -> (r: Literal)
    ensures
        r@ == equality_value(op, same),
{
    match op {
        TokenType::EqualEqual | TokenType::Equal => Literal::Bool(same),
        TokenType::BangEqual => Literal::Bool(!same),
        _ => Literal::ArithmeticError,
    }
}

/// A tree-walking evaluator. It holds the caller's two functions on numbers:
/// `arithmetic` computes the four rounded operations on bit patterns, and
/// `show_number` gives the decimal text of a number.
pub struct Interpreter<A, S> {
    pub arithmetic: A,
    pub show_number: S,
}

impl<A: Fn(Arithmetic, u64, u64) -> u64, S: Fn(u64) -> String> Interpreter<A, S> {
    /// Both functions can be called on every argument.
    pub open spec fn wf(&self) -> bool {
        &&& forall|op: Arithmetic, a: u64, b: u64| #[trigger] self.arithmetic.requires((op, a, b))
        &&& forall|n: u64| #[trigger] self.show_number.requires((n,))
    }

    pub fn new(arithmetic: A, show_number: S) -> (r: Self)
        ensures
            r.arithmetic == arithmetic,
            r.show_number == show_number,
    {
        Interpreter { arithmetic, show_number }
    }

    /// Carries out a step: the one place where the caller's functions run.
    pub fn perform(&self, step: Step) -> (r: Literal)
        requires
            self.wf(),
        ensures
            step_result(self.arithmetic, self.show_number, step@, r@),
    {
        match step {
            Step::Done(v) => v,
            Step::Compute(op, a, b) => {
                let bits: u64 = (self.arithmetic)(op, a, b);
                Literal::Number(bits)
            },
            Step::NumberThenText(a, s) => {
                let t = (self.show_number)(a);
                let ghost text = t@;
                assert(shows(self.show_number, a, text));
                let joined = t.concat(s.as_str());
                assert(joined@ =~= Seq::<char>::empty() + text + s@);
                Literal::String(joined)
            },
            Step::TextThenNumber(s, b) => {
                let t = (self.show_number)(b);
                let ghost text = t@;
                assert(shows(self.show_number, b, text));
                let joined = s.concat(t.as_str());
                assert(joined@ =~= s@ + text + Seq::<char>::empty());
                Literal::String(joined)
            },
        }
    }

    pub fn visit_binary_expr(&self, expr: &BinaryExpr) -> (r: Result<Literal, LoxError>)
        requires
            self.wf(),
        ensures
            evaluates_binary(
                self.arithmetic,
                self.show_number,
                expr.left@,
                expr.operator@,
                expr.right@,
                result_view(r),
            ),
        decreases expr, 0nat,
    {
        let left_result = self.evaluate(&expr.left);
        let ghost v = result_view(left_result);
        let left = match left_result {
            Ok(v) => v,
            Err(e) => {
                assert(result_view(Err(e)) == after_operands(
                    expr.operator@,
                    v,
                    v,
                    LiteralView::Nil,
                ));
                return Err(e);
            },
        };
        let right_result = self.evaluate(&expr.right);
        let ghost w = result_view(right_result);
        let right = match right_result {
            Ok(v) => v,
            Err(e) => {
                assert(result_view(Err(e)) == after_operands(
                    expr.operator@,
                    v,
                    w,
                    LiteralView::Nil,
                ));
                return Err(e);
            },
        };
        let op = expr.operator.get_token_type();
        let result = self.perform(plan_binary(left, op, right));
        let ghost out = result@;
        let checked_result = match result {
            Literal::ArithmeticError => Err(
                LoxError::new_with_token(
                    expr.operator.clone(),
                    String::from_str("Illegal expression"),
                ),
            ),
            _ => Ok(result),
        };
        assert(result_view(checked_result) == after_operands(expr.operator@, v, w, out));
        checked_result
    }

    pub fn visit_grouping_expr(&self, expr: &GroupingExpr) -> (r: Result<Literal, LoxError>)
        requires
            self.wf(),
        ensures
            evaluates(self.arithmetic, self.show_number, expr@, result_view(r)),
        decreases expr, 0nat,
    {
        self.evaluate(&expr.expression)
    }

    pub fn visit_literal_expr(&self, expr: &LiteralExpr) -> (r: Result<Literal, LoxError>)
        ensures
            result_view(r) == Ok::<LiteralView, LoxErrorView>(
                stored_value(literal_option_view(expr.value)),
            ),
    {
        match &expr.value {
            Some(v) => Ok(v.clone()),
            None => Ok(Literal::Nil),
        }
    }

    pub fn visit_unary_expr(&self, expr: &UnaryExpr) -> (r: Result<Literal, LoxError>)
        requires
            self.wf(),
        ensures
            evaluates_unary(
                self.arithmetic,
                self.show_number,
                expr.operator@,
                expr.right@,
                result_view(r),
            ),
        decreases expr, 0nat,
    {
        let right_result = self.evaluate(&expr.right);
        let ghost v = result_view(right_result);
        let right = match right_result {
            Ok(v) => v,
            Err(e) => {
                assert(result_view(Err(e)) == after_operand(expr.operator@, v));
                return Err(e);
            },
        };
        let result = match expr.operator.get_token_type() {
            TokenType::Minus => match right {
                Literal::Number(n) => Ok(Literal::Number(number_negated(n))),
                _ => Ok(Literal::Nil),
            },
            TokenType::Bang => Ok(Literal::Bool(!self.is_truthy(&right))),
            _ => Err(
                LoxError::new_with_token(
                    expr.operator.clone(),
                    String::from_str("Unreachable according to Nystrom"),
                ),
            ),
        };
        assert(result_view(result) == after_operand(expr.operator@, v));
        result
    }

    /// The value of an expression, or the first failure met on the way.
    pub fn evaluate(&self, expr: &Expr) -> (r: Result<Literal, LoxError>)
        requires
            self.wf(),
        ensures
            evaluates(self.arithmetic, self.show_number, expr@, result_view(r)),
        decreases expr, 1nat,
    {
        match expr {
            Expr::Binary(b) => self.visit_binary_expr(b),
            Expr::Unary(u) => self.visit_unary_expr(u),
            Expr::Grouping(g) => self.visit_grouping_expr(g),
            Expr::Literal(l) => self.visit_literal_expr(l),
        }
    }

    /// Evaluates an expression and gives the display form of its value.
    pub fn interpret(&self, expr: &Expr) -> (r: Result<String, LoxError>)
        requires
            self.wf(),
            sentinel_free(expr@),
        ensures
            interprets(self.arithmetic, self.show_number, expr@, text_result_view(r)),
    {
        let result = self.evaluate(expr);
        let ghost v = result_view(result);
        let r = match result {
            Ok(value) => {
                proof {
                    lemma_no_sentinel(self.arithmetic, self.show_number, expr@, value@);
                }
                Ok(value.to_text(&self.show_number))
            },
            Err(e) => Err(e),
        };
        assert(reports(self.show_number, v, text_result_view(r)));
        r
    }

    pub fn is_truthy(&self, literal: &Literal) -> (r: bool)
        ensures
            r == truthy(literal@),
    {
        match literal {
            Literal::Nil => false,
            Literal::Bool(b) => *b,
            _ => true,
        }
    }
}

/// `ArithmeticError` never comes out as a value: an expression that holds
/// none does not evaluate to it.
pub proof fn lemma_no_sentinel<A: Fn(Arithmetic, u64, u64) -> u64, S: Fn(u64) -> String>(
    arithmetic: A,
    show_number: S,
    e: ExprView,
    v: LiteralView,
)
    requires
        sentinel_free(e),
        evaluates(arithmetic, show_number, e, Ok(v)),
    ensures
        !(v is ArithmeticError),
    decreases e,
{
    match e {
        ExprView::Grouping { expression } => {
            lemma_no_sentinel(arithmetic, show_number, *expression, v);
        },
        ExprView::Unary { operator, right } => {
            assert(evaluates_unary(arithmetic, show_number, operator, *right, Ok(v)));
        },
        ExprView::Binary { left, operator, right } => {
            assert(evaluates_binary(arithmetic, show_number, *left, operator, *right, Ok(v)));
        },
        ExprView::Literal { value } => {},
    }
}

} // verus!
