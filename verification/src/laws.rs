use vstd::prelude::*;
use crate::ast_printer::prints;
use crate::derivation::is_literal_kind;
use crate::error::{LoxErrorView, error_at};
use crate::expr::ExprView;
use crate::grammar::{
    LEVELS, binary, expect_expression, expect_right_paren, grouping, kind_at, literal,
    parse_expression, parse_level, parse_primary, parse_rest, parse_unary, prefix_operator,
    token_at, unary,
};
use crate::interpreter::{
    StepView, after_operand, after_operands, binary_step, checked, evaluates, evaluates_binary,
    evaluates_unary, joins, step_result, unary_result,
};
use crate::lexis::{
    Run, end_token, is_digit, lemma_run_end, lex, lex_string, line_feeds, number_end, run_end,
    scan, scan_from,
};
use crate::number::{Arithmetic, lemma_negated_twice, negated, shows};
use crate::scanner::{reads, tokens_match};
use crate::token::{LiteralView, TokenType, TokenView};

verus! {

/// A literal node evaluates to the value it holds, and to nothing else.
pub proof fn law_literal_evaluates_to_itself<
    A: Fn(Arithmetic, u64, u64) -> u64,
    S: Fn(u64) -> String,
>(arithmetic: A, show_number: S, v: LiteralView, r: Result<LiteralView, LoxErrorView>)
    ensures
        evaluates(arithmetic, show_number, literal(v), r) <==> r == Ok::<
            LiteralView,
            LoxErrorView,
        >(v),
{
}

/// A group evaluates to whatever the expression inside it evaluates to.
pub proof fn law_grouping_is_transparent<
    A: Fn(Arithmetic, u64, u64) -> u64,
    S: Fn(u64) -> String,
>(arithmetic: A, show_number: S, e: ExprView, r: Result<LiteralView, LoxErrorView>)
    ensures
        evaluates(arithmetic, show_number, grouping(e), r) <==> evaluates(
            arithmetic,
            show_number,
            e,
            r,
        ),
{
}

/// A prefix operator on a literal evaluates to what the operator makes of
/// the literal's value, and to nothing else.
pub proof fn law_unary_on_literal<A: Fn(Arithmetic, u64, u64) -> u64, S: Fn(u64) -> String>(
    arithmetic: A,
    show_number: S,
    operator: TokenView,
    v: LiteralView,
    r: Result<LiteralView, LoxErrorView>,
)
    ensures
        evaluates(arithmetic, show_number, unary(operator, literal(v)), r) <==> r == unary_result(
            operator,
            v,
        ),
{
    let inner = literal(v);
    let ok = Ok::<LiteralView, LoxErrorView>(v);
    assert(evaluates(arithmetic, show_number, unary(operator, inner), r) == evaluates_unary(
        arithmetic,
        show_number,
        operator,
        inner,
        r,
    ));
    if r == unary_result(operator, v) {
        assert(r == after_operand(operator, ok));
        assert(evaluates(arithmetic, show_number, inner, ok));
    }
}

/// A prefix operator on an operand that evaluates to `v` alone evaluates to
/// what the operator makes of `v`, and to nothing else.
pub proof fn law_unary_on_determined<A: Fn(Arithmetic, u64, u64) -> u64, S: Fn(u64) -> String>(
    arithmetic: A,
    show_number: S,
    operator: TokenView,
    e: ExprView,
    v: Result<LiteralView, LoxErrorView>,
    r: Result<LiteralView, LoxErrorView>,
)
    requires
        forall|w: Result<LiteralView, LoxErrorView>| #[trigger]
            evaluates(arithmetic, show_number, e, w) <==> w == v,
    ensures
        evaluates(arithmetic, show_number, unary(operator, e), r) <==> r == after_operand(
            operator,
            v,
        ),
{
    assert(evaluates(arithmetic, show_number, unary(operator, e), r) == evaluates_unary(
        arithmetic,
        show_number,
        operator,
        e,
        r,
    ));
    if evaluates_unary(arithmetic, show_number, operator, e, r) {
        let w = choose|w: Result<LiteralView, LoxErrorView>|
            r == #[trigger] after_operand(operator, w) && evaluates(
                arithmetic,
                show_number,
                e,
                w,
            );
        assert(evaluates(arithmetic, show_number, e, w));
    }
    if r == after_operand(operator, v) {
        assert(evaluates(arithmetic, show_number, e, v));
    }
}

/// `-` twice gives a number back: `-(-n)`, with or without the brackets,
/// evaluates to `n`, bit for bit, and to nothing else.
pub proof fn law_double_negation<A: Fn(Arithmetic, u64, u64) -> u64, S: Fn(u64) -> String>(
    arithmetic: A,
    show_number: S,
    outer: TokenView,
    inner: TokenView,
    n: u64,
    r: Result<LiteralView, LoxErrorView>,
)
    requires
        outer.token_type == TokenType::Minus,
        inner.token_type == TokenType::Minus,
    ensures
        evaluates(
            arithmetic,
            show_number,
            unary(outer, grouping(unary(inner, grouping(literal(LiteralView::Number(n)))))),
            r,
        ) <==> r == Ok::<LiteralView, LoxErrorView>(LiteralView::Number(n)),
        evaluates(
            arithmetic,
            show_number,
            unary(outer, unary(inner, literal(LiteralView::Number(n)))),
            r,
        ) <==> r == Ok::<LiteralView, LoxErrorView>(LiteralView::Number(n)),
{
    lemma_negated_twice(n);
    let number = literal(LiteralView::Number(n));
    let same = Ok::<LiteralView, LoxErrorView>(LiteralView::Number(n));
    let once = Ok::<LiteralView, LoxErrorView>(LiteralView::Number(negated(n)));
    let plain = unary(inner, number);
    let grouped = grouping(unary(inner, grouping(number)));
    assert forall|w: Result<LiteralView, LoxErrorView>| #[trigger]
        evaluates(arithmetic, show_number, plain, w) <==> w == once by {
        law_unary_on_literal(arithmetic, show_number, inner, LiteralView::Number(n), w);
    }
    assert forall|w: Result<LiteralView, LoxErrorView>| #[trigger]
        evaluates(arithmetic, show_number, grouping(number), w) <==> w == same by {
        law_grouping_is_transparent(arithmetic, show_number, number, w);
        law_literal_evaluates_to_itself(arithmetic, show_number, LiteralView::Number(n), w);
    }
    assert forall|w: Result<LiteralView, LoxErrorView>| #[trigger]
        evaluates(arithmetic, show_number, grouped, w) <==> w == once by {
        law_grouping_is_transparent(arithmetic, show_number, unary(inner, grouping(number)), w);
        law_unary_on_determined(arithmetic, show_number, inner, grouping(number), same, w);
    }
    law_unary_on_determined(arithmetic, show_number, outer, plain, once, r);
    law_unary_on_determined(arithmetic, show_number, outer, grouped, once, r);
}

/// `!` gives the opposite of truthiness: `!v` is `true` exactly where `v`
/// is nil or `false`, and `false` for every other value, `0` and the empty
/// string among them.
pub proof fn law_not_is_falsiness<A: Fn(Arithmetic, u64, u64) -> u64, S: Fn(u64) -> String>(
    arithmetic: A,
    show_number: S,
    operator: TokenView,
    v: LiteralView,
    r: Result<LiteralView, LoxErrorView>,
)
    requires
        operator.token_type == TokenType::Bang,
    ensures
        evaluates(arithmetic, show_number, unary(operator, literal(v)), r) <==> r == Ok::<
            LiteralView,
            LoxErrorView,
        >(LiteralView::Bool(v is Nil || v == LiteralView::Bool(false))),
{
    law_unary_on_literal(arithmetic, show_number, operator, v, r);
}

/// A binary operator on two literals whose result needs none of the caller's
/// functions evaluates to that result, checked, and to nothing else.
pub proof fn law_binary_decided<A: Fn(Arithmetic, u64, u64) -> u64, S: Fn(u64) -> String>(
    arithmetic: A,
    show_number: S,
    x: LiteralView,
    operator: TokenView,
    y: LiteralView,
    r: Result<LiteralView, LoxErrorView>,
)
    requires
        binary_step(x, operator.token_type, y) is Done,
    ensures
        evaluates(arithmetic, show_number, binary(literal(x), operator, literal(y)), r) <==> r
            == checked(operator, binary_step(x, operator.token_type, y)->Done_0),
{
    let left = literal(x);
    let right = literal(y);
    let out = binary_step(x, operator.token_type, y)->Done_0;
    let v = Ok::<LiteralView, LoxErrorView>(x);
    let w = Ok::<LiteralView, LoxErrorView>(y);
    assert(evaluates(arithmetic, show_number, binary(left, operator, right), r)
        == evaluates_binary(arithmetic, show_number, left, operator, right, r));
    if r == checked(operator, out) {
        assert(r == after_operands(operator, v, w, out));
        assert(evaluates(arithmetic, show_number, left, v));
        assert(evaluates(arithmetic, show_number, right, w));
        assert(step_result(
            arithmetic,
            show_number,
            binary_step(x, operator.token_type, y),
            out,
        ));
    }
}

/// `==` on two strings compares them by value.
pub proof fn law_string_equality<A: Fn(Arithmetic, u64, u64) -> u64, S: Fn(u64) -> String>(
    arithmetic: A,
    show_number: S,
    s: Seq<char>,
    operator: TokenView,
    t: Seq<char>,
    r: Result<LiteralView, LoxErrorView>,
)
    requires
        operator.token_type == TokenType::EqualEqual,
    ensures
        evaluates(
            arithmetic,
            show_number,
            binary(literal(LiteralView::String(s)), operator, literal(LiteralView::String(t))),
            r,
        ) <==> r == Ok::<LiteralView, LoxErrorView>(LiteralView::Bool(s == t)),
{
    law_binary_decided(
        arithmetic,
        show_number,
        LiteralView::String(s),
        operator,
        LiteralView::String(t),
        r,
    );
}

/// No operator is defined on a boolean and a number: whatever the operator,
/// the evaluation fails at the operator's token with `Illegal expression`.
pub proof fn law_boolean_with_number_is_illegal<
    A: Fn(Arithmetic, u64, u64) -> u64,
    S: Fn(u64) -> String,
>(
    arithmetic: A,
    show_number: S,
    b: bool,
    operator: TokenView,
    n: u64,
    r: Result<LiteralView, LoxErrorView>,
)
    ensures
        evaluates(
            arithmetic,
            show_number,
            binary(literal(LiteralView::Bool(b)), operator, literal(LiteralView::Number(n))),
            r,
        ) <==> r == Err::<LiteralView, LoxErrorView>(error_at(operator, "Illegal expression"@)),
{
    law_binary_decided(
        arithmetic,
        show_number,
        LiteralView::Bool(b),
        operator,
        LiteralView::Number(n),
        r,
    );
}

/// Arithmetic on two numbers evaluates to a number that the caller's
/// function gives for the operation, and to nothing else.
pub proof fn law_number_arithmetic<A: Fn(Arithmetic, u64, u64) -> u64, S: Fn(u64) -> String>(
    arithmetic: A,
    show_number: S,
    a: u64,
    operator: TokenView,
    b: u64,
    op: Arithmetic,
    r: Result<LiteralView, LoxErrorView>,
)
    requires
        binary_step(LiteralView::Number(a), operator.token_type, LiteralView::Number(b))
            == StepView::Compute(op, a, b),
    ensures
        evaluates(
            arithmetic,
            show_number,
            binary(literal(LiteralView::Number(a)), operator, literal(LiteralView::Number(b))),
            r,
        ) <==> (r is Ok && r->Ok_0 is Number && arithmetic.ensures((op, a, b), r->Ok_0->Number_0)),
{
    let x = LiteralView::Number(a);
    let y = LiteralView::Number(b);
    let left = literal(x);
    let right = literal(y);
    let v = Ok::<LiteralView, LoxErrorView>(x);
    let w = Ok::<LiteralView, LoxErrorView>(y);
    assert(evaluates(arithmetic, show_number, binary(left, operator, right), r)
        == evaluates_binary(arithmetic, show_number, left, operator, right, r));
    if r is Ok && r->Ok_0 is Number && arithmetic.ensures((op, a, b), r->Ok_0->Number_0) {
        let out = r->Ok_0;
        assert(r == after_operands(operator, v, w, out));
        assert(evaluates(arithmetic, show_number, left, v));
        assert(evaluates(arithmetic, show_number, right, w));
    }
}

/// Whether the caller's functions give one result for one argument: the
/// same number for the same operation on the same numbers, and the same text
/// for the same number.
pub open spec fn single_valued<A: Fn(Arithmetic, u64, u64) -> u64, S: Fn(u64) -> String>(
    arithmetic: A,
    show_number: S,
) -> bool {
    &&& forall|op: Arithmetic, a: u64, b: u64, r1: u64, r2: u64|
        #[trigger] arithmetic.ensures((op, a, b), r1) && #[trigger] arithmetic.ensures(
            (op, a, b),
            r2,
        ) ==> r1 == r2
    &&& forall|n: u64, t1: String, t2: String|
        #[trigger] show_number.ensures((n,), t1) && #[trigger] show_number.ensures((n,), t2)
            ==> t1@ == t2@
}

/// Evaluation adds nothing of its own to what the caller's functions leave
/// open: where they give one result for one argument, an expression
/// evaluates to one result.
pub proof fn law_evaluation_is_single_valued<
    A: Fn(Arithmetic, u64, u64) -> u64,
    S: Fn(u64) -> String,
>(
    arithmetic: A,
    show_number: S,
    e: ExprView,
    r1: Result<LiteralView, LoxErrorView>,
    r2: Result<LiteralView, LoxErrorView>,
)
    requires
        single_valued(arithmetic, show_number),
        evaluates(arithmetic, show_number, e, r1),
        evaluates(arithmetic, show_number, e, r2),
    ensures
        r1 == r2,
    decreases e,
{
    match e {
        ExprView::Literal { value } => {},
        ExprView::Grouping { expression } => {
            law_evaluation_is_single_valued(arithmetic, show_number, *expression, r1, r2);
        },
        ExprView::Unary { operator, right } => {
            assert(evaluates_unary(arithmetic, show_number, operator, *right, r1));
            assert(evaluates_unary(arithmetic, show_number, operator, *right, r2));
            let v1 = choose|v: Result<LiteralView, LoxErrorView>|
                r1 == #[trigger] after_operand(operator, v) && evaluates(
                    arithmetic,
                    show_number,
                    *right,
                    v,
                );
            let v2 = choose|v: Result<LiteralView, LoxErrorView>|
                r2 == #[trigger] after_operand(operator, v) && evaluates(
                    arithmetic,
                    show_number,
                    *right,
                    v,
                );
            law_evaluation_is_single_valued(arithmetic, show_number, *right, v1, v2);
        },
        ExprView::Binary { left, operator, right } => {
            assert(evaluates_binary(arithmetic, show_number, *left, operator, *right, r1));
            assert(evaluates_binary(arithmetic, show_number, *left, operator, *right, r2));
            let (v1, w1, out1) = choose|
                v: Result<LiteralView, LoxErrorView>,
                w: Result<LiteralView, LoxErrorView>,
                out: LiteralView,
            |
                r1 == #[trigger] after_operands(operator, v, w, out) && evaluates(
                    arithmetic,
                    show_number,
                    *left,
                    v,
                ) && (v is Ok ==> evaluates(arithmetic, show_number, *right, w)) && (v is Ok
                    && w is Ok ==> step_result(
                    arithmetic,
                    show_number,
                    binary_step(v->Ok_0, operator.token_type, w->Ok_0),
                    out,
                ));
            let (v2, w2, out2) = choose|
                v: Result<LiteralView, LoxErrorView>,
                w: Result<LiteralView, LoxErrorView>,
                out: LiteralView,
            |
                r2 == #[trigger] after_operands(operator, v, w, out) && evaluates(
                    arithmetic,
                    show_number,
                    *left,
                    v,
                ) && (v is Ok ==> evaluates(arithmetic, show_number, *right, w)) && (v is Ok
                    && w is Ok ==> step_result(
                    arithmetic,
                    show_number,
                    binary_step(v->Ok_0, operator.token_type, w->Ok_0),
                    out,
                ));
            law_evaluation_is_single_valued(arithmetic, show_number, *left, v1, v2);
            if v1 is Ok {
                law_evaluation_is_single_valued(arithmetic, show_number, *right, w1, w2);
                if w1 is Ok {
                    lemma_step_is_single_valued(
                        arithmetic,
                        show_number,
                        binary_step(v1->Ok_0, operator.token_type, w1->Ok_0),
                        out1,
                        out2,
                    );
                }
            }
        },
    }
}

/// Where the caller's functions give one result for one argument, a step
/// comes to one value.
pub proof fn lemma_step_is_single_valued<
    A: Fn(Arithmetic, u64, u64) -> u64,
    S: Fn(u64) -> String,
>(arithmetic: A, show_number: S, step: StepView, out1: LiteralView, out2: LiteralView)
    requires
        single_valued(arithmetic, show_number),
        step_result(arithmetic, show_number, step, out1),
        step_result(arithmetic, show_number, step, out2),
    ensures
        out1 == out2,
{
    match step {
        StepView::Done(v) => {},
        StepView::Compute(op, a, b) => {},
        StepView::NumberThenText(a, s) => {
            lemma_join_is_single_valued(show_number, Seq::empty(), a, s, out1, out2);
        },
        StepView::TextThenNumber(s, b) => {
            lemma_join_is_single_valued(show_number, s, b, Seq::empty(), out1, out2);
        },
    }
}

/// Where the caller's function gives one text for one number, a number
/// joined to strings comes to one value.
pub proof fn lemma_join_is_single_valued<S: Fn(u64) -> String>(
    show_number: S,
    before: Seq<char>,
    n: u64,
    after: Seq<char>,
    out1: LiteralView,
    out2: LiteralView,
)
    requires
        forall|n: u64, t1: String, t2: String|
            #[trigger] show_number.ensures((n,), t1) && #[trigger] show_number.ensures((n,), t2)
                ==> t1@ == t2@,
        joins(show_number, before, n, after, out1),
        joins(show_number, before, n, after, out2),
    ensures
        out1 == out2,
{
    let text1 = choose|text: Seq<char>| #[trigger]
        shows(show_number, n, text) && out1 == LiteralView::String(before + text + after);
    let text2 = choose|text: Seq<char>| #[trigger]
        shows(show_number, n, text) && out2 == LiteralView::String(before + text + after);
    let t1 = choose|t: String| #[trigger] show_number.ensures((n,), t) && t@ == text1;
    let t2 = choose|t: String| #[trigger] show_number.ensures((n,), t) && t@ == text2;
    assert(t1@ == t2@);
}

/// `+` on a number and a string, in either order, evaluates to the text of
/// the number as the caller's function shows it, joined to the string, and
/// to nothing else.
pub proof fn law_concatenation<A: Fn(Arithmetic, u64, u64) -> u64, S: Fn(u64) -> String>(
    arithmetic: A,
    show_number: S,
    n: u64,
    operator: TokenView,
    s: Seq<char>,
    r: Result<LiteralView, LoxErrorView>,
)
    requires
        operator.token_type == TokenType::Plus,
    ensures
        evaluates(
            arithmetic,
            show_number,
            binary(literal(LiteralView::Number(n)), operator, literal(LiteralView::String(s))),
            r,
        ) <==> (r is Ok && joins(show_number, Seq::empty(), n, s, r->Ok_0)),
        evaluates(
            arithmetic,
            show_number,
            binary(literal(LiteralView::String(s)), operator, literal(LiteralView::Number(n))),
            r,
        ) <==> (r is Ok && joins(show_number, s, n, Seq::empty(), r->Ok_0)),
{
    let number = LiteralView::Number(n);
    let text = LiteralView::String(s);
    let v = Ok::<LiteralView, LoxErrorView>(number);
    let w = Ok::<LiteralView, LoxErrorView>(text);
    assert(evaluates(arithmetic, show_number, binary(literal(number), operator, literal(text)), r)
        == evaluates_binary(
        arithmetic,
        show_number,
        literal(number),
        operator,
        literal(text),
        r,
    ));
    assert(evaluates(arithmetic, show_number, binary(literal(text), operator, literal(number)), r)
        == evaluates_binary(
        arithmetic,
        show_number,
        literal(text),
        operator,
        literal(number),
        r,
    ));
    if r is Ok && joins(show_number, Seq::empty(), n, s, r->Ok_0) {
        assert(r == after_operands(operator, v, w, r->Ok_0));
        assert(evaluates(arithmetic, show_number, literal(number), v));
        assert(evaluates(arithmetic, show_number, literal(text), w));
    }
    if r is Ok && joins(show_number, s, n, Seq::empty(), r->Ok_0) {
        assert(r == after_operands(operator, w, v, r->Ok_0));
        assert(evaluates(arithmetic, show_number, literal(number), v));
        assert(evaluates(arithmetic, show_number, literal(text), w));
    }
}

/// Where the first token of an expression is no prefix operator and
/// `primary` fails on it, the expression fails in the same way.
pub proof fn lemma_first_operand_fails(tokens: Seq<TokenView>, pos: int, level: int)
    requires
        !prefix_operator(kind_at(tokens, pos)),
        parse_primary(tokens, pos) is Err,
        0 <= level <= LEVELS,
    ensures
        parse_level(tokens, pos, level) == parse_primary(tokens, pos),
    decreases LEVELS - level,
{
    if level < LEVELS {
        lemma_first_operand_fails(tokens, pos, level + 1);
    } else {
        assert(parse_unary(tokens, pos) == parse_primary(tokens, pos));
    }
}

/// A group that is not closed is an error, at the token that stands where
/// the `)` should.
pub proof fn law_unclosed_group(tokens: Seq<TokenView>, pos: int)
    requires
        kind_at(tokens, pos) == TokenType::LeftParen,
        parse_expression(tokens, pos + 1) is Ok,
        kind_at(tokens, parse_expression(tokens, pos + 1)->Ok_0.1) != TokenType::RightParen,
    ensures
        parse_expression(tokens, pos) == Err::<(ExprView, int), LoxErrorView>(
            expect_right_paren(token_at(tokens, parse_expression(tokens, pos + 1)->Ok_0.1)),
        ),
{
    lemma_first_operand_fails(tokens, pos, 0);
}

/// A token that begins no expression is an error at that token.
pub proof fn law_no_expression(tokens: Seq<TokenView>, pos: int)
    requires
        !prefix_operator(kind_at(tokens, pos)),
        !is_literal_kind(kind_at(tokens, pos)),
        kind_at(tokens, pos) != TokenType::LeftParen,
    ensures
        parse_expression(tokens, pos) == Err::<(ExprView, int), LoxErrorView>(
            expect_expression(token_at(tokens, pos)),
        ),
{
    lemma_first_operand_fails(tokens, pos, 0);
}

/// A string that is opened and never closed: the scan reports one error,
/// on the last line that the text reaches, and gives no token but the end of
/// input.
pub proof fn law_unterminated_string(s: Seq<char>)
    requires
        s.len() > 0,
        s[0] == '"',
        forall|i: int| 1 <= i < s.len() ==> s[i] != '"',
    ensures
        scan(s).errors == seq![1 + line_feeds(s, 1, s.len() as int)],
        scan(s).tokens == seq![end_token(1 + line_feeds(s, 1, s.len() as int))],
{
    lemma_run_end(s, 1, Run::Text);
    let last_line = 1 + line_feeds(s, 1, s.len() as int);
    let x = lex(s, 0, 1);
    assert(x == lex_string(s, 0, 1));
    assert(x.next == s.len());
    let rest = scan_from(s, x.next, x.line);
    assert(rest.tokens == seq![end_token(last_line)]);
    assert(scan(s).tokens =~= seq![end_token(last_line)]);
    assert(scan(s).errors =~= seq![last_line]);
}

/// Where one token that is no prefix operator is a whole `primary` and the
/// end of input follows it, it is the whole expression.
pub proof fn lemma_single_primary(tokens: Seq<TokenView>, level: int)
    requires
        tokens.len() >= 2,
        kind_at(tokens, 1) == TokenType::Eof,
        !prefix_operator(kind_at(tokens, 0)),
        parse_primary(tokens, 0) is Ok,
        parse_primary(tokens, 0)->Ok_0.1 == 1,
        0 <= level <= LEVELS,
    ensures
        parse_level(tokens, 0, level) == parse_primary(tokens, 0),
    decreases LEVELS - level,
{
    if level < LEVELS {
        lemma_single_primary(tokens, level + 1);
        let e = parse_primary(tokens, 0)->Ok_0.0;
        assert(parse_rest(tokens, 1, level, e) == Ok::<(ExprView, int), LoxErrorView>((e, 1)));
    } else {
        assert(parse_unary(tokens, 0) == parse_primary(tokens, 0));
    }
}

/// Printing and reading again gives the same expression, for the literals
/// `nil`, `true` and `false`: the tokens of the printed text parse to the
/// literal that was printed.
pub proof fn law_round_trip_word<P: Fn(String) -> u64, S: Fn(u64) -> String>(
    parse_number: P,
    show_number: S,
    v: LiteralView,
    text: Seq<char>,
    tokens: Seq<TokenView>,
)
    requires
        v is Nil || v is Bool,
        prints(show_number, literal(v), text),
        tokens_match(parse_number, tokens, scan(text).tokens),
    ensures
        parse_expression(tokens, 0) == Ok::<(ExprView, int), LoxErrorView>((literal(v), 1)),
{
    reveal_strlit("nil");
    reveal_strlit("true");
    reveal_strlit("false");
    reveal_strlit("and");
    reveal_strlit("class");
    reveal_strlit("else");
    reveal_strlit("for");
    reveal_strlit("fun");
    reveal_strlit("if");
    reveal_strlit("or");
    reveal_strlit("print");
    reveal_strlit("return");
    reveal_strlit("super");
    reveal_strlit("this");
    reveal_strlit("var");
    reveal_strlit("while");
    reveal_with_fuel(run_end, 6);
    let n = text.len() as int;
    assert(run_end(text, 1, Run::Name) == n);
    assert(text.subrange(0, n) =~= text);
    let x = lex(text, 0, 1);
    assert(x.next == n);
    let rest = scan_from(text, x.next, x.line);
    assert(rest.tokens == seq![end_token(1)]);
    let shapes = scan(text).tokens;
    assert(shapes =~= seq![x.token->Some_0, end_token(1)]);
    assert(tokens[0].token_type == shapes[0].token_type);
    assert(tokens[1].token_type == shapes[1].token_type);
    lemma_single_primary(tokens, 0);
}

/// Whether a text is a number and nothing else: digits, with or without a
/// `.` and more digits behind them.
pub open spec fn plain_decimal(text: Seq<char>) -> bool {
    text.len() > 0 && is_digit(text[0]) && number_end(text, 0) == text.len()
}

/// Printing and reading again gives the same expression, for a number
/// literal whose text is a number and nothing else, where the caller's
/// reading function reads nothing but the number from the text that its
/// showing function gave: the tokens of the printed text parse to the
/// literal that was printed.
pub proof fn law_round_trip_number<P: Fn(String) -> u64, S: Fn(u64) -> String>(
    parse_number: P,
    show_number: S,
    n: u64,
    text: Seq<char>,
    tokens: Seq<TokenView>,
)
    requires
        prints(show_number, literal(LiteralView::Number(n)), text),
        plain_decimal(text),
        forall|bits: u64| #[trigger] reads(parse_number, text, bits) ==> bits == n,
        tokens_match(parse_number, tokens, scan(text).tokens),
    ensures
        parse_expression(tokens, 0) == Ok::<(ExprView, int), LoxErrorView>(
            (literal(LiteralView::Number(n)), 1),
        ),
{
    let len = text.len() as int;
    assert(text.subrange(0, len) =~= text);
    let x = lex(text, 0, 1);
    assert(x.next == len);
    let rest = scan_from(text, x.next, x.line);
    assert(rest.tokens == seq![end_token(1)]);
    let shapes = scan(text).tokens;
    assert(shapes =~= seq![x.token->Some_0, end_token(1)]);
    assert(tokens[0].token_type == shapes[0].token_type);
    assert(tokens[1].token_type == shapes[1].token_type);
    assert(reads(parse_number, text, tokens[0].literal->Some_0->Number_0));
    lemma_single_primary(tokens, 0);
}

} // verus!
