use vstd::prelude::*;
use crate::error::{LoxErrorView, error_at};
use crate::expr::{ExprView, sentinel_free};
use crate::token::{LiteralView, TokenType, TokenView};

verus! {

/// The outcome of parsing from some position: the expression and the
/// position behind its last token, or the error.
pub type Parsed = Result<(ExprView, int), LoxErrorView>;

/// The number of levels of binary operators.
pub const LEVELS: u8 = 4;

/// Whether a kind is a binary operator of a level. The levels, from the one
/// that binds least: 0 equality, 1 comparison, 2 term, 3 factor.
pub open spec fn level_operator(level: int, kind: TokenType) -> bool {
    if level == 0 {
        kind == TokenType::BangEqual || kind == TokenType::EqualEqual
    } else if level == 1 {
        kind == TokenType::Greater || kind == TokenType::GreaterEqual || kind == TokenType::Less
            || kind == TokenType::LessEqual
    } else if level == 2 {
        kind == TokenType::Minus || kind == TokenType::Plus
    } else if level == 3 {
        kind == TokenType::Slash || kind == TokenType::Star
    } else {
        false
    }
}

/// Whether a kind is a prefix operator.
pub open spec fn prefix_operator(kind: TokenType) -> bool {
    kind == TokenType::Bang || kind == TokenType::Minus
}

/// The kind of the token at a position; end of input beyond the tokens.
pub open spec fn kind_at(tokens: Seq<TokenView>, pos: int) -> TokenType {
    if 0 <= pos < tokens.len() {
        tokens[pos].token_type
    } else {
        TokenType::Eof
    }
}

/// Whether a parse that started at `pos` stopped at `next` without going
/// back or beyond the tokens. Every parse does
/// (see `lemma_parse_moves_forward`).
pub open spec fn forward(tokens: Seq<TokenView>, pos: int, next: int) -> bool {
    pos <= next <= tokens.len()
}

pub open spec fn binary(left: ExprView, operator: TokenView, right: ExprView) -> ExprView {
    ExprView::Binary { left: Box::new(left), operator, right: Box::new(right) }
}

pub open spec fn unary(operator: TokenView, right: ExprView) -> ExprView {
    ExprView::Unary { operator, right: Box::new(right) }
}

pub open spec fn grouping(expression: ExprView) -> ExprView {
    ExprView::Grouping { expression: Box::new(expression) }
}

pub open spec fn literal(value: LiteralView) -> ExprView {
    ExprView::Literal { value: Some(value) }
}

/// The error of a token that cannot begin an expression.
pub open spec fn expect_expression(token: TokenView) -> LoxErrorView {
    error_at(token, "Expect expression."@)
}

/// The error of a group that is not closed.
pub open spec fn expect_right_paren(token: TokenView) -> LoxErrorView {
    error_at(token, "Expect ')' after expression."@)
}

/// How far a level is above `unary`, doubled; used to show that the
/// grammar terminates.
pub open spec fn rank(level: int) -> int {
    if 0 <= level < LEVELS {
        2 * (LEVELS - level)
    } else {
        0
    }
}

/// `level := next-level ( operator next-level )*`, folded to the left;
/// behind the last level of binary operators comes `unary`.
pub open spec fn parse_level(tokens: Seq<TokenView>, pos: int, level: int) -> Parsed
    decreases tokens.len() - pos, rank(level) + 3,
{
    if level < 0 || level >= LEVELS {
        parse_unary(tokens, pos)
    } else {
        match parse_level(tokens, pos, level + 1) {
            Err(e) => Err(e),
            Ok((left, next)) => if forward(tokens, pos, next) {
                parse_rest(tokens, next, level, left)
            } else {
                Ok((left, next))
            },
        }
    }
}

/// The `( operator next-level )*` of a level, with `left` read so far.
pub open spec fn parse_rest(tokens: Seq<TokenView>, pos: int, level: int, left: ExprView) -> Parsed
    decreases tokens.len() - pos, rank(level) + 2,
{
    if 0 <= level < LEVELS && level_operator(level, kind_at(tokens, pos)) {
        match parse_level(tokens, pos + 1, level + 1) {
            Err(e) => Err(e),
            Ok((right, next)) => if forward(tokens, pos + 1, next) {
                parse_rest(tokens, next, level, binary(left, tokens[pos], right))
            } else {
                Ok((right, next))
            },
        }
    } else {
        Ok((left, pos))
    }
}

/// `unary := ( "!" | "-" ) unary | primary`
pub open spec fn parse_unary(tokens: Seq<TokenView>, pos: int) -> Parsed
    decreases tokens.len() - pos, 1int,
{
    if prefix_operator(kind_at(tokens, pos)) {
        match parse_unary(tokens, pos + 1) {
            Err(e) => Err(e),
            Ok((right, next)) => Ok((unary(tokens[pos], right), next)),
        }
    } else {
        parse_primary(tokens, pos)
    }
}

/// `primary := NUMBER | STRING | "true" | "false" | "nil" | "(" expression ")"`
pub open spec fn parse_primary(tokens: Seq<TokenView>, pos: int) -> Parsed
    decreases tokens.len() - pos, 0int,
{
    let kind = kind_at(tokens, pos);
    if kind == TokenType::False {
        Ok((literal(LiteralView::Bool(false)), pos + 1))
    } else if kind == TokenType::True {
        Ok((literal(LiteralView::Bool(true)), pos + 1))
    } else if kind == TokenType::Nil {
        Ok((literal(LiteralView::Nil), pos + 1))
    } else if kind == TokenType::Number || kind == TokenType::String {
        Ok((ExprView::Literal { value: tokens[pos].literal }, pos + 1))
    } else if kind == TokenType::LeftParen {
        match parse_level(tokens, pos + 1, 0) {
            Err(e) => Err(e),
            Ok((inner, next)) => if kind_at(tokens, next) == TokenType::RightParen {
                Ok((grouping(inner), next + 1))
            } else {
                Err(expect_right_paren(token_at(tokens, next)))
            },
        }
    } else {
        Err(expect_expression(token_at(tokens, pos)))
    }
}

/// The token at a position; the last token beyond the tokens.
pub open spec fn token_at(tokens: Seq<TokenView>, pos: int) -> TokenView {
    if 0 <= pos < tokens.len() {
        tokens[pos]
    } else {
        tokens.last()
    }
}

/// `expression := equality`
pub open spec fn parse_expression(tokens: Seq<TokenView>, pos: int) -> Parsed {
    parse_level(tokens, pos, 0)
}

/// Tokens that a parser takes: at least one, the last one the end of input.
pub open spec fn ends_in_eof(tokens: Seq<TokenView>) -> bool {
    tokens.len() > 0 && tokens.last().token_type == TokenType::Eof
}

/// Every successful parse reads at least one token and stops before the
/// end of the tokens: it never reads the end-of-input token.
pub proof fn lemma_parse_moves_forward(tokens: Seq<TokenView>, pos: int, level: int)
    requires
        ends_in_eof(tokens),
        0 <= pos < tokens.len(),
    ensures
        parse_level(tokens, pos, level) is Ok ==> pos < parse_level(tokens, pos, level)->Ok_0.1
            < tokens.len(),
    decreases tokens.len() - pos, rank(level) + 3,
{
    if level < 0 || level >= LEVELS {
        lemma_unary_moves_forward(tokens, pos);
    } else {
        lemma_parse_moves_forward(tokens, pos, level + 1);
        match parse_level(tokens, pos, level + 1) {
            Err(e) => {},
            Ok((left, next)) => {
                lemma_rest_moves_forward(tokens, next, level, left);
            },
        }
    }
}

/// The rest of a level stops at or behind its start, before the end of the
/// tokens.
pub proof fn lemma_rest_moves_forward(
    tokens: Seq<TokenView>,
    pos: int,
    level: int,
    left: ExprView,
)
    requires
        ends_in_eof(tokens),
        0 <= pos < tokens.len(),
    ensures
        parse_rest(tokens, pos, level, left) is Ok ==> pos <= parse_rest(
            tokens,
            pos,
            level,
            left,
        )->Ok_0.1 < tokens.len(),
    decreases tokens.len() - pos, rank(level) + 2,
{
    if 0 <= level < LEVELS && level_operator(level, kind_at(tokens, pos)) {
        lemma_parse_moves_forward(tokens, pos + 1, level + 1);
        match parse_level(tokens, pos + 1, level + 1) {
            Err(e) => {},
            Ok((right, next)) => {
                lemma_rest_moves_forward(tokens, next, level, binary(left, tokens[pos], right));
            },
        }
    }
}

/// A successful `unary` reads at least one token and stops before the end.
pub proof fn lemma_unary_moves_forward(tokens: Seq<TokenView>, pos: int)
    requires
        ends_in_eof(tokens),
        0 <= pos < tokens.len(),
    ensures
        parse_unary(tokens, pos) is Ok ==> pos < parse_unary(tokens, pos)->Ok_0.1 < tokens.len(),
    decreases tokens.len() - pos, 1int,
{
    if prefix_operator(kind_at(tokens, pos)) {
        lemma_unary_moves_forward(tokens, pos + 1);
    } else {
        lemma_primary_moves_forward(tokens, pos);
    }
}

/// A successful `primary` reads at least one token and stops before the end.
pub proof fn lemma_primary_moves_forward(tokens: Seq<TokenView>, pos: int)
    requires
        ends_in_eof(tokens),
        0 <= pos < tokens.len(),
    ensures
        parse_primary(tokens, pos) is Ok ==> pos < parse_primary(tokens, pos)->Ok_0.1
            < tokens.len(),
    decreases tokens.len() - pos, 0int,
{
    if kind_at(tokens, pos) == TokenType::LeftParen {
        lemma_parse_moves_forward(tokens, pos + 1, 0);
    }
}

/// Whether no token carries `ArithmeticError` as its literal.
pub open spec fn clean_tokens(tokens: Seq<TokenView>) -> bool {
    forall|i: int|
        0 <= i < tokens.len() ==> (#[trigger] tokens[i]).literal != Some(
            LiteralView::ArithmeticError,
        )
}

/// An expression parsed from tokens without `ArithmeticError` holds none.
pub proof fn lemma_parse_clean(tokens: Seq<TokenView>, pos: int, level: int)
    requires
        clean_tokens(tokens),
    ensures
        parse_level(tokens, pos, level) is Ok ==> sentinel_free(
            parse_level(tokens, pos, level)->Ok_0.0,
        ),
    decreases tokens.len() - pos, rank(level) + 3,
{
    if level < 0 || level >= LEVELS {
        lemma_unary_clean(tokens, pos);
    } else {
        lemma_parse_clean(tokens, pos, level + 1);
        match parse_level(tokens, pos, level + 1) {
            Err(e) => {},
            Ok((left, next)) => {
                if forward(tokens, pos, next) {
                    lemma_rest_clean(tokens, next, level, left);
                }
            },
        }
    }
}

/// The rest of a level keeps an expression free of `ArithmeticError`.
pub proof fn lemma_rest_clean(tokens: Seq<TokenView>, pos: int, level: int, left: ExprView)
    requires
        clean_tokens(tokens),
        sentinel_free(left),
    ensures
        parse_rest(tokens, pos, level, left) is Ok ==> sentinel_free(
            parse_rest(tokens, pos, level, left)->Ok_0.0,
        ),
    decreases tokens.len() - pos, rank(level) + 2,
{
    if 0 <= level < LEVELS && level_operator(level, kind_at(tokens, pos)) {
        lemma_parse_clean(tokens, pos + 1, level + 1);
        match parse_level(tokens, pos + 1, level + 1) {
            Err(e) => {},
            Ok((right, next)) => {
                if forward(tokens, pos + 1, next) {
                    lemma_rest_clean(tokens, next, level, binary(left, tokens[pos], right));
                }
            },
        }
    }
}

/// `unary` builds expressions free of `ArithmeticError`.
pub proof fn lemma_unary_clean(tokens: Seq<TokenView>, pos: int)
    requires
        clean_tokens(tokens),
    ensures
        parse_unary(tokens, pos) is Ok ==> sentinel_free(parse_unary(tokens, pos)->Ok_0.0),
    decreases tokens.len() - pos, 1int,
{
    if prefix_operator(kind_at(tokens, pos)) {
        lemma_unary_clean(tokens, pos + 1);
    } else {
        lemma_primary_clean(tokens, pos);
    }
}

/// `primary` builds expressions free of `ArithmeticError`.
pub proof fn lemma_primary_clean(tokens: Seq<TokenView>, pos: int)
    requires
        clean_tokens(tokens),
    ensures
        parse_primary(tokens, pos) is Ok ==> sentinel_free(parse_primary(tokens, pos)->Ok_0.0),
    decreases tokens.len() - pos, 0int,
{
    if kind_at(tokens, pos) == TokenType::LeftParen {
        lemma_parse_clean(tokens, pos + 1, 0);
    }
}

} // verus!
