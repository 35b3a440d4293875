use vstd::prelude::*;
use crate::error::LoxErrorView;
use crate::expr::ExprView;
use crate::grammar::{
    LEVELS, binary, grouping, kind_at, level_operator, parse_expression, parse_level,
    parse_primary, parse_rest, parse_unary, prefix_operator, rank,
};
use crate::token::{LiteralView, TokenType, TokenView};

verus! {

/// The level of a binary operator, from 0 for equality to 3 for factor.
pub open spec fn operator_level(kind: TokenType) -> Option<int> {
    if level_operator(0, kind) {
        Some(0int)
    } else if level_operator(1, kind) {
        Some(1int)
    } else if level_operator(2, kind) {
        Some(2int)
    } else if level_operator(3, kind) {
        Some(3int)
    } else {
        None
    }
}

/// The number of tokens that spell an expression.
pub open spec fn width(e: ExprView) -> int
    decreases e,
{
    match e {
        ExprView::Binary { left, operator, right } => width(*left) + 1 + width(*right),
        ExprView::Unary { operator, right } => 1 + width(*right),
        ExprView::Grouping { expression } => 2 + width(*expression),
        ExprView::Literal { value } => 1,
    }
}

/// Whether a token spells a literal with this value: `false`, `true` and
/// `nil` by their kind, a number or a string by the literal they carry.
pub open spec fn literal_token(t: TokenView, value: Option<LiteralView>) -> bool {
    if t.token_type == TokenType::False {
        value == Some(LiteralView::Bool(false))
    } else if t.token_type == TokenType::True {
        value == Some(LiteralView::Bool(true))
    } else if t.token_type == TokenType::Nil {
        value == Some(LiteralView::Nil)
    } else if t.token_type == TokenType::Number || t.token_type == TokenType::String {
        value == t.literal
    } else {
        false
    }
}

/// Whether the tokens from position `lo` on spell the expression `e` as an
/// operand of a level: the grammar, with its precedence and associativity,
/// as a derivation.
///
/// - A binary node is spelled by its left operand, its operator and its
///   right operand. Its operator's level is at least `level`; the left
///   operand belongs to the operator's own level, the right one to the next.
/// - A unary node is spelled by its operator and its operand, which belongs
///   to the level of prefix operators.
/// - A group is spelled by `(`, its expression at level 0, and `)`.
/// - A literal is spelled by one token.
pub open spec fn spelled(tokens: Seq<TokenView>, lo: int, e: ExprView, level: int) -> bool
    decreases e,
{
    match e {
        ExprView::Binary { left, operator, right } => {
            let own = operator_level(operator.token_type);
            let at = lo + width(*left);
            &&& own is Some
            &&& level <= own->Some_0
            &&& spelled(tokens, lo, *left, own->Some_0)
            &&& 0 <= at < tokens.len()
            &&& tokens[at] == operator
            &&& spelled(tokens, at + 1, *right, own->Some_0 + 1)
        },
        ExprView::Unary { operator, right } => {
            &&& 0 <= lo < tokens.len()
            &&& tokens[lo] == operator
            &&& prefix_operator(operator.token_type)
            &&& spelled(tokens, lo + 1, *right, LEVELS as int)
        },
        ExprView::Grouping { expression } => {
            &&& 0 <= lo
            &&& kind_at(tokens, lo) == TokenType::LeftParen
            &&& spelled(tokens, lo + 1, *expression, 0)
            &&& kind_at(tokens, lo + 1 + width(*expression)) == TokenType::RightParen
        },
        ExprView::Literal { value } => {
            &&& 0 <= lo < tokens.len()
            &&& literal_token(tokens[lo], value)
        },
    }
}

/// Whether the token at `pos` is no binary operator that binds tighter than
/// a level.
pub open spec fn no_tighter(tokens: Seq<TokenView>, pos: int, level: int) -> bool {
    let own = operator_level(kind_at(tokens, pos));
    own is None || own->Some_0 <= level
}

/// What is spelled lies inside the tokens and takes at least one of them.
pub proof fn lemma_spelled_bounds(tokens: Seq<TokenView>, lo: int, e: ExprView, level: int)
    requires
        spelled(tokens, lo, e, level),
    ensures
        0 <= lo,
        width(e) >= 1,
        lo + width(e) <= tokens.len(),
    decreases e,
{
    match e {
        ExprView::Binary { left, operator, right } => {
            let own = operator_level(operator.token_type)->Some_0;
            lemma_spelled_bounds(tokens, lo, *left, own);
            lemma_spelled_bounds(tokens, lo + width(*left) + 1, *right, own + 1);
        },
        ExprView::Unary { operator, right } => {
            lemma_spelled_bounds(tokens, lo + 1, *right, LEVELS as int);
        },
        ExprView::Grouping { expression } => {
            lemma_spelled_bounds(tokens, lo + 1, *expression, 0);
        },
        ExprView::Literal { value } => {},
    }
}

/// What is spelled as an operand of a level is spelled as an operand of
/// every level below it.
pub proof fn lemma_spelled_below(
    tokens: Seq<TokenView>,
    lo: int,
    e: ExprView,
    level: int,
    below: int,
)
    requires
        spelled(tokens, lo, e, level),
        below <= level,
    ensures
        spelled(tokens, lo, e, below),
{
}

/// The parser reads nothing but what is spelled: the expression that it
/// returns is spelled by the tokens from where it started to where it
/// stopped.
pub proof fn lemma_parse_sound(tokens: Seq<TokenView>, pos: int, level: int)
    requires
        0 <= pos,
        0 <= level <= LEVELS,
    ensures
        parse_level(tokens, pos, level) is Ok ==> spelled(
            tokens,
            pos,
            parse_level(tokens, pos, level)->Ok_0.0,
            level,
        ) && parse_level(tokens, pos, level)->Ok_0.1 == pos + width(
            parse_level(tokens, pos, level)->Ok_0.0,
        ),
    decreases tokens.len() - pos, rank(level) + 3,
{
    if level >= LEVELS {
        lemma_unary_sound(tokens, pos);
    } else {
        lemma_parse_sound(tokens, pos, level + 1);
        match parse_level(tokens, pos, level + 1) {
            Err(e) => {},
            Ok((left, next)) => {
                lemma_spelled_bounds(tokens, pos, left, level + 1);
                lemma_spelled_below(tokens, pos, left, level + 1, level);
                lemma_rest_sound(tokens, pos, next, level, left);
            },
        }
    }
}

/// The rest of a level reads nothing but what is spelled.
pub proof fn lemma_rest_sound(
    tokens: Seq<TokenView>,
    lo: int,
    pos: int,
    level: int,
    left: ExprView,
)
    requires
        0 <= level < LEVELS,
        spelled(tokens, lo, left, level),
        pos == lo + width(left),
    ensures
        parse_rest(tokens, pos, level, left) is Ok ==> spelled(
            tokens,
            lo,
            parse_rest(tokens, pos, level, left)->Ok_0.0,
            level,
        ) && parse_rest(tokens, pos, level, left)->Ok_0.1 == lo + width(
            parse_rest(tokens, pos, level, left)->Ok_0.0,
        ),
    decreases tokens.len() - pos, rank(level) + 2,
{
    lemma_spelled_bounds(tokens, lo, left, level);
    if level_operator(level, kind_at(tokens, pos)) {
        lemma_parse_sound(tokens, pos + 1, level + 1);
        match parse_level(tokens, pos + 1, level + 1) {
            Err(e) => {},
            Ok((right, next)) => {
                lemma_spelled_bounds(tokens, pos + 1, right, level + 1);
                let both = binary(left, tokens[pos], right);
                assert(operator_level(tokens[pos].token_type) == Some(level));
                assert(spelled(tokens, lo, both, level));
                lemma_rest_sound(tokens, lo, next, level, both);
            },
        }
    }
}

/// `unary` reads nothing but what is spelled.
pub proof fn lemma_unary_sound(tokens: Seq<TokenView>, pos: int)
    requires
        0 <= pos,
    ensures
        parse_unary(tokens, pos) is Ok ==> spelled(
            tokens,
            pos,
            parse_unary(tokens, pos)->Ok_0.0,
            LEVELS as int,
        ) && parse_unary(tokens, pos)->Ok_0.1 == pos + width(parse_unary(tokens, pos)->Ok_0.0),
    decreases tokens.len() - pos, 1int,
{
    if prefix_operator(kind_at(tokens, pos)) {
        lemma_unary_sound(tokens, pos + 1);
    } else {
        lemma_primary_sound(tokens, pos);
    }
}

/// `primary` reads nothing but what is spelled.
pub proof fn lemma_primary_sound(tokens: Seq<TokenView>, pos: int)
    requires
        0 <= pos,
    ensures
        parse_primary(tokens, pos) is Ok ==> spelled(
            tokens,
            pos,
            parse_primary(tokens, pos)->Ok_0.0,
            LEVELS as int,
        ) && parse_primary(tokens, pos)->Ok_0.1 == pos + width(
            parse_primary(tokens, pos)->Ok_0.0,
        ),
    decreases tokens.len() - pos, 0int,
{
    if kind_at(tokens, pos) == TokenType::LeftParen {
        lemma_parse_sound(tokens, pos + 1, 0);
    }
}

/// The parser reads all that is spelled: from the start of an expression
/// that is spelled as an operand of a level, and that no tighter operator
/// follows, it comes to that expression and goes on from behind it.
pub proof fn lemma_parse_complete(tokens: Seq<TokenView>, lo: int, e: ExprView, level: int)
    requires
        0 <= level <= LEVELS,
        spelled(tokens, lo, e, level),
        no_tighter(tokens, lo + width(e), level),
    ensures
        parse_level(tokens, lo, level) == parse_rest(tokens, lo + width(e), level, e),
    decreases e, LEVELS - level + 2,
{
    lemma_spelled_bounds(tokens, lo, e, level);
    let hi = lo + width(e);
    if level >= LEVELS {
        lemma_unary_complete(tokens, lo, e);
    } else {
        let own = match e {
            ExprView::Binary { left, operator, right } => operator_level(operator.token_type),
            _ => None,
        };
        if own == Some(level) {
            let left = e->Binary_left;
            let operator = e->Binary_operator;
            let right = e->Binary_right;
            let at = lo + width(*left);
            lemma_spelled_bounds(tokens, lo, *left, level);
            lemma_spelled_bounds(tokens, at + 1, *right, level + 1);
            lemma_parse_complete(tokens, lo, *left, level);
            lemma_parse_complete(tokens, at + 1, *right, level + 1);
            assert(parse_level(tokens, at + 1, level + 1) == Ok::<(ExprView, int), LoxErrorView>(
                (*right, hi),
            ));
            assert(parse_rest(tokens, at, level, *left) == parse_rest(
                tokens,
                hi,
                level,
                binary(*left, operator, *right),
            ));
        } else {
            assert(spelled(tokens, lo, e, level + 1));
            lemma_parse_complete(tokens, lo, e, level + 1);
            assert(parse_level(tokens, lo, level + 1) == Ok::<(ExprView, int), LoxErrorView>(
                (e, hi),
            ));
        }
    }
}

/// `unary` reads all that is spelled as an operand of a prefix operator.
pub proof fn lemma_unary_complete(tokens: Seq<TokenView>, lo: int, e: ExprView)
    requires
        spelled(tokens, lo, e, LEVELS as int),
    ensures
        parse_unary(tokens, lo) == Ok::<(ExprView, int), LoxErrorView>((e, lo + width(e))),
    decreases e, 1int,
{
    match e {
        ExprView::Unary { operator, right } => {
            lemma_unary_complete(tokens, lo + 1, *right);
        },
        _ => {
            lemma_primary_complete(tokens, lo, e);
        },
    }
}

/// `primary` reads a group or a literal that is spelled.
pub proof fn lemma_primary_complete(tokens: Seq<TokenView>, lo: int, e: ExprView)
    requires
        spelled(tokens, lo, e, LEVELS as int),
        e is Grouping || e is Literal,
    ensures
        parse_primary(tokens, lo) == Ok::<(ExprView, int), LoxErrorView>((e, lo + width(e))),
        !prefix_operator(kind_at(tokens, lo)),
    decreases e, 0int,
{
    match e {
        ExprView::Grouping { expression } => {
            let close = lo + 1 + width(*expression);
            lemma_parse_complete(tokens, lo + 1, *expression, 0);
            assert(parse_rest(tokens, close, 0, *expression) == Ok::<
                (ExprView, int),
                LoxErrorView,
            >((*expression, close)));
        },
        _ => {},
    }
}

/// Soundness of the parser: an expression that it returns is spelled by the
/// tokens that it read.
pub proof fn law_parser_reads_only_what_is_spelled(tokens: Seq<TokenView>, pos: int)
    requires
        0 <= pos,
        parse_expression(tokens, pos) is Ok,
    ensures
        spelled(tokens, pos, parse_expression(tokens, pos)->Ok_0.0, 0),
        parse_expression(tokens, pos)->Ok_0.1 == pos + width(
            parse_expression(tokens, pos)->Ok_0.0,
        ),
{
    lemma_parse_sound(tokens, pos, 0);
}

/// Completeness of the parser: where the tokens spell an expression and no
/// binary operator follows it, the parser returns that expression and stops
/// behind it.
pub proof fn law_parser_reads_what_is_spelled(tokens: Seq<TokenView>, pos: int, e: ExprView)
    requires
        spelled(tokens, pos, e, 0),
        operator_level(kind_at(tokens, pos + width(e))) is None,
    ensures
        parse_expression(tokens, pos) == Ok::<(ExprView, int), LoxErrorView>((e, pos + width(e))),
{
    lemma_parse_complete(tokens, pos, e, 0);
}

/// Whether a token is a literal by itself.
pub open spec fn is_literal_kind(kind: TokenType) -> bool {
    kind == TokenType::False || kind == TokenType::True || kind == TokenType::Nil || kind
        == TokenType::Number || kind == TokenType::String
}

/// The literal node that a literal token spells.
pub open spec fn literal_of(t: TokenView) -> ExprView {
    ExprView::Literal {
        value: if t.token_type == TokenType::False {
            Some(LiteralView::Bool(false))
        } else if t.token_type == TokenType::True {
            Some(LiteralView::Bool(true))
        } else if t.token_type == TokenType::Nil {
            Some(LiteralView::Nil)
        } else {
            t.literal
        },
    }
}

/// Precedence and associativity of `a op1 b op2 c`: where the second
/// operator binds tighter than the first, it takes `b` for itself; else the
/// first operator does, so operators of one level group from the left.
pub proof fn law_precedence(tokens: Seq<TokenView>)
    requires
        tokens.len() >= 5,
        is_literal_kind(tokens[0].token_type),
        operator_level(tokens[1].token_type) is Some,
        is_literal_kind(tokens[2].token_type),
        operator_level(tokens[3].token_type) is Some,
        is_literal_kind(tokens[4].token_type),
        operator_level(kind_at(tokens, 5)) is None,
    ensures
        parse_expression(tokens, 0) == Ok::<(ExprView, int), LoxErrorView>(
            (
                if operator_level(tokens[3].token_type)->Some_0 > operator_level(
                    tokens[1].token_type,
                )->Some_0 {
                    binary(
                        literal_of(tokens[0]),
                        tokens[1],
                        binary(literal_of(tokens[2]), tokens[3], literal_of(tokens[4])),
                    )
                } else {
                    binary(
                        binary(literal_of(tokens[0]), tokens[1], literal_of(tokens[2])),
                        tokens[3],
                        literal_of(tokens[4]),
                    )
                },
                5,
            ),
        ),
{
    let a = literal_of(tokens[0]);
    let b = literal_of(tokens[2]);
    let c = literal_of(tokens[4]);
    let first = operator_level(tokens[1].token_type)->Some_0;
    let second = operator_level(tokens[3].token_type)->Some_0;
    assert(width(a) == 1 && width(b) == 1 && width(c) == 1);
    if second > first {
        let inner = binary(b, tokens[3], c);
        assert(width(inner) == 3);
        assert(spelled(tokens, 2, b, second));
        assert(spelled(tokens, 4, c, second + 1));
        assert(spelled(tokens, 2, inner, first + 1));
        let e = binary(a, tokens[1], inner);
        assert(width(e) == 5);
        assert(spelled(tokens, 0, a, first));
        assert(spelled(tokens, 0, e, 0));
        law_parser_reads_what_is_spelled(tokens, 0, e);
    } else {
        let inner = binary(a, tokens[1], b);
        assert(width(inner) == 3);
        assert(spelled(tokens, 0, a, first));
        assert(spelled(tokens, 2, b, first + 1));
        assert(spelled(tokens, 0, inner, second));
        let e = binary(inner, tokens[3], c);
        assert(width(e) == 5);
        assert(spelled(tokens, 4, c, second + 1));
        assert(spelled(tokens, 0, e, 0));
        law_parser_reads_what_is_spelled(tokens, 0, e);
    }
}

/// Grouping overrides precedence: in `( a op1 b ) op2 c` the first operator
/// takes `b`, whatever the two operators are.
pub proof fn law_grouping_overrides_precedence(tokens: Seq<TokenView>)
    requires
        tokens.len() >= 7,
        tokens[0].token_type == TokenType::LeftParen,
        is_literal_kind(tokens[1].token_type),
        operator_level(tokens[2].token_type) is Some,
        is_literal_kind(tokens[3].token_type),
        tokens[4].token_type == TokenType::RightParen,
        operator_level(tokens[5].token_type) is Some,
        is_literal_kind(tokens[6].token_type),
        operator_level(kind_at(tokens, 7)) is None,
    ensures
        parse_expression(tokens, 0) == Ok::<(ExprView, int), LoxErrorView>(
            (
                binary(
                    grouping(
                        binary(literal_of(tokens[1]), tokens[2], literal_of(tokens[3])),
                    ),
                    tokens[5],
                    literal_of(tokens[6]),
                ),
                7,
            ),
        ),
{
    let a = literal_of(tokens[1]);
    let b = literal_of(tokens[3]);
    let c = literal_of(tokens[6]);
    assert(width(a) == 1 && width(b) == 1 && width(c) == 1);
    let first = operator_level(tokens[2].token_type)->Some_0;
    let second = operator_level(tokens[5].token_type)->Some_0;
    let inner = binary(a, tokens[2], b);
    assert(width(inner) == 3);
    assert(spelled(tokens, 1, a, first));
    assert(spelled(tokens, 3, b, first + 1));
    assert(spelled(tokens, 1, inner, 0));
    let group = grouping(inner);
    assert(width(group) == 5);
    assert(spelled(tokens, 0, group, second));
    let e = binary(group, tokens[5], c);
    assert(width(e) == 7);
    assert(spelled(tokens, 6, c, second + 1));
    assert(spelled(tokens, 0, e, 0));
    law_parser_reads_what_is_spelled(tokens, 0, e);
}

} // verus!
