use vstd::prelude::*;
use vstd::string::StringExecFns;
use crate::error::{LoxError, LoxErrorView, error_at};
use crate::expr::{
    BinaryExpr, Expr, ExprView, GroupingExpr, LiteralExpr, UnaryExpr, sentinel_free,
};
use crate::grammar::{
    LEVELS, Parsed, clean_tokens, ends_in_eof, kind_at, lemma_parse_clean,
    lemma_parse_moves_forward, level_operator, parse_expression, parse_level, parse_primary,
    parse_rest, parse_unary, rank,
};
use crate::scanner::token_views;
use crate::token::{Literal, Token, TokenType, TokenView, clone_literal_option};

verus! {

/// The view of what a parsing function returned, with the position of the
/// cursor behind it.
pub open spec fn parsed_view(r: Result<Expr, LoxError>, next: int) -> Parsed {
    match r {
        Ok(e) => Ok((e@, next)),
        Err(e) => Err(e@),
    }
}

/// The view of an optional expression.
pub open spec fn expr_option_view(e: Option<Expr>) -> Option<ExprView> {
    match e {
        Some(e) => Some(e@),
        None => None,
    }
}

/// The view of an optional error.
pub open spec fn error_option_view(e: Option<LoxError>) -> Option<LoxErrorView> {
    match e {
        Some(e) => Some(e@),
        None => None,
    }
}

/// Whether a kind is a binary operator of a level.
pub fn is_level_operator(level: u8, kind: TokenType) -> (r: bool)
    ensures
        r == level_operator(level as int, kind),
{
    if level == 0 {
        kind == TokenType::BangEqual || kind == TokenType::EqualEqual
    } else if level == 1 {
        kind == TokenType::Greater || kind == TokenType::GreaterEqual || kind == TokenType::Less
            || kind == TokenType::LessEqual
    } else if level == 2 {
        kind == TokenType::Minus || kind == TokenType::Plus
    } else if level == 3 {
        kind == TokenType::Slash || kind == TokenType::Star
    } else {
        false
    }
}

/// A recursive-descent parser over the tokens of one source text.
pub struct Parser {
    tokens: Vec<Token>,
    current: usize,
    error: Option<LoxError>,
}

impl Parser {
    /// The tokens end in the end-of-input token and the cursor is on a token.
    pub closed spec fn wf(&self) -> bool {
        ends_in_eof(token_views(self.tokens@)) && self.current < self.tokens@.len()
    }

    /// The tokens.
    pub closed spec fn tokens_view(&self) -> Seq<TokenView> {
        token_views(self.tokens@)
    }

    /// The position of the cursor, in tokens.
    pub closed spec fn position(&self) -> int {
        self.current as int
    }

    /// The error of the last failed `parse`.
    pub closed spec fn error_view(&self) -> Option<LoxErrorView> {
        error_option_view(self.error)
    }

    /// Nothing but the cursor differs.
    spec fn moved_from(&self, before: &Self) -> bool {
        self.tokens == before.tokens && self.error == before.error
    }

    pub fn new(tokens: Vec<Token>) -> (r: Self)
        requires
            ends_in_eof(token_views(tokens@)),
        ensures
            r.wf(),
            r.tokens_view() == token_views(tokens@),
            r.position() == 0,
            r.error_view() is None,
    {
        Parser { tokens, current: 0, error: None }
    }

    fn peek(&self) -> (t: &Token)
        requires
            self.wf(),
        ensures
            t@ == token_views(self.tokens@)[self.current as int],
            t@.token_type == kind_at(token_views(self.tokens@), self.current as int),
    {
        &self.tokens[self.current]
    }

    fn previous(&self) -> (t: &Token)
        requires
            self.wf(),
            self.current > 0,
        ensures
            t@ == token_views(self.tokens@)[self.current - 1],
    {
        &self.tokens[self.current - 1]
    }

    fn is_at_end(&self) -> (r: bool)
        requires
            self.wf(),
        ensures
            r == (kind_at(token_views(self.tokens@), self.current as int) == TokenType::Eof),
    {
        self.peek().get_token_type() == TokenType::Eof
    }

    /// Whether the token at the cursor has this kind.
    fn check(&self, ty: TokenType) -> (r: bool)
        requires
            self.wf(),
            ty != TokenType::Eof,
        ensures
            r == (kind_at(token_views(self.tokens@), self.current as int) == ty),
    {
        if self.is_at_end() {
            return false;
        }
        self.peek().get_token_type() == ty
    }

    /// Moves over the token at the cursor, unless it is the end of input.
    fn advance(&mut self) -> (t: &Token)
        requires
            old(self).wf(),
            kind_at(token_views(old(self).tokens@), old(self).current as int) != TokenType::Eof,
        ensures
            final(self).wf(),
            final(self).moved_from(old(self)),
            final(self).current == old(self).current + 1,
            t@ == token_views(old(self).tokens@)[old(self).current as int],
    {
        if !self.is_at_end() {
            let count: usize = self.tokens.len();
            proof {
                let views = token_views(self.tokens@);
                assert(views.last() == views[views.len() - 1]);
                assert(views[self.current as int].token_type != TokenType::Eof);
                assert(self.current + 1 < count);
            }
            self.current += 1;
        }
        self.previous()
    }

    /// Moves over the token at the cursor if it is an operator of the level.
    fn match_level(&mut self, level: u8) -> (r: bool)
        requires
            old(self).wf(),
        ensures
            final(self).wf(),
            final(self).moved_from(old(self)),
            r == level_operator(
                level as int,
                kind_at(token_views(old(self).tokens@), old(self).current as int),
            ),
            final(self).current == old(self).current + if r {
                1int
            } else {
                0int
            },
    {
        let kind = self.peek().get_token_type();
        if is_level_operator(level, kind) {
            let count: usize = self.tokens.len();
            proof {
                let views = token_views(self.tokens@);
                assert(views.last() == views[views.len() - 1]);
                assert(views[self.current as int].token_type != TokenType::Eof);
                assert(self.current + 1 < count);
            }
            self.current += 1;
            true
        } else {
            false
        }
    }

    /// Moves over the token at the cursor if it has this kind; else the
    /// error at that token.
    fn consume(&mut self, ty: TokenType, message: &str) -> (r: Result<Token, LoxError>)
        requires
            old(self).wf(),
            ty != TokenType::Eof,
        ensures
            final(self).wf(),
            final(self).moved_from(old(self)),
            match r {
                Ok(t) => {
                    &&& kind_at(token_views(old(self).tokens@), old(self).current as int) == ty
                    &&& t@ == token_views(old(self).tokens@)[old(self).current as int]
                    &&& final(self).current == old(self).current + 1
                },
                Err(e) => {
                    &&& kind_at(token_views(old(self).tokens@), old(self).current as int) != ty
                    &&& e@ == error_at(
                        token_views(old(self).tokens@)[old(self).current as int],
                        message@,
                    )
                    &&& final(self).current == old(self).current
                },
            },
    {
        if self.check(ty) {
            let t = self.advance().clone();
            return Ok(t);
        }
        Err(LoxError::new_with_token(self.peek().clone(), String::from_str(message)))
    }

    /// `primary := NUMBER | STRING | "true" | "false" | "nil" | "(" expression ")"`
    fn primary(&mut self) -> (r: Result<Expr, LoxError>)
        requires
            old(self).wf(),
        ensures
            final(self).wf(),
            final(self).moved_from(old(self)),
            parsed_view(r, final(self).current as int) == parse_primary(
                token_views(old(self).tokens@),
                old(self).current as int,
            ),
        decreases old(self).tokens@.len() - old(self).current, 0int,
    {
        let ghost tokens = token_views(self.tokens@);
        let kind = self.peek().get_token_type();
        match kind {
            TokenType::False => {
                self.advance();
                Ok(Expr::Literal(LiteralExpr { value: Some(Literal::Bool(false)) }))
            },
            TokenType::True => {
                self.advance();
                Ok(Expr::Literal(LiteralExpr { value: Some(Literal::Bool(true)) }))
            },
            TokenType::Nil => {
                self.advance();
                Ok(Expr::Literal(LiteralExpr { value: Some(Literal::Nil) }))
            },
            TokenType::Number | TokenType::String => {
                let value = clone_literal_option(self.advance().get_literal());
                Ok(Expr::Literal(LiteralExpr { value }))
            },
            TokenType::LeftParen => {
                self.advance();
                proof {
                    lemma_parse_moves_forward(tokens, self.current as int, 0);
                }
                let inner = match self.level(0) {
                    Ok(e) => e,
                    Err(e) => {
                        return Err(e);
                    },
                };
                match self.consume(TokenType::RightParen, "Expect ')' after expression.") {
                    Ok(_) => Ok(Expr::Grouping(GroupingExpr { expression: Box::new(inner) })),
                    Err(e) => Err(e),
                }
            },
            _ => Err(
                LoxError::new_with_token(
                    self.peek().clone(),
                    String::from_str("Expect expression."),
                ),
            ),
        }
    }

    /// `unary := ( "!" | "-" ) unary | primary`
    fn unary(&mut self) -> (r: Result<Expr, LoxError>)
        requires
            old(self).wf(),
        ensures
            final(self).wf(),
            final(self).moved_from(old(self)),
            parsed_view(r, final(self).current as int) == parse_unary(
                token_views(old(self).tokens@),
                old(self).current as int,
            ),
        decreases old(self).tokens@.len() - old(self).current, 1int,
    {
        let kind = self.peek().get_token_type();
        if kind == TokenType::Bang || kind == TokenType::Minus {
            let operator = self.advance().clone();
            match self.unary() {
                Ok(right) => Ok(Expr::Unary(UnaryExpr { operator, right: Box::new(right) })),
                Err(e) => Err(e),
            }
        } else {
            self.primary()
        }
    }

    /// One level of binary operators:
    /// `level := next-level ( operator next-level )*`, folded to the left.
    fn level(&mut self, level: u8) -> (r: Result<Expr, LoxError>)
        requires
            old(self).wf(),
        ensures
            final(self).wf(),
            final(self).moved_from(old(self)),
            parsed_view(r, final(self).current as int) == parse_level(
                token_views(old(self).tokens@),
                old(self).current as int,
                level as int,
            ),
        decreases old(self).tokens@.len() - old(self).current, rank(level as int) + 3,
    {
        if level >= LEVELS {
            return self.unary();
        }
        let ghost tokens = token_views(self.tokens@);
        let ghost begin = self.current as int;
        proof {
            lemma_parse_moves_forward(tokens, begin, level + 1);
        }
        let mut expr = match self.level(level + 1) {
            Ok(e) => e,
            Err(e) => {
                return Err(e);
            },
        };
        loop
            invariant
                self.wf(),
                self.moved_from(old(self)),
                tokens == token_views(self.tokens@),
                begin == old(self).current,
                begin <= self.current,
                level < LEVELS,
                parse_rest(tokens, self.current as int, level as int, expr@) == parse_level(
                    tokens,
                    begin,
                    level as int,
                ),
            ensures
                parse_level(tokens, begin, level as int) == Ok::<(ExprView, int), LoxErrorView>(
                    (expr@, self.current as int),
                ),
                self.wf(),
                self.moved_from(old(self)),
            decreases self.tokens@.len() - self.current,
        {
            let ghost at = self.current as int;
            if !self.match_level(level) {
                break ;
            }
            let operator = self.previous().clone();
            proof {
                lemma_parse_moves_forward(tokens, at + 1, level + 1);
            }
            let right = match self.level(level + 1) {
                Ok(e) => e,
                Err(e) => {
                    return Err(e);
                },
            };
            expr = Expr::Binary(
                BinaryExpr { left: Box::new(expr), operator, right: Box::new(right) },
            );
        }
        Ok(expr)
    }

    /// `factor := unary ( ( "/" | "*" ) unary )*`
    pub fn factor(&mut self) -> (r: Result<Expr, LoxError>)
        requires
            old(self).wf(),
        ensures
            final(self).wf(),
            final(self).tokens_view() == old(self).tokens_view(),
            final(self).error_view() == old(self).error_view(),
            parsed_view(r, final(self).position()) == parse_level(
                old(self).tokens_view(),
                old(self).position(),
                3,
            ),
    {
        self.level(3)
    }

    /// `term := factor ( ( "-" | "+" ) factor )*`
    pub fn term(&mut self) -> (r: Result<Expr, LoxError>)
        requires
            old(self).wf(),
        ensures
            final(self).wf(),
            final(self).tokens_view() == old(self).tokens_view(),
            final(self).error_view() == old(self).error_view(),
            parsed_view(r, final(self).position()) == parse_level(
                old(self).tokens_view(),
                old(self).position(),
                2,
            ),
    {
        self.level(2)
    }

    /// `comparison := term ( ( ">" | ">=" | "<" | "<=" ) term )*`
    pub fn comparison(&mut self) -> (r: Result<Expr, LoxError>)
        requires
            old(self).wf(),
        ensures
            final(self).wf(),
            final(self).tokens_view() == old(self).tokens_view(),
            final(self).error_view() == old(self).error_view(),
            parsed_view(r, final(self).position()) == parse_level(
                old(self).tokens_view(),
                old(self).position(),
                1,
            ),
    {
        self.level(1)
    }

    /// `equality := comparison ( ( "!=" | "==" ) comparison )*`
    pub fn equality(&mut self) -> (r: Result<Expr, LoxError>)
        requires
            old(self).wf(),
        ensures
            final(self).wf(),
            final(self).tokens_view() == old(self).tokens_view(),
            final(self).error_view() == old(self).error_view(),
            parsed_view(r, final(self).position()) == parse_level(
                old(self).tokens_view(),
                old(self).position(),
                0,
            ),
    {
        self.level(0)
    }

    /// `expression := equality`
    pub fn expression(&mut self) -> (r: Result<Expr, LoxError>)
        requires
            old(self).wf(),
        ensures
            final(self).wf(),
            final(self).tokens_view() == old(self).tokens_view(),
            final(self).error_view() == old(self).error_view(),
            parsed_view(r, final(self).position()) == parse_expression(
                old(self).tokens_view(),
                old(self).position(),
            ),
            clean_tokens(old(self).tokens_view()) && r is Ok ==> sentinel_free(r->Ok_0@),
    {
        proof {
            if clean_tokens(token_views(self.tokens@)) {
                lemma_parse_clean(token_views(self.tokens@), self.current as int, 0);
            }
        }
        self.level(0)
    }

    /// Parses one expression from the cursor on. Where that fails there is
    /// no expression, and the parser keeps the error.
    pub fn parse(&mut self) -> (r: Option<Expr>)
        requires
            old(self).wf(),
        ensures
            final(self).wf(),
            final(self).tokens_view() == old(self).tokens_view(),
            match parse_expression(old(self).tokens_view(), old(self).position()) {
                Ok((e, next)) => {
                    &&& expr_option_view(r) == Some(e)
                    &&& final(self).position() == next
                    &&& final(self).error_view() == old(self).error_view()
                },
                Err(e) => {
                    &&& r is None
                    &&& final(self).error_view() == Some(e)
                },
            },
            clean_tokens(old(self).tokens_view()) && r is Some ==> sentinel_free(r->Some_0@),
    {
        match self.expression() {
            Ok(e) => Some(e),
            Err(e) => {
                self.error = Some(e);
                None
            },
        }
    }

    /// A copy of the error of the last failed `parse`.
    pub fn error(&self) -> (r: Option<LoxError>)
        ensures
            error_option_view(r) == self.error_view(),
    {
        match &self.error {
            Some(e) => Some(e.clone()),
            None => None,
        }
    }
}

} // verus!
