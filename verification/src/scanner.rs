use vstd::prelude::*;
use vstd::string::{StrSliceExecFns, StringExecFns};
use crate::error::{LoxError, LoxErrorView};
use crate::grammar::{clean_tokens, ends_in_eof};
use crate::lexis::{
    Run, char_is_alphabetic, end_token, follows, is_digit, lemma_lex_advances, lemma_run_end, lex,
    lex_string, line_feeds, name_kind, number_end, plain, run_end, scan_from, step_errors,
    step_tokens,
};
use crate::token::{Literal, LiteralView, Token, TokenType, TokenView, literal_option_view};
use crate::util::substring;

verus! {

/// Whether `bits` can be what the caller's function reads from `text`.
pub open spec fn reads<P: Fn(String) -> u64>(parse_number: P, text: Seq<char>, bits: u64) -> bool {
    exists|t: String| #[trigger] parse_number.ensures((t,), bits) && t@ == text
}

/// Whether a token is the one that the scan describes: the same kind,
/// lexeme, line and literal, where the literal of a number is what the
/// caller's function reads from the lexeme.
pub open spec fn token_matches<P: Fn(String) -> u64>(
    parse_number: P,
    token: TokenView,
    shape: TokenView,
) -> bool {
    &&& token.token_type == shape.token_type
    &&& token.lexeme == shape.lexeme
    &&& token.line == shape.line
    &&& if shape.token_type == TokenType::Number {
        token.literal is Some && token.literal->Some_0 is Number && reads(
            parse_number,
            shape.lexeme,
            token.literal->Some_0->Number_0,
        )
    } else {
        token.literal == shape.literal
    }
}

/// Whether a sequence of tokens is the one that the scan describes.
pub open spec fn tokens_match<P: Fn(String) -> u64>(
    parse_number: P,
    tokens: Seq<TokenView>,
    shapes: Seq<TokenView>,
) -> bool {
    &&& tokens.len() == shapes.len()
    &&& forall|i: int|
        0 <= i < tokens.len() ==> token_matches(parse_number, #[trigger] tokens[i], shapes[i])
}

/// The views of a sequence of tokens.
pub open spec fn token_views(tokens: Seq<Token>) -> Seq<TokenView> {
    Seq::new(tokens.len(), |i: int| tokens[i]@)
}

/// The views of a sequence of errors.
pub open spec fn error_views(errors: Seq<LoxError>) -> Seq<LoxErrorView> {
    Seq::new(errors.len(), |i: int| errors[i]@)
}

/// The error that the scanner reports on a line.
pub open spec fn lex_error(line: nat) -> LoxErrorView {
    LoxErrorView { token: None, line, location: Seq::empty(), message: "Unexpected character"@ }
}

/// The errors that the scanner reports on a sequence of lines.
pub open spec fn lex_errors(lines: Seq<nat>) -> Seq<LoxErrorView> {
    Seq::new(lines.len(), |i: int| lex_error(lines[i]))
}

/// The character at a position, or U+0000 beyond the text.
pub open spec fn peek_at(s: Seq<char>, i: int) -> char {
    if 0 <= i < s.len() {
        s[i]
    } else {
        '\0'
    }
}

/// Whether `now` is `before` with tokens behind it that match `shapes`.
pub open spec fn extended_by<P: Fn(String) -> u64>(
    parse_number: P,
    now: Seq<TokenView>,
    before: Seq<TokenView>,
    shapes: Seq<TokenView>,
) -> bool {
    &&& now.len() == before.len() + shapes.len()
    &&& now.subrange(0, before.len() as int) == before
    &&& tokens_match(parse_number, now.subrange(before.len() as int, now.len() as int), shapes)
}

/// One more token that matches one more shape keeps the tokens matching.
proof fn lemma_extended_by_one<P: Fn(String) -> u64>(
    parse_number: P,
    now: Seq<TokenView>,
    before: Seq<TokenView>,
    shapes: Seq<TokenView>,
    token: TokenView,
    shape: TokenView,
)
    requires
        extended_by(parse_number, now, before, shapes),
        token_matches(parse_number, token, shape),
    ensures
        extended_by(parse_number, now.push(token), before, shapes.push(shape)),
{
    let n = before.len() as int;
    let next = now.push(token);
    assert(next.subrange(0, n) =~= now.subrange(0, n));
    let part = next.subrange(n, next.len() as int);
    let part_before = now.subrange(n, now.len() as int);
    assert forall|i: int| 0 <= i < part.len() implies token_matches(
        parse_number,
        #[trigger] part[i],
        shapes.push(shape)[i],
    ) by {
        if i < shapes.len() {
            assert(part[i] == part_before[i]);
        }
    }
}

/// The views of tokens with one more behind them.
proof fn lemma_token_views_push(tokens: Seq<Token>, longer: Seq<Token>)
    requires
        longer.len() == tokens.len() + 1,
        longer.drop_last() == tokens,
    ensures
        token_views(longer) == token_views(tokens).push(longer.last()@),
{
    assert forall|i: int| 0 <= i < tokens.len() implies longer[i] == tokens[i] by {
        assert(longer.drop_last()[i] == longer[i]);
    }
    assert(token_views(longer) =~= token_views(tokens).push(longer.last()@));
}

/// One more error on one more line.
proof fn lemma_errors_push(
    errors: Seq<LoxErrorView>,
    before: Seq<LoxErrorView>,
    lines: Seq<nat>,
    line: nat,
)
    requires
        errors == before + lex_errors(lines),
    ensures
        errors.push(lex_error(line)) == before + lex_errors(lines.push(line)),
{
    assert(errors.push(lex_error(line)) =~= before + lex_errors(lines.push(line)));
}

/// A copy of a vector of tokens.
pub fn clone_tokens(tokens: &Vec<Token>) -> (r: Vec<Token>)
    ensures
        token_views(r@) == token_views(tokens@),
{
    let mut copy: Vec<Token> = Vec::new();
    let mut i: usize = 0;
    while i < tokens.len()
        invariant
            i <= tokens.len(),
            copy.len() == i,
            forall|j: int| 0 <= j < i ==> copy[j]@ == tokens[j]@,
        decreases tokens.len() - i,
    {
        copy.push(tokens[i].clone());
        i += 1;
    }
    assert(token_views(copy@) =~= token_views(tokens@));
    copy
}

/// Whether a text is a given word.
fn is_word(text: &String, word: &str) -> (r: bool)
    ensures
        r == (text@ == word@),
{
    let w = String::from_str(word);
    *text == w
}

/// The kind of a name: that of a keyword, or `Identifier`.
pub fn keyword_or_identifier(text: &String) -> (r: TokenType)
    ensures
        r == name_kind(text@),
{
    if is_word(text, "and") {
        TokenType::And
    } else if is_word(text, "class") {
        TokenType::Class
    } else if is_word(text, "else") {
        TokenType::Else
    } else if is_word(text, "false") {
        TokenType::False
    } else if is_word(text, "for") {
        TokenType::For
    } else if is_word(text, "fun") {
        TokenType::Fun
    } else if is_word(text, "if") {
        TokenType::If
    } else if is_word(text, "nil") {
        TokenType::Nil
    } else if is_word(text, "or") {
        TokenType::Or
    } else if is_word(text, "print") {
        TokenType::Print
    } else if is_word(text, "return") {
        TokenType::Return
    } else if is_word(text, "super") {
        TokenType::Super
    } else if is_word(text, "this") {
        TokenType::This
    } else if is_word(text, "true") {
        TokenType::True
    } else if is_word(text, "var") {
        TokenType::Var
    } else if is_word(text, "while") {
        TokenType::While
    } else {
        TokenType::Identifier
    }
}

fn char_is_digit(c: char) -> (r: bool)
    ensures
        r == is_digit(c),
{
    '0' <= c && c <= '9'
}

/// A scanner over one source text. It holds the caller's function
/// `parse_number`, which reads the value of a number from its lexeme.
pub struct Scanner<P> {
    source: String,
    tokens: Vec<Token>,
    current: usize,
    start: usize,
    line: usize,
    length: usize,
    errors: Vec<LoxError>,
    parse_number: P,
}

impl<P: Fn(String) -> u64> Scanner<P> {
    /// The cursor is inside the text, the line count fits, no token carries
    /// `ArithmeticError`, and the caller's function can be called on every
    /// text.
    pub closed spec fn wf(&self) -> bool {
        &&& clean_tokens(token_views(self.tokens@))
        &&& self.length == self.source@.len()
        &&& self.length < usize::MAX
        &&& self.start <= self.current <= self.length
        &&& 1 <= self.line <= self.current + 1
        &&& forall|t: String| #[trigger] self.parse_number.requires((t,))
    }

    /// The source text.
    pub closed spec fn source_view(&self) -> Seq<char> {
        self.source@
    }

    /// The position of the cursor, in characters.
    pub closed spec fn position(&self) -> int {
        self.current as int
    }

    /// The line that the cursor is on.
    pub closed spec fn current_line(&self) -> nat {
        self.line as nat
    }

    /// The tokens read so far.
    pub closed spec fn tokens_view(&self) -> Seq<TokenView> {
        token_views(self.tokens@)
    }

    /// The errors met so far.
    pub closed spec fn errors_view(&self) -> Seq<LoxErrorView> {
        error_views(self.errors@)
    }

    /// The caller's function.
    pub closed spec fn reader(&self) -> P {
        self.parse_number
    }

    /// Nothing but the cursor differs.
    spec fn moved_from(&self, before: &Self) -> bool {
        &&& self.kept_from(before)
        &&& self.tokens == before.tokens
        &&& self.start == before.start
        &&& self.line == before.line
    }

    /// The text, the errors and the caller's function are the same.
    spec fn kept_from(&self, before: &Self) -> bool {
        &&& self.source == before.source
        &&& self.length == before.length
        &&& self.errors == before.errors
        &&& self.parse_number == before.parse_number
    }

    /// One more token was read, with this view.
    spec fn pushed(&self, before: &Self, token: TokenView) -> bool {
        &&& self.tokens@.len() == before.tokens@.len() + 1
        &&& self.tokens@.drop_last() == before.tokens@
        &&& self.tokens@.last()@ == token
    }

    pub fn new(source: String, parse_number: P) -> (r: Self)
        requires
            source@.len() < usize::MAX,
            forall|t: String| #[trigger] parse_number.requires((t,)),
        ensures
            r.wf(),
            r.source_view() == source@,
            r.position() == 0,
            r.current_line() == 1,
            r.tokens_view() == Seq::<TokenView>::empty(),
            r.errors_view() == Seq::<LoxErrorView>::empty(),
            r.reader() == parse_number,
    {
        let length: usize = source.as_str().unicode_len();
        let r = Self {
            source,
            tokens: Vec::new(),
            current: 0,
            start: 0,
            line: 1,
            length,
            errors: Vec::new(),
            parse_number,
        };
        assert(r.tokens_view() =~= Seq::<TokenView>::empty());
        assert(r.errors_view() =~= Seq::<LoxErrorView>::empty());
        r
    }

    fn is_end(&self) -> (r: bool)
        ensures
            r == (self.current >= self.length),
    {
        self.current >= self.length
    }

    fn advance(&mut self) -> (c: char)
        requires
            old(self).wf(),
            old(self).current < old(self).length,
        ensures
            c == old(self).source@[old(self).current as int],
            final(self).current == old(self).current + 1,
            final(self).moved_from(old(self)),
            final(self).wf(),
    {
        let c = self.source.as_str().get_char(self.current);
        self.current += 1;
        c
    }

    fn peek(&self) -> (c: char)
        requires
            self.wf(),
        ensures
            c == peek_at(self.source@, self.current as int),
    {
        if self.is_end() {
            return '\0';
        }
        self.source.as_str().get_char(self.current)
    }

    fn peek_next(&self) -> (c: char)
        requires
            self.wf(),
        ensures
            c == peek_at(self.source@, self.current + 1),
    {
        if self.current + 1 >= self.length {
            return '\0';
        }
        self.source.as_str().get_char(self.current + 1)
    }

    fn is_match(&mut self, expected: char) -> (r: bool)
        requires
            old(self).wf(),
        ensures
            r == follows(old(self).source@, old(self).current as int, expected),
            final(self).current == old(self).current + if r {
                1int
            } else {
                0int
            },
            final(self).moved_from(old(self)),
            final(self).wf(),
    {
        if self.is_end() {
            return false;
        }
        if expected != self.source.as_str().get_char(self.current) {
            return false;
        }
        self.current += 1;
        true
    }

    /// Moves the cursor to the end of a run.
    fn skip(&mut self, run: Run)
        requires
            old(self).wf(),
        ensures
            final(self).current == run_end(old(self).source@, old(self).current as int, run),
            final(self).moved_from(old(self)),
            final(self).wf(),
    {
        loop
            invariant
                self.wf(),
                self.moved_from(old(self)),
                old(self).current <= self.current,
                run_end(self.source@, self.current as int, run) == run_end(
                    old(self).source@,
                    old(self).current as int,
                    run,
                ),
            ensures
                self.current == run_end(old(self).source@, old(self).current as int, run),
            decreases self.length - self.current,
        {
            if self.is_end() {
                break ;
            }
            let c = self.peek();
            let carries = match run {
                Run::Digits => char_is_digit(c),
                Run::Name => char_is_alphabetic(c) || c == '_',
                Run::Comment => c != '\n',
                Run::Text => c != '"',
            };
            if !carries {
                break ;
            }
            self.advance();
        }
    }

    fn add_token(&mut self, ty: TokenType)
        requires
            old(self).wf(),
        ensures
            final(self).kept_from(old(self)),
            final(self).current == old(self).current,
            final(self).start == old(self).start,
            final(self).line == old(self).line,
            final(self).wf(),
            final(self).pushed(
                old(self),
                TokenView {
                    token_type: ty,
                    lexeme: old(self).source@.subrange(
                        old(self).start as int,
                        old(self).current as int,
                    ),
                    line: old(self).line as nat,
                    literal: None,
                },
            ),
    {
        self.add_token_literal(ty, None);
    }

    fn add_token_literal(&mut self, ty: TokenType, literal: Option<Literal>)
        requires
            old(self).wf(),
            literal_option_view(literal) != Some(LiteralView::ArithmeticError),
        ensures
            final(self).kept_from(old(self)),
            final(self).current == old(self).current,
            final(self).start == old(self).start,
            final(self).line == old(self).line,
            final(self).wf(),
            final(self).pushed(
                old(self),
                TokenView {
                    token_type: ty,
                    lexeme: old(self).source@.subrange(
                        old(self).start as int,
                        old(self).current as int,
                    ),
                    line: old(self).line as nat,
                    literal: literal_option_view(literal),
                },
            ),
    {
        let text = String::from_str(substring(self.source.as_str(), self.start, self.current));
        assert(text@ =~= self.source@.subrange(self.start as int, self.current as int));
        let token = Token::new(ty, text, literal, self.line);
        self.tokens.push(token);
        assert(self.tokens@.drop_last() =~= old(self).tokens@);
        assert forall|i: int| 0 <= i < self.tokens@.len() implies (#[trigger] token_views(
            self.tokens@,
        )[i]).literal != Some(LiteralView::ArithmeticError) by {
            if i < old(self).tokens@.len() {
                assert(token_views(self.tokens@)[i] == token_views(old(self).tokens@)[i]);
            }
        }
    }

    fn string(&mut self) -> (r: Result<(), LoxError>)
        requires
            old(self).wf(),
            old(self).start + 1 == old(self).current,
        ensures
            final(self).wf(),
            final(self).kept_from(old(self)),
            final(self).start == old(self).start,
            final(self).current == lex_string(
                old(self).source@,
                old(self).start as int,
                old(self).line as nat,
            ).next,
            final(self).line == lex_string(
                old(self).source@,
                old(self).start as int,
                old(self).line as nat,
            ).line,
            match lex_string(
                old(self).source@,
                old(self).start as int,
                old(self).line as nat,
            ).token {
                Some(t) => r is Ok && final(self).pushed(old(self), t),
                None => r is Err && r->Err_0@ == lex_error(final(self).line as nat)
                    && final(self).tokens == old(self).tokens,
            },
    {
        let ghost s = self.source@;
        let ghost begin = self.current as int;
        proof {
            lemma_run_end(s, begin, Run::Text);
        }
        loop
            invariant
                self.wf(),
                self.kept_from(old(self)),
                self.tokens == old(self).tokens,
                self.start == old(self).start,
                s == self.source@,
                begin == old(self).current,
                begin <= self.current <= run_end(s, begin, Run::Text) <= s.len(),
                run_end(s, self.current as int, Run::Text) == run_end(s, begin, Run::Text),
                self.line == old(self).line + line_feeds(s, begin, self.current as int),
            ensures
                self.current == run_end(s, begin, Run::Text),
            decreases self.length - self.current,
        {
            if self.is_end() {
                break ;
            }
            let c = self.peek();
            if c == '"' {
                break ;
            }
            self.advance();
            proof {
                lemma_run_end(s, self.current as int, Run::Text);
            }
            if c == '\n' {
                self.line += 1;
            }
        }
        if self.is_end() {
            let e = LoxError::new(
                self.line,
                String::new(),
                String::from_str("Unexpected character"),
            );
            return Err(e);
        }
        self.advance();
        let value = String::from_str(
            substring(self.source.as_str(), self.start + 1, self.current - 1),
        );
        assert(value@ =~= s.subrange(self.start + 1, self.current - 1));
        self.add_token_literal(TokenType::String, Some(Literal::String(value)));
        Ok(())
    }

    fn number(&mut self)
        requires
            old(self).wf(),
            old(self).start + 1 == old(self).current,
        ensures
            final(self).wf(),
            final(self).kept_from(old(self)),
            final(self).start == old(self).start,
            final(self).line == old(self).line,
            final(self).current == number_end(old(self).source@, old(self).start as int),
            final(self).tokens@.len() == old(self).tokens@.len() + 1,
            final(self).tokens@.drop_last() == old(self).tokens@,
            token_matches(
                final(self).parse_number,
                final(self).tokens@.last()@,
                plain(
                    TokenType::Number,
                    old(self).source@,
                    old(self).start as int,
                    number_end(old(self).source@, old(self).start as int),
                    old(self).line as nat,
                ).token->Some_0,
            ),
    {
        self.skip(Run::Digits);
        if self.peek() == '.' && char_is_digit(self.peek_next()) {
            self.advance();
            self.skip(Run::Digits);
        }
        let text = String::from_str(substring(self.source.as_str(), self.start, self.current));
        assert(text@ =~= self.source@.subrange(self.start as int, self.current as int));
        let ghost lexeme = text@;
        let bits: u64 = (self.parse_number)(text);
        assert(reads(self.parse_number, lexeme, bits));
        self.add_token_literal(TokenType::Number, Some(Literal::Number(bits)));
    }

    fn identifier(&mut self)
        requires
            old(self).wf(),
            old(self).start + 1 == old(self).current,
        ensures
            final(self).wf(),
            final(self).kept_from(old(self)),
            final(self).start == old(self).start,
            final(self).line == old(self).line,
            final(self).current == run_end(old(self).source@, old(self).start + 1, Run::Name),
            final(self).pushed(
                old(self),
                plain(
                    name_kind(
                        old(self).source@.subrange(
                            old(self).start as int,
                            run_end(old(self).source@, old(self).start + 1, Run::Name),
                        ),
                    ),
                    old(self).source@,
                    old(self).start as int,
                    run_end(old(self).source@, old(self).start + 1, Run::Name),
                    old(self).line as nat,
                ).token->Some_0,
            ),
    {
        self.skip(Run::Name);
        let text = String::from_str(substring(self.source.as_str(), self.start, self.current));
        assert(text@ =~= self.source@.subrange(self.start as int, self.current as int));
        let ty = keyword_or_identifier(&text);
        self.add_token(ty);
    }

    /// Reads one token, or passes over white space or a comment, from the
    /// cursor on.
    fn scan_token(&mut self) -> (r: Result<(), LoxError>)
        requires
            old(self).wf(),
            old(self).start == old(self).current,
            old(self).current < old(self).length,
        ensures
            final(self).wf(),
            final(self).kept_from(old(self)),
            final(self).current == lex(
                old(self).source@,
                old(self).current as int,
                old(self).line as nat,
            ).next,
            final(self).line == lex(
                old(self).source@,
                old(self).current as int,
                old(self).line as nat,
            ).line,
            match lex(old(self).source@, old(self).current as int, old(self).line as nat).token {
                Some(shape) => {
                    &&& final(self).tokens@.len() == old(self).tokens@.len() + 1
                    &&& final(self).tokens@.drop_last() == old(self).tokens@
                    &&& token_matches(final(self).parse_number, final(self).tokens@.last()@, shape)
                },
                None => final(self).tokens == old(self).tokens,
            },
            r is Err == lex(
                old(self).source@,
                old(self).current as int,
                old(self).line as nat,
            ).failed,
            r is Err ==> r->Err_0@ == lex_error(final(self).line as nat),
    {
        let c = self.advance();
        match c {
            '(' => self.add_token(TokenType::LeftParen),
            ')' => self.add_token(TokenType::RightParen),
            '{' => self.add_token(TokenType::LeftBrace),
            '}' => self.add_token(TokenType::RightBrace),
            ',' => self.add_token(TokenType::Comma),
            '.' => self.add_token(TokenType::Dot),
            '-' => self.add_token(TokenType::Minus),
            '+' => self.add_token(TokenType::Plus),
            ';' => self.add_token(TokenType::Semicolon),
            '*' => self.add_token(TokenType::Star),
            '!' => {
                let ty = if self.is_match('=') {
                    TokenType::BangEqual
                } else {
                    TokenType::Bang
                };
                self.add_token(ty)
            },
            '=' => {
                let ty = if self.is_match('=') {
                    TokenType::EqualEqual
                } else {
                    TokenType::Equal
                };
                self.add_token(ty)
            },
            '<' => {
                let ty = if self.is_match('=') {
                    TokenType::LessEqual
                } else {
                    TokenType::Less
                };
                self.add_token(ty)
            },
            '>' => {
                let ty = if self.is_match('=') {
                    TokenType::GreaterEqual
                } else {
                    TokenType::Greater
                };
                self.add_token(ty)
            },
            '/' => {
                if self.is_match('/') {
                    self.skip(Run::Comment);
                } else {
                    self.add_token(TokenType::Slash)
                }
            },
            ' ' => {},
            '\r' => {},
            '\t' => {},
            '\n' => {
                self.line += 1;
            },
            '"' => {
                return self.string();
            },
            _ => {
                if char_is_digit(c) {
                    self.number()
                } else if char_is_alphabetic(c) {
                    self.identifier()
                } else {
                    let e = LoxError::new(
                        self.line,
                        String::new(),
                        String::from_str("Unexpected character"),
                    );
                    return Err(e);
                }
            },
        }
        Ok(())
    }

    /// Scans the rest of the text and adds the end-of-input token.
    ///
    /// The tokens and the errors are kept in the scanner whether or not the
    /// scan fails. It fails where it met an error, with the first one.
    pub fn scan_tokens(&mut self) -> (r: Result<Vec<Token>, LoxError>)
        requires
            old(self).wf(),
        ensures
            final(self).wf(),
            ends_in_eof(final(self).tokens_view()),
            clean_tokens(final(self).tokens_view()),
            final(self).source_view() == old(self).source_view(),
            final(self).reader() == old(self).reader(),
            final(self).position() == final(self).source_view().len(),
            extended_by(
                final(self).reader(),
                final(self).tokens_view(),
                old(self).tokens_view(),
                scan_from(
                    old(self).source_view(),
                    old(self).position(),
                    old(self).current_line(),
                ).tokens,
            ),
            final(self).errors_view() == old(self).errors_view() + lex_errors(
                scan_from(
                    old(self).source_view(),
                    old(self).position(),
                    old(self).current_line(),
                ).errors,
            ),
            match r {
                Ok(v) => {
                    &&& scan_from(
                        old(self).source_view(),
                        old(self).position(),
                        old(self).current_line(),
                    ).errors.len() == 0
                    &&& token_views(v@) == final(self).tokens_view()
                },
                Err(e) => {
                    &&& scan_from(
                        old(self).source_view(),
                        old(self).position(),
                        old(self).current_line(),
                    ).errors.len() > 0
                    &&& e@ == lex_error(
                        scan_from(
                            old(self).source_view(),
                            old(self).position(),
                            old(self).current_line(),
                        ).errors[0],
                    )
                },
            },
    {
        let ghost s = self.source@;
        let ghost whole = scan_from(s, self.current as int, self.line as nat);
        let ghost tokens_before = token_views(self.tokens@);
        let ghost errors_before = error_views(self.errors@);
        let ghost shapes: Seq<TokenView> = Seq::empty();
        let ghost lines: Seq<nat> = Seq::empty();
        let first_error: usize = self.errors.len();
        proof {
            assert(tokens_before.subrange(0, tokens_before.len() as int) =~= tokens_before);
            assert(errors_before + lex_errors(lines) =~= errors_before);
        }
        while !self.is_end()
            invariant
                self.wf(),
                self.source == old(self).source,
                self.length == old(self).length,
                self.parse_number == old(self).parse_number,
                s == self.source@,
                shapes + scan_from(s, self.current as int, self.line as nat).tokens == whole.tokens,
                lines + scan_from(s, self.current as int, self.line as nat).errors == whole.errors,
                extended_by(self.parse_number, token_views(self.tokens@), tokens_before, shapes),
                error_views(self.errors@) == errors_before + lex_errors(lines),
                first_error == errors_before.len(),
            decreases self.length - self.current,
        {
            self.start = self.current;
            let ghost x = lex(s, self.current as int, self.line as nat);
            let ghost rest = scan_from(s, x.next, x.line);
            let ghost tokens_so_far = self.tokens@;
            let ghost errors_so_far = error_views(self.errors@);
            proof {
                lemma_lex_advances(s, self.current as int, self.line as nat);
                assert(shapes + step_tokens(x) + rest.tokens =~= whole.tokens);
                assert(lines + step_errors(x) + rest.errors =~= whole.errors);
            }
            let step = self.scan_token();
            proof {
                if x.token is Some {
                    lemma_token_views_push(tokens_so_far, self.tokens@);
                    lemma_extended_by_one(
                        self.parse_number,
                        token_views(tokens_so_far),
                        tokens_before,
                        shapes,
                        self.tokens@.last()@,
                        x.token->Some_0,
                    );
                    assert(shapes + step_tokens(x) =~= shapes.push(x.token->Some_0));
                } else {
                    assert(shapes + step_tokens(x) =~= shapes);
                }
                shapes = shapes + step_tokens(x);
            }
            match step {
                Ok(()) => {
                    assert(lines + step_errors(x) =~= lines);
                },
                Err(e) => {
                    self.errors.push(e);
                    proof {
                        lemma_errors_push(errors_so_far, errors_before, lines, x.line);
                        assert(error_views(self.errors@) =~= errors_so_far.push(lex_error(x.line)));
                        assert(lines + step_errors(x) =~= lines.push(x.line));
                    }
                },
            }
            proof {
                lines = lines + step_errors(x);
            }
        }
        let ghost tokens_so_far = self.tokens@;
        let end = Token::new(TokenType::Eof, String::new(), None, self.line);
        self.tokens.push(end);
        proof {
            let last = end_token(self.line as nat);
            assert(self.tokens@.drop_last() =~= tokens_so_far);
            lemma_token_views_push(tokens_so_far, self.tokens@);
            lemma_extended_by_one(
                self.parse_number,
                token_views(tokens_so_far),
                tokens_before,
                shapes,
                last,
                last,
            );
            assert(shapes.push(last) =~= whole.tokens);
            assert(lines =~= whole.errors);
            assert(token_views(self.tokens@).last() == last);
            assert forall|i: int| 0 <= i < self.tokens@.len() implies (#[trigger] token_views(
                self.tokens@,
            )[i]).literal != Some(LiteralView::ArithmeticError) by {
                if i < tokens_so_far.len() {
                    assert(token_views(self.tokens@)[i] == token_views(tokens_so_far)[i]);
                }
            }
        }
        if self.errors.len() > first_error {
            let e = self.errors[first_error].clone();
            assert(e@ == error_views(self.errors@)[first_error as int]);
            assert(e@ == lex_errors(whole.errors)[0]);
            return Err(e);
        }
        assert(error_views(self.errors@).len() == errors_before.len() + whole.errors.len());
        Ok(clone_tokens(&self.tokens))
    }

    /// A copy of the tokens read so far.
    pub fn tokens(&self) -> (r: Vec<Token>)
        ensures
            token_views(r@) == self.tokens_view(),
            self.wf() ==> clean_tokens(token_views(r@)),
    {
        clone_tokens(&self.tokens)
    }

    /// A copy of the errors met so far.
    pub fn errors(&self) -> (r: Vec<LoxError>)
        ensures
            error_views(r@) == self.errors_view(),
    {
        let mut copy: Vec<LoxError> = Vec::new();
        let mut i: usize = 0;
        while i < self.errors.len()
            invariant
                i <= self.errors.len(),
                copy.len() == i,
                forall|j: int| 0 <= j < i ==> copy[j]@ == self.errors[j]@,
            decreases self.errors.len() - i,
        {
            copy.push(self.errors[i].clone());
            i += 1;
        }
        assert(error_views(copy@) =~= error_views(self.errors@));
        copy
    }
}

} // verus!
