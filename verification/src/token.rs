use vstd::prelude::*;
use vstd::string::StringExecFns;
use crate::number::shows;

verus! {

/// The kinds of token.
#[derive(Copy, Clone, Debug, PartialEq, Eq, Structural)]
pub enum TokenType {
    // Single-character tokens.
    LeftParen,
    RightParen,
    LeftBrace,
    RightBrace,
    Comma,
    Dot,
    Minus,
    Plus,
    Semicolon,
    Slash,
    Star,
    // One or two character tokens.
    Bang,
    BangEqual,
    Equal,
    EqualEqual,
    Greater,
    GreaterEqual,
    Less,
    LessEqual,
    // Literals.
    Identifier,
    String,
    Number,
    // Keywords.
    And,
    Class,
    Else,
    False,
    Fun,
    For,
    If,
    Nil,
    Or,
    Print,
    Return,
    Super,
    This,
    True,
    Var,
    While,
    Eof,
}

/// A literal or runtime value.
///
/// `Number` holds the bit pattern of an IEEE-754 binary64 value.
/// `ArithmeticError` marks an operation that is not defined on its operands;
/// no literal syntax produces it.
#[derive(Debug, PartialEq)]
pub enum Literal {
    String(String),
    Number(u64),
    Nil,
    Bool(bool),
    ArithmeticError,
}

/// The mathematical value of a [`Literal`].
pub enum LiteralView {
    String(Seq<char>),
    Number(u64),
    Nil,
    Bool(bool),
    ArithmeticError,
}

impl View for Literal {
    type V = LiteralView;

    open spec fn view(&self) -> LiteralView {
        match self {
            Literal::String(s) => LiteralView::String(s@),
            Literal::Number(n) => LiteralView::Number(*n),
            Literal::Nil => LiteralView::Nil,
            Literal::Bool(b) => LiteralView::Bool(*b),
            Literal::ArithmeticError => LiteralView::ArithmeticError,
        }
    }
}

impl Clone for Literal {
    fn clone(&self) -> (r: Self)
        ensures
            r@ == self@,
    {
        match self {
            Literal::String(s) => Literal::String(s.clone()),
            Literal::Number(n) => Literal::Number(*n),
            Literal::Nil => Literal::Nil,
            Literal::Bool(b) => Literal::Bool(*b),
            Literal::ArithmeticError => Literal::ArithmeticError,
        }
    }
}

/// Whether `text` can be the display form of a value: the text of a number
/// as the caller's function shows it, a string as it is, `true`, `false` or
/// `nil`. `ArithmeticError` has no display form.
pub open spec fn displays<S: Fn(u64) -> String>(
    show_number: S,
    v: LiteralView,
    text: Seq<char>,
) -> bool {
    match v {
        LiteralView::Number(n) => shows(show_number, n, text),
        LiteralView::String(s) => text == s,
        LiteralView::Bool(b) => text == if b {
            "true"@
        } else {
            "false"@
        },
        LiteralView::Nil => text == "nil"@,
        LiteralView::ArithmeticError => false,
    }
}

impl Literal {
    /// The display form of a value.
    pub fn to_text<S: Fn(u64) -> String>(&self, show_number: &S) -> (r: String)
        requires
            !(self@ is ArithmeticError),
            forall|n: u64| #[trigger] show_number.requires((n,)),
        ensures
            displays(*show_number, self@, r@),
    {
        match self {
            Literal::Number(n) => {
                let t = show_number(*n);
                assert(shows(*show_number, *n, t@));
                t
            },
            Literal::String(s) => s.clone(),
            Literal::Bool(b) => if *b {
                String::from_str("true")
            } else {
                String::from_str("false")
            },
            Literal::Nil => String::from_str("nil"),
            Literal::ArithmeticError => String::new(),
        }
    }
}

/// The view of an optional literal.
pub open spec fn literal_option_view(literal: Option<Literal>) -> Option<LiteralView> {
    match literal {
        Some(l) => Some(l@),
        None => None,
    }
}

/// Copies an optional literal.
pub fn clone_literal_option(literal: &Option<Literal>) -> (r: Option<Literal>)
    ensures
        literal_option_view(r) == literal_option_view(*literal),
{
    match literal {
        Some(l) => Some(l.clone()),
        None => None,
    }
}

/// One token of the source: its kind, the exact text it was read from, the
/// literal value it denotes (strings and numbers only) and the line it ends on.
#[derive(Debug)]
pub struct Token {
    token_type: TokenType,
    lexeme: String,
    line: usize,
    literal: Option<Literal>,
}

/// The mathematical value of a [`Token`].
pub struct TokenView {
    pub token_type: TokenType,
    pub lexeme: Seq<char>,
    pub line: nat,
    pub literal: Option<LiteralView>,
}

impl View for Token {
    type V = TokenView;

    closed spec fn view(&self) -> TokenView {
        TokenView {
            token_type: self.token_type,
            lexeme: self.lexeme@,
            line: self.line as nat,
            literal: literal_option_view(self.literal),
        }
    }
}

impl Clone for Token {
    fn clone(&self) -> (r: Self)
        ensures
            r@ == self@,
    {
        Token {
            token_type: self.token_type,
            lexeme: self.lexeme.clone(),
            line: self.line,
            literal: clone_literal_option(&self.literal),
        }
    }
}

impl Token {
    pub fn new(token_type: TokenType, lexeme: String, literal: Option<Literal>, line: usize) -> (r:
        Self)
        ensures
            r@ == (TokenView {
                token_type,
                lexeme: lexeme@,
                line: line as nat,
                literal: literal_option_view(literal),
            }),
    {
        Self { token_type, lexeme, line, literal }
    }

    pub fn get_token_type(&self) -> (r: TokenType)
        ensures
            r == self@.token_type,
    {
        self.token_type
    }

    pub fn get_literal(&self) -> (r: &Option<Literal>)
        ensures
            literal_option_view(*r) == self@.literal,
    {
        &self.literal
    }

    pub fn get_line(&self) -> (r: usize)
        ensures
            r as nat == self@.line,
    {
        self.line
    }

    pub fn get_lexeme(&self) -> (r: String)
        ensures
            r@ == self@.lexeme,
    {
        self.lexeme.clone()
    }
}

} // verus!
