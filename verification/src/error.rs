use vstd::prelude::*;
use vstd::string::StringExecFns;
use crate::token::{Token, TokenView, TokenType};

verus! {

/// A failure of any stage: where it happened and what went wrong.
#[derive(Debug)]
pub struct LoxError {
    /// The token at which the failure was found, where there is one.
    pub token: Option<Token>,
    pub line: usize,
    /// Where on the line, in words; empty where no token is known.
    pub location: String,
    pub message: String,
}

/// The mathematical value of a [`LoxError`].
pub struct LoxErrorView {
    pub token: Option<TokenView>,
    pub line: nat,
    pub location: Seq<char>,
    pub message: Seq<char>,
}

/// The view of an optional token.
pub open spec fn token_option_view(token: Option<Token>) -> Option<TokenView> {
    match token {
        Some(t) => Some(t@),
        None => None,
    }
}

impl View for LoxError {
    type V = LoxErrorView;

    open spec fn view(&self) -> LoxErrorView {
        LoxErrorView {
            token: token_option_view(self.token),
            line: self.line as nat,
            location: self.location@,
            message: self.message@,
        }
    }
}

/// The character of a decimal digit.
pub open spec fn digit_char(d: int) -> char {
    if d == 0 {
        '0'
    } else if d == 1 {
        '1'
    } else if d == 2 {
        '2'
    } else if d == 3 {
        '3'
    } else if d == 4 {
        '4'
    } else if d == 5 {
        '5'
    } else if d == 6 {
        '6'
    } else if d == 7 {
        '7'
    } else if d == 8 {
        '8'
    } else {
        '9'
    }
}

/// A natural number in decimal, without leading zeros.
pub open spec fn decimal(n: nat) -> Seq<char>
    decreases n,
{
    if n < 10 {
        seq![digit_char(n as int)]
    } else {
        decimal(n / 10).push(digit_char((n % 10) as int))
    }
}

/// A diagnostic: `[line L] Error <where>: <message>`.
pub open spec fn report_text(line: nat, location: Seq<char>, message: Seq<char>) -> Seq<char> {
    "[line "@ + decimal(line) + "] Error "@ + location + ": "@ + message
}

/// Where a token is, in words: `at end` for the end of input, else
/// `at '<lexeme>'`.
pub open spec fn place_of(token: TokenView) -> Seq<char> {
    if token.token_type == TokenType::Eof {
        "at end"@
    } else {
        "at '"@ + token.lexeme + "'"@
    }
}

/// The diagnostic of an error: at its token where it has one, else at the
/// location it names, which is empty for an error of the scanner.
pub open spec fn diagnostic_text(e: LoxErrorView) -> Seq<char> {
    match e.token {
        Some(token) => report_text(token.line, place_of(token), e.message),
        None => report_text(e.line, e.location, e.message),
    }
}

/// The short form of an error: `[line L] error: <message>`.
pub open spec fn short_text(line: nat, message: Seq<char>) -> Seq<char> {
    "[line "@ + decimal(line) + "] error: "@ + message
}

/// The text of a decimal digit.
fn digit_text(d: usize) -> (r: &'static str)
    requires
        d < 10,
    ensures
        r@ == seq![digit_char(d as int)],
{
    proof {
        reveal_strlit("0");
        reveal_strlit("1");
        reveal_strlit("2");
        reveal_strlit("3");
        reveal_strlit("4");
        reveal_strlit("5");
        reveal_strlit("6");
        reveal_strlit("7");
        reveal_strlit("8");
        reveal_strlit("9");
    }
    let r = if d == 0 {
        "0"
    } else if d == 1 {
        "1"
    } else if d == 2 {
        "2"
    } else if d == 3 {
        "3"
    } else if d == 4 {
        "4"
    } else if d == 5 {
        "5"
    } else if d == 6 {
        "6"
    } else if d == 7 {
        "7"
    } else if d == 8 {
        "8"
    } else {
        "9"
    };
    assert(r@ =~= seq![digit_char(d as int)]);
    r
}

/// A line number in decimal.
pub fn line_text(n: usize) -> (r: String)
    ensures
        r@ == decimal(n as nat),
    decreases n,
{
    if n < 10 {
        String::from_str(digit_text(n))
    } else {
        let mut text = line_text(n / 10);
        text.append(digit_text(n % 10));
        assert(text@ =~= decimal(n as nat));
        text
    }
}

/// The error that `new_with_token` makes of a token and a message.
pub open spec fn error_at(token: TokenView, message: Seq<char>) -> LoxErrorView {
    LoxErrorView { token: Some(token), line: token.line, location: Seq::empty(), message }
}

impl Clone for LoxError {
    fn clone(&self) -> (r: Self)
        ensures
            r@ == self@,
    {
        let token = match &self.token {
            Some(t) => Some(t.clone()),
            None => None,
        };
        LoxError {
            token,
            line: self.line,
            location: self.location.clone(),
            message: self.message.clone(),
        }
    }
}

impl LoxError {
    /// An error that knows its line but no token.
    pub fn new(line: usize, location: String, message: String) -> (r: Self)
        ensures
            r@ == (LoxErrorView {
                token: None,
                line: line as nat,
                location: location@,
                message: message@,
            }),
    {
        Self { token: None, line, location, message }
    }

    /// An error at a token: it takes the token's line and keeps the token.
    pub fn new_with_token(token: Token, message: String) -> (r: Self)
        ensures
            r@ == error_at(token@, message@),
    {
        let line = token.get_line();
        Self { token: Some(token), line, location: String::new(), message }
    }

    /// The diagnostic for a failure at a token.
    pub fn error(token: Token, message: String) -> (r: String)
        ensures
            r@ == report_text(token@.line, place_of(token@), message@),
    {
        if token.get_token_type() == TokenType::Eof {
            LoxError::report(token.get_line(), String::from_str("at end"), message)
        } else {
            let mut location = String::from_str("at '");
            location.append(token.get_lexeme().as_str());
            location.append("'");
            LoxError::report(token.get_line(), location, message)
        }
    }

    /// The diagnostic `[line L] Error <where>: <message>`.
    pub fn report(line: usize, location: String, message: String) -> (r: String)
        ensures
            r@ == report_text(line as nat, location@, message@),
    {
        let mut text = String::from_str("[line ");
        text.append(line_text(line).as_str());
        text.append("] Error ");
        text.append(location.as_str());
        text.append(": ");
        text.append(message.as_str());
        text
    }

    /// The diagnostic of this error for the user.
    pub fn diagnostic(&self) -> (r: String)
        ensures
            r@ == diagnostic_text(self@),
    {
        match &self.token {
            Some(token) => LoxError::error(token.clone(), self.message.clone()),
            None => LoxError::report(self.line, self.location.clone(), self.message.clone()),
        }
    }

    /// The diagnostic of this error, with its location.
    pub fn describe(&self) -> (r: String)
        ensures
            r@ == report_text(self@.line, self@.location, self@.message),
    {
        LoxError::report(self.line, self.location.clone(), self.message.clone())
    }

    /// The short form of this error: `[line L] error: <message>`.
    pub fn to_text(&self) -> (r: String)
        ensures
            r@ == short_text(self@.line, self@.message),
    {
        let mut text = String::from_str("[line ");
        text.append(line_text(self.line).as_str());
        text.append("] error: ");
        text.append(self.message.as_str());
        text
    }
}

} // verus!
