use vstd::prelude::*;
use crate::token::{LiteralView, TokenType, TokenView};

verus! {

/// Whether a character has the Unicode property Alphabetic.
pub uninterp spec fn alphabetic(c: char) -> bool;

/// `a` to `z` and `A` to `Z`.
pub open spec fn is_ascii_letter(c: char) -> bool {
    ('a' <= c && c <= 'z') || ('A' <= c && c <= 'Z')
}

/// Whether a character can begin a name: below U+0080 the letters `a` to
/// `z` and `A` to `Z`, from there on the alphabetic characters.
pub open spec fn is_letter(c: char) -> bool {
    if c <= '\u{7f}' {
        is_ascii_letter(c)
    } else {
        alphabetic(c)
    }
}

/// Calls `char::is_alphabetic`. Not proved: that the result is the Unicode
/// property Alphabetic, and that below U+0080 exactly the letters `a` to `z`
/// and `A` to `Z` have it.
#[verifier::external_body]
pub(crate) fn char_is_alphabetic(c: char) -> (r: bool)
    ensures
        c > '\u{7f}' ==> r == alphabetic(c),
        c <= '\u{7f}' ==> r == is_ascii_letter(c),
{
    c.is_alphabetic()
}

/// The decimal digits `0` to `9`.
pub open spec fn is_digit(c: char) -> bool {
    '0' <= c && c <= '9'
}

/// The runs of characters that the scanner passes over in one go.
#[derive(Copy, Clone, Debug, PartialEq, Eq, Structural)]
pub enum Run {
    /// Decimal digits.
    Digits,
    /// Letters and `_`.
    Name,
    /// Anything but a line feed: the rest of a comment.
    Comment,
    /// Anything but `"`: the inside of a string.
    Text,
}

/// Whether a character carries a run on.
pub open spec fn in_run(run: Run, c: char) -> bool {
    match run {
        Run::Digits => is_digit(c),
        Run::Name => is_letter(c) || c == '_',
        Run::Comment => c != '\n',
        Run::Text => c != '"',
    }
}

/// Where a run that starts at `i` ends: the first position at or after `i`
/// whose character does not carry it on, or the end of the text.
pub open spec fn run_end(s: Seq<char>, i: int, run: Run) -> int
    decreases s.len() - i,
{
    if 0 <= i < s.len() && in_run(run, s[i]) {
        run_end(s, i + 1, run)
    } else {
        i
    }
}

/// The number of line feeds from position `from` up to, not including, `to`.
pub open spec fn line_feeds(s: Seq<char>, from: int, to: int) -> nat
    decreases to - from,
{
    if to <= from || to > s.len() || from < 0 {
        0
    } else {
        line_feeds(s, from, to - 1) + if s[to - 1] == '\n' {
            1nat
        } else {
            0nat
        }
    }
}

/// Whether the character at position `i` is `c`.
pub open spec fn follows(s: Seq<char>, i: int, c: char) -> bool {
    0 <= i < s.len() && s[i] == c
}

/// The kind of a keyword, or `Identifier` for any other name.
pub open spec fn name_kind(text: Seq<char>) -> TokenType {
    if text == "and"@ {
        TokenType::And
    } else if text == "class"@ {
        TokenType::Class
    } else if text == "else"@ {
        TokenType::Else
    } else if text == "false"@ {
        TokenType::False
    } else if text == "for"@ {
        TokenType::For
    } else if text == "fun"@ {
        TokenType::Fun
    } else if text == "if"@ {
        TokenType::If
    } else if text == "nil"@ {
        TokenType::Nil
    } else if text == "or"@ {
        TokenType::Or
    } else if text == "print"@ {
        TokenType::Print
    } else if text == "return"@ {
        TokenType::Return
    } else if text == "super"@ {
        TokenType::Super
    } else if text == "this"@ {
        TokenType::This
    } else if text == "true"@ {
        TokenType::True
    } else if text == "var"@ {
        TokenType::Var
    } else if text == "while"@ {
        TokenType::While
    } else {
        TokenType::Identifier
    }
}

/// The kind of a character that is a token by itself.
pub open spec fn single_kind(c: char) -> Option<TokenType> {
    if c == '(' {
        Some(TokenType::LeftParen)
    } else if c == ')' {
        Some(TokenType::RightParen)
    } else if c == '{' {
        Some(TokenType::LeftBrace)
    } else if c == '}' {
        Some(TokenType::RightBrace)
    } else if c == ',' {
        Some(TokenType::Comma)
    } else if c == '.' {
        Some(TokenType::Dot)
    } else if c == '-' {
        Some(TokenType::Minus)
    } else if c == '+' {
        Some(TokenType::Plus)
    } else if c == ';' {
        Some(TokenType::Semicolon)
    } else if c == '*' {
        Some(TokenType::Star)
    } else {
        None
    }
}

/// The kinds of an operator character alone and followed by `=`.
pub open spec fn pair_kinds(c: char) -> Option<(TokenType, TokenType)> {
    if c == '!' {
        Some((TokenType::Bang, TokenType::BangEqual))
    } else if c == '=' {
        Some((TokenType::Equal, TokenType::EqualEqual))
    } else if c == '<' {
        Some((TokenType::Less, TokenType::LessEqual))
    } else if c == '>' {
        Some((TokenType::Greater, TokenType::GreaterEqual))
    } else {
        None
    }
}

/// What one step of the scanner finds: where it stops, the line it is then
/// on, the token it read if any, and whether it met an error (on that line).
pub struct Lexed {
    pub next: int,
    pub line: nat,
    pub token: Option<TokenView>,
    pub failed: bool,
}

/// A token without literal, read from `start` up to `end`.
pub open spec fn plain(kind: TokenType, s: Seq<char>, start: int, end: int, line: nat) -> Lexed {
    Lexed {
        next: end,
        line,
        token: Some(
            TokenView { token_type: kind, lexeme: s.subrange(start, end), line, literal: None },
        ),
        failed: false,
    }
}

/// No token: white space or a comment.
pub open spec fn skipped(next: int, line: nat) -> Lexed {
    Lexed { next, line, token: None, failed: false }
}

/// A string that opens at `start`. It runs to the next `"`; the line feeds
/// in it count. Without a closing `"` it is an error on the last line.
pub open spec fn lex_string(s: Seq<char>, start: int, line: nat) -> Lexed {
    let close = run_end(s, start + 1, Run::Text);
    let last_line = line + line_feeds(s, start + 1, close);
    if close >= s.len() {
        Lexed { next: close, line: last_line, token: None, failed: true }
    } else {
        Lexed {
            next: close + 1,
            line: last_line,
            token: Some(
                TokenView {
                    token_type: TokenType::String,
                    lexeme: s.subrange(start, close + 1),
                    line: last_line,
                    literal: Some(LiteralView::String(s.subrange(start + 1, close))),
                },
            ),
            failed: false,
        }
    }
}

/// Where a number that starts at `start` ends: after its digits, and after
/// a `.` with the digits behind it where at least one digit follows the `.`.
pub open spec fn number_end(s: Seq<char>, start: int) -> int {
    let whole = run_end(s, start + 1, Run::Digits);
    if follows(s, whole, '.') && whole + 1 < s.len() && is_digit(s[whole + 1]) {
        run_end(s, whole + 1, Run::Digits)
    } else {
        whole
    }
}

/// One step of the scanner at position `start`, which is inside the text.
///
/// A number token is given without its literal here: its value is what the
/// caller's function reads from the lexeme.
pub open spec fn lex(s: Seq<char>, start: int, line: nat) -> Lexed {
    let c = s[start];
    if single_kind(c) is Some {
        plain(single_kind(c)->Some_0, s, start, start + 1, line)
    } else if pair_kinds(c) is Some {
        if follows(s, start + 1, '=') {
            plain(pair_kinds(c)->Some_0.1, s, start, start + 2, line)
        } else {
            plain(pair_kinds(c)->Some_0.0, s, start, start + 1, line)
        }
    } else if c == '/' {
        if follows(s, start + 1, '/') {
            skipped(run_end(s, start + 2, Run::Comment), line)
        } else {
            plain(TokenType::Slash, s, start, start + 1, line)
        }
    } else if c == ' ' || c == '\r' || c == '\t' {
        skipped(start + 1, line)
    } else if c == '\n' {
        skipped(start + 1, line + 1)
    } else if c == '"' {
        lex_string(s, start, line)
    } else if is_digit(c) {
        plain(TokenType::Number, s, start, number_end(s, start), line)
    } else if is_letter(c) {
        let end = run_end(s, start + 1, Run::Name);
        plain(name_kind(s.subrange(start, end)), s, start, end, line)
    } else {
        Lexed { next: start + 1, line, token: None, failed: true }
    }
}

/// The end-of-input token.
pub open spec fn end_token(line: nat) -> TokenView {
    TokenView { token_type: TokenType::Eof, lexeme: Seq::empty(), line, literal: None }
}

/// What a scan finds: its tokens, and the line of each error in the order
/// in which they were met.
pub struct Scanned {
    pub tokens: Seq<TokenView>,
    pub errors: Seq<nat>,
}

/// The tokens that a step adds.
pub open spec fn step_tokens(x: Lexed) -> Seq<TokenView> {
    match x.token {
        Some(t) => seq![t],
        None => Seq::empty(),
    }
}

/// The error lines that a step adds.
pub open spec fn step_errors(x: Lexed) -> Seq<nat> {
    if x.failed {
        seq![x.line]
    } else {
        Seq::empty()
    }
}

/// The scan of the text from position `pos` on, which is on line `line`:
/// step after step to the end of the text, then the end-of-input token.
pub open spec fn scan_from(s: Seq<char>, pos: int, line: nat) -> Scanned
    decreases s.len() - pos,
{
    if pos < 0 || pos >= s.len() {
        Scanned { tokens: seq![end_token(line)], errors: Seq::empty() }
    } else {
        let x = lex(s, pos, line);
        if x.next <= pos || x.next > s.len() {
            Scanned { tokens: seq![end_token(line)], errors: Seq::empty() }
        } else {
            let rest = scan_from(s, x.next, x.line);
            Scanned {
                tokens: step_tokens(x) + rest.tokens,
                errors: step_errors(x) + rest.errors,
            }
        }
    }
}

/// The scan of a whole text. Lines count from 1.
pub open spec fn scan(s: Seq<char>) -> Scanned {
    scan_from(s, 0, 1)
}

/// A run ends at or after its start and inside the text, at a character
/// that does not carry it on.
pub proof fn lemma_run_end(s: Seq<char>, i: int, run: Run)
    requires
        0 <= i <= s.len(),
    ensures
        i <= run_end(s, i, run) <= s.len(),
        run_end(s, i, run) < s.len() ==> !in_run(run, s[run_end(s, i, run)]),
        forall|j: int| i <= j < run_end(s, i, run) ==> in_run(run, #[trigger] s[j]),
    decreases s.len() - i,
{
    if i < s.len() && in_run(run, s[i]) {
        lemma_run_end(s, i + 1, run);
    }
}

/// Every step moves forward and stays inside the text.
pub proof fn lemma_lex_advances(s: Seq<char>, start: int, line: nat)
    requires
        0 <= start < s.len(),
    ensures
        start < lex(s, start, line).next <= s.len(),
        line <= lex(s, start, line).line,
{
    lemma_run_end(s, start + 1, Run::Text);
    lemma_run_end(s, start + 1, Run::Digits);
    lemma_run_end(s, start + 1, Run::Name);
    let whole = run_end(s, start + 1, Run::Digits);
    if whole + 1 <= s.len() {
        lemma_run_end(s, whole + 1, Run::Digits);
    }
    if start + 2 <= s.len() {
        lemma_run_end(s, start + 2, Run::Comment);
    }
}

/// The literal of a scanned token is a string or nothing.
pub open spec fn text_or_none(literal: Option<LiteralView>) -> bool {
    literal is None || literal->Some_0 is String
}

/// Every token of a scan carries a string as its literal, or none.
pub proof fn law_scanned_literals(s: Seq<char>, pos: int, line: nat)
    ensures
        forall|i: int|
            0 <= i < scan_from(s, pos, line).tokens.len() ==> text_or_none(
                (#[trigger] scan_from(s, pos, line).tokens[i]).literal,
            ),
    decreases s.len() - pos,
{
    if 0 <= pos < s.len() {
        let x = lex(s, pos, line);
        if pos < x.next <= s.len() {
            law_scanned_literals(s, x.next, x.line);
            let rest = scan_from(s, x.next, x.line);
            let all = scan_from(s, pos, line).tokens;
            assert forall|i: int| 0 <= i < all.len() implies text_or_none(
                (#[trigger] all[i]).literal,
            ) by {
                if i >= step_tokens(x).len() {
                    assert(all[i] == rest.tokens[i - step_tokens(x).len()]);
                }
            }
        }
    }
}

/// A scan ends in the end-of-input token.
pub proof fn law_scan_ends_in_eof(s: Seq<char>, pos: int, line: nat)
    ensures
        scan_from(s, pos, line).tokens.len() > 0,
        scan_from(s, pos, line).tokens.last().token_type == TokenType::Eof,
    decreases s.len() - pos,
{
    if 0 <= pos < s.len() {
        let x = lex(s, pos, line);
        if pos < x.next <= s.len() {
            law_scan_ends_in_eof(s, x.next, x.line);
        }
    }
}

} // verus!
