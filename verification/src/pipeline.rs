use vstd::prelude::*;
use vstd::string::StringExecFns;
use crate::ast_printer::{prints, render};
use crate::error::{LoxError, LoxErrorView};
use crate::grammar::parse_expression;
use crate::interpreter::{Interpreter, interprets, text_result_view};
use crate::lexis::scan;
use crate::number::Arithmetic;
use crate::parser::Parser;
use crate::scanner::{
    Scanner, clone_tokens, error_views, lex_errors, token_views, tokens_match,
};
use crate::token::{Token, TokenView};

verus! {

/// What became of the tokens of a source text.
pub enum Outcome {
    /// They hold no expression: the parser's error.
    NoTree(LoxError),
    /// They hold an expression: its rendering, and the display form of its
    /// value or the failure of its evaluation.
    Evaluated { tree: String, value: Result<String, LoxError> },
}

/// The mathematical value of an [`Outcome`].
pub enum OutcomeView {
    NoTree(LoxErrorView),
    Evaluated { tree: Seq<char>, value: Result<Seq<char>, LoxErrorView> },
}

impl View for Outcome {
    type V = OutcomeView;

    open spec fn view(&self) -> OutcomeView {
        match self {
            Outcome::NoTree(e) => OutcomeView::NoTree(e@),
            Outcome::Evaluated { tree, value } => OutcomeView::Evaluated {
                tree: tree@,
                value: text_result_view(*value),
            },
        }
    }
}

/// The tokens of a source text and what became of them.
pub struct Report {
    pub tokens: Vec<Token>,
    pub outcome: Outcome,
}

/// Whether `outcome` can be what becomes of the tokens: the parser's error,
/// or a rendering of the parsed expression with what interpreting it gives.
pub open spec fn runs<A: Fn(Arithmetic, u64, u64) -> u64, S: Fn(u64) -> String>(
    arithmetic: A,
    show_number: S,
    tokens: Seq<TokenView>,
    outcome: OutcomeView,
) -> bool {
    match parse_expression(tokens, 0) {
        Err(e) => outcome == OutcomeView::NoTree(e),
        Ok((e, next)) => {
            &&& outcome is Evaluated
            &&& prints(show_number, e, outcome->tree)
            &&& interprets(arithmetic, show_number, e, outcome->value)
        },
    }
}

/// Scans, parses, renders and interprets one source text.
///
/// It fails where the scan met an error, with every error of the scan in
/// the order in which they were met. Else it gives the tokens and what
/// became of them.
pub fn run<P: Fn(String) -> u64, A: Fn(Arithmetic, u64, u64) -> u64, S: Fn(u64) -> String>(
    line: &str,
    parse_number: P,
    arithmetic: A,
    show_number: S,
) -> (r: Result<Report, Vec<LoxError>>)
    requires
        line@.len() < usize::MAX,
        forall|t: String| #[trigger] parse_number.requires((t,)),
        forall|op: Arithmetic, a: u64, b: u64| #[trigger] arithmetic.requires((op, a, b)),
        forall|n: u64| #[trigger] show_number.requires((n,)),
    ensures
        match r {
            Ok(report) => {
                &&& scan(line@).errors.len() == 0
                &&& tokens_match(parse_number, token_views(report.tokens@), scan(line@).tokens)
                &&& runs(arithmetic, show_number, token_views(report.tokens@), report.outcome@)
            },
            Err(errors) => {
                &&& scan(line@).errors.len() > 0
                &&& error_views(errors@) == lex_errors(scan(line@).errors)
            },
        },
{
    let mut scanner = Scanner::new(String::from_str(line), parse_number);
    let tokens = match scanner.scan_tokens() {
        Ok(tokens) => tokens,
        Err(e) => {
            let errors = scanner.errors();
            assert(error_views(errors@) =~= lex_errors(scan(line@).errors));
            return Err(errors);
        },
    };
    let ghost views = token_views(tokens@);
    proof {
        assert(views.subrange(0, views.len() as int) =~= views);
    }
    let mut parser = Parser::new(clone_tokens(&tokens));
    let outcome = match parser.expression() {
        Err(e) => Outcome::NoTree(e),
        Ok(expr) => {
            let interpreter = Interpreter::new(arithmetic, show_number);
            let tree = render(&interpreter.show_number, &expr);
            let value = interpreter.interpret(&expr);
            Outcome::Evaluated { tree, value }
        },
    };
    Ok(Report { tokens, outcome })
}

} // verus!
