use crate::token::{Span, Token, TokenKind};
use vstd::prelude::*;

verus! {

/// What is wrong with a malformed token.
#[derive(Debug, Clone, Copy, PartialEq, Eq, Structural)]
pub enum Problem {
    /// An identifier that runs into an emoji.
    InvalidIdentifier,
    /// A decimal point with no digit after it.
    MissingFraction,
    /// An exponent marker with no digit after it.
    MissingExponent,
    /// A block comment that the input ends inside.
    UnterminatedBlockComment,
    /// A character that starts no token.
    UnknownToken,
    /// An integer literal too large for an `i64`.
    IntegerTooLarge,
}

/// The problem that a token of kind `k` reports, if it reports one.
pub open spec fn problem_of(k: TokenKind) -> Option<Problem> {
    match k {
        TokenKind::InvalidIdent => Some(Problem::InvalidIdentifier),
        TokenKind::InvalidDecimal => Some(Problem::MissingFraction),
        TokenKind::InvalidExponent => Some(Problem::MissingExponent),
        TokenKind::BlockComment { terminated } => if terminated {
            None
        } else {
            Some(Problem::UnterminatedBlockComment)
        },
        TokenKind::Unknown => Some(Problem::UnknownToken),
        TokenKind::InvalidLiteral => Some(Problem::IntegerTooLarge),
        _ => None,
    }
}

pub open spec fn spec_code(p: Problem) -> u32 {
    match p {
        Problem::InvalidIdentifier => 1,
        Problem::MissingFraction => 2,
        Problem::MissingExponent => 3,
        Problem::UnterminatedBlockComment => 4,
        Problem::UnknownToken => 5,
        Problem::IntegerTooLarge => 6,
    }
}

impl Problem {
    /// The number under which the problem is reported.
    pub fn code(&self) -> (r: u32)
        ensures
            r == spec_code(*self),
    {
        match self {
            Problem::InvalidIdentifier => 1,
            Problem::MissingFraction => 2,
            Problem::MissingExponent => 3,
            Problem::UnterminatedBlockComment => 4,
            Problem::UnknownToken => 5,
            Problem::IntegerTooLarge => 6,
        }
    }
}

/// A problem found in the source, and where.
#[derive(Debug, Clone, Copy, PartialEq, Eq, Structural)]
pub struct Diagnostic {
    pub problem: Problem,
    pub span: Span,
}

/// What reports need besides the tokens: the source text and the name of
/// where it came from.
#[derive(Debug, Clone)]
pub struct LErrorHandler {
    code: String,
    file_name: String,
}

impl LErrorHandler {
    pub closed spec fn source_text(&self) -> Seq<char> {
        self.code@
    }

    pub closed spec fn origin(&self) -> Seq<char> {
        self.file_name@
    }

    pub fn new(code: &str, file_name: &str) -> (r: LErrorHandler)
        ensures
            r.source_text() == code@,
            r.origin() == file_name@,
    {
        LErrorHandler { code: code.to_owned(), file_name: file_name.to_owned() }
    }

    /// The diagnostic that `token` calls for, if it is malformed.
    pub fn diagnose(&self, token: &Token) -> (r: Option<Diagnostic>)
        ensures
            r == match problem_of(token.kind) {
                Some(p) => Some(Diagnostic { problem: p, span: token.span }),
                None => None,
            },
    {
        let problem = match &token.kind {
            TokenKind::InvalidIdent => Some(Problem::InvalidIdentifier),
            TokenKind::InvalidDecimal => Some(Problem::MissingFraction),
            TokenKind::InvalidExponent => Some(Problem::MissingExponent),
            TokenKind::BlockComment { terminated: false } => Some(
                Problem::UnterminatedBlockComment,
            ),
            TokenKind::Unknown => Some(Problem::UnknownToken),
            TokenKind::InvalidLiteral => Some(Problem::IntegerTooLarge),
            _ => None,
        };
        match problem {
            Some(p) => Some(Diagnostic { problem: p, span: token.span }),
            None => None,
        }
    }

    /// The source text.
    pub fn code(&self) -> (r: &str)
        ensures
            r@ == self.source_text(),
    {
        self.code.as_str()
    }

    /// The name of where the source came from.
    pub fn file_name(&self) -> (r: &str)
        ensures
            r@ == self.origin(),
    {
        self.file_name.as_str()
    }
}

} // verus!
