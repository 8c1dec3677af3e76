//! The errors of the statement parser.
use vstd::prelude::*;
use vstd::string::StringExecFns;

verus! {

/// Why a parse failed. The first error ends the parse; nothing is recovered.
#[derive(Debug, PartialEq)]
pub enum ParseError {
    /// A token was required and the sequence was exhausted.
    UnexpectedEnd,
    /// Another token stood where the named keyword was required.
    ExpectedKeyword(String),
    /// Another token stood where an identifier was required.
    ExpectedIdentifier,
    /// The expression parser failed, with its message.
    InvalidExpression(String),
    /// The first token starts no statement; it is described.
    UnknownStartOfStatement(String),
    /// Any other mismatch, with a message.
    General(String),
}

/// What a `ParseError` holds, with text as a sequence of characters.
pub enum ParseErrorView {
    UnexpectedEnd,
    ExpectedKeyword(Seq<char>),
    ExpectedIdentifier,
    InvalidExpression(Seq<char>),
    UnknownStartOfStatement(Seq<char>),
    General(Seq<char>),
}

impl View for ParseError {
    type V = ParseErrorView;

    open spec fn view(&self) -> ParseErrorView {
        match self {
            ParseError::UnexpectedEnd => ParseErrorView::UnexpectedEnd,
            ParseError::ExpectedKeyword(k) => ParseErrorView::ExpectedKeyword(k@),
            ParseError::ExpectedIdentifier => ParseErrorView::ExpectedIdentifier,
            ParseError::InvalidExpression(e) => ParseErrorView::InvalidExpression(e@),
            ParseError::UnknownStartOfStatement(t) => ParseErrorView::UnknownStartOfStatement(t@),
            ParseError::General(e) => ParseErrorView::General(e@),
        }
    }
}

impl ParseErrorView {
    /// The message that is shown for an error.
    pub open spec fn message(self) -> Seq<char> {
        match self {
            ParseErrorView::UnexpectedEnd => "Unexpected end of input, Please check once again"@,
            ParseErrorView::ExpectedKeyword(k) => "Expected keyword: "@ + k,
            ParseErrorView::ExpectedIdentifier => "Expected an identifier, Check once again"@,
            ParseErrorView::InvalidExpression(e) => "Invalid expression: "@ + e,
            ParseErrorView::UnknownStartOfStatement(t) => "Unknown start of statement: "@ + t,
            ParseErrorView::General(e) => e,
        }
    }
}

impl ParseError {
    /// The message that is shown for this error.
    pub fn message(&self) -> (text: String)
        ensures
            text@ == self@.message(),
    {
        match self {
            ParseError::UnexpectedEnd => "Unexpected end of input, Please check once again"
                .to_string(),
            ParseError::ExpectedKeyword(k) => "Expected keyword: ".to_string().concat(k.as_str()),
            ParseError::ExpectedIdentifier => "Expected an identifier, Check once again"
                .to_string(),
            ParseError::InvalidExpression(e) => "Invalid expression: ".to_string().concat(
                e.as_str(),
            ),
            ParseError::UnknownStartOfStatement(t) => "Unknown start of statement: "
                .to_string().concat(t.as_str()),
            ParseError::General(e) => e.clone(),
        }
    }
}

} // verus!
