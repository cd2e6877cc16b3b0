//! Lexical and syntactic errors, and the lines in which they are reported.

use vstd::prelude::*;
use crate::text::push_decimal;
use crate::text::decimal;

verus! {

/// What went wrong while scanning.
#[derive(Clone, Copy, Debug, PartialEq, Eq, Structural)]
pub enum LexErrorKind {
    /// A string literal met a newline or the end of input before its closing quote.
    UnterminatedString,
    /// A character that starts no token.
    UnexpectedCharacter,
}

/// A lexical error: what went wrong, on which line, and for an unexpected
/// character the character itself.
#[derive(Clone, Copy, Debug, PartialEq, Eq)]
pub struct LexError {
    pub kind: LexErrorKind,
    pub found: Option<char>,
    pub line: usize,
}

/// What went wrong while parsing.
#[derive(Clone, Copy, Debug, PartialEq, Eq, Structural)]
pub enum ParseError {
    /// The current token starts no expression.
    ExpectedExpression,
    /// A grouping was not closed by `)`.
    ExpectedClosingParen,
}

/// What a lexical error says, without its line: `Unterminated string`, or
/// `Unexpected character: ` followed by the character.
pub open spec fn lex_message(error: LexError) -> Seq<char> {
    match error.kind {
        LexErrorKind::UnterminatedString => "Unterminated string"@,
        LexErrorKind::UnexpectedCharacter => "Unexpected character: "@ + match error.found {
            Some(c) => seq![c],
            None => Seq::empty(),
        },
    }
}

/// The line in which a lexical error is reported: `[line N] Error: `, the
/// message, and a full stop.
pub open spec fn lex_report(error: LexError) -> Seq<char> {
    "[line "@ + decimal(error.line as nat) + "] Error: "@ + lex_message(error) + "."@
}

/// What a parse error says.
pub open spec fn parse_message(error: ParseError) -> Seq<char> {
    match error {
        ParseError::ExpectedExpression => "Expected expression"@,
        ParseError::ExpectedClosingParen => "Expected ')' after expression"@,
    }
}

/// The line in which a parse error is reported: `Parse error: ` and the
/// message. It carries no line number.
pub open spec fn parse_report(error: ParseError) -> Seq<char> {
    "Parse error: "@ + parse_message(error)
}

impl LexError {
    /// What the error says, without its line.
    pub fn message(&self) -> (text: String)
        ensures
            text@ == lex_message(*self),
    {
        match self.kind {
            LexErrorKind::UnterminatedString => String::from_str("Unterminated string"),
            LexErrorKind::UnexpectedCharacter => {
                let mut text = String::from_str("Unexpected character: ");
                match self.found {
                    Some(c) => {
                        text.push(c);
                        assert(text@ =~= "Unexpected character: "@ + seq![c]);
                    },
                    None => {
                        assert(text@ =~= "Unexpected character: "@ + Seq::<char>::empty());
                    },
                }
                text
            },
        }
    }

    /// The line in which the error is reported.
    pub fn report(&self) -> (text: String)
        ensures
            text@ == lex_report(*self),
    {
        let mut text = String::from_str("[line ");
        push_decimal(&mut text, self.line);
        text.append("] Error: ");
        let message = self.message();
        text.append(message.as_str());
        text.append(".");
        text
    }
}

impl ParseError {
    /// What the error says.
    pub fn message(&self) -> (text: String)
        ensures
            text@ == parse_message(*self),
    {
        match self {
            ParseError::ExpectedExpression => String::from_str("Expected expression"),
            ParseError::ExpectedClosingParen => String::from_str("Expected ')' after expression"),
        }
    }

    /// The line in which the error is reported.
    pub fn report(&self) -> (text: String)
        ensures
            text@ == parse_report(*self),
    {
        let mut text = String::from_str("Parse error: ");
        let message = self.message();
        text.append(message.as_str());
        text
    }
}

} // verus!
