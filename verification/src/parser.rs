//! The parser: from tokens to a syntax tree, by recursive descent.
//!
//! The grammar has one production: a primary expression is `true`, `false`,
//! `nil`, a number, a string, or an expression between parentheses. The parser
//! never stops at an error: it records it and goes on with a best-effort tree.

use vstd::prelude::*;
use crate::ast::{print_ast, render, Expr, ExprView, LitValue, LitView};
use crate::diag::ParseError;
use crate::token::{unquote, unquoted, RawToken, RawTokenView, TokenKind};

verus! {

/// The kind of a token as the parser sees it, with the payload of the kinds
/// that carry one. Kinds that the grammar has no use for are kept as `Other`.
#[derive(Debug, Clone)]
pub enum TokenType {
    LeftParen,
    RightParen,
    /// A number, with the printed form of its value.
    Number(String),
    /// A string literal, with the text between its quotes.
    StringLit(String),
    /// An identifier, with its name.
    Identifier(String),
    True,
    False,
    Nil,
    Eof,
    Other(TokenKind),
}

/// A token for the parser: its kind and payload, the exact source text that
/// produced it, and the line on which it started.
#[derive(Debug, Clone)]
pub struct Token {
    pub token_type: TokenType,
    pub lexeme: String,
    pub line: usize,
}

/// The mathematical value of a [`TokenType`].
pub enum TokenTypeView {
    LeftParen,
    RightParen,
    Number(Seq<char>),
    StringLit(Seq<char>),
    Identifier(Seq<char>),
    True,
    False,
    Nil,
    Eof,
    Other(TokenKind),
}

/// The mathematical value of a [`Token`].
pub struct TokenView {
    pub token_type: TokenTypeView,
    pub lexeme: Seq<char>,
    pub line: usize,
}

impl View for TokenType {
    type V = TokenTypeView;

    open spec fn view(&self) -> TokenTypeView {
        match self {
            TokenType::LeftParen => TokenTypeView::LeftParen,
            TokenType::RightParen => TokenTypeView::RightParen,
            TokenType::Number(n) => TokenTypeView::Number(n@),
            TokenType::StringLit(s) => TokenTypeView::StringLit(s@),
            TokenType::Identifier(s) => TokenTypeView::Identifier(s@),
            TokenType::True => TokenTypeView::True,
            TokenType::False => TokenTypeView::False,
            TokenType::Nil => TokenTypeView::Nil,
            TokenType::Eof => TokenTypeView::Eof,
            TokenType::Other(kind) => TokenTypeView::Other(*kind),
        }
    }
}

impl View for Token {
    type V = TokenView;

    open spec fn view(&self) -> TokenView {
        TokenView { token_type: self.token_type@, lexeme: self.lexeme@, line: self.line }
    }
}

/// The values of a sequence of tokens, in order.
pub open spec fn token_views(tokens: Seq<Token>) -> Seq<TokenView> {
    tokens.map_values(|t: Token| t@)
}

/// The parser's kind for a raw token. A number takes `number` as the printed
/// form of its value; a string takes the text between its quotes; an
/// identifier takes its lexeme.
pub open spec fn converted_type(raw: RawTokenView, number: Seq<char>) -> TokenTypeView {
    match raw.kind {
        TokenKind::LeftParen => TokenTypeView::LeftParen,
        TokenKind::RightParen => TokenTypeView::RightParen,
        TokenKind::Number => TokenTypeView::Number(number),
        TokenKind::Str => TokenTypeView::StringLit(unquoted(raw.lexeme)),
        TokenKind::Identifier => TokenTypeView::Identifier(raw.lexeme),
        TokenKind::True => TokenTypeView::True,
        TokenKind::False => TokenTypeView::False,
        TokenKind::Nil => TokenTypeView::Nil,
        TokenKind::Eof => TokenTypeView::Eof,
        kind => TokenTypeView::Other(kind),
    }
}

/// The parser's token for a raw token: lexeme and line are kept.
pub open spec fn converted(raw: RawTokenView, number: Seq<char>) -> TokenView {
    TokenView { token_type: converted_type(raw, number), lexeme: raw.lexeme, line: raw.line }
}

/// Converts a raw token into a token for the parser. `number` is the printed
/// form of the value of a number token; for any other kind it is not used.
pub fn convert_token(rtok: RawToken, number: String) -> (token: Token)
    ensures
        token@ == converted(rtok@, number@),
{
    let token_type = match rtok.kind {
        TokenKind::LeftParen => TokenType::LeftParen,
        TokenKind::RightParen => TokenType::RightParen,
        TokenKind::Number => TokenType::Number(number),
        TokenKind::Str => TokenType::StringLit(unquote(rtok.lexeme.as_str())),
        TokenKind::Identifier => TokenType::Identifier(rtok.lexeme.clone()),
        TokenKind::True => TokenType::True,
        TokenKind::False => TokenType::False,
        TokenKind::Nil => TokenType::Nil,
        TokenKind::Eof => TokenType::Eof,
        kind => TokenType::Other(kind),
    };
    Token { token_type, lexeme: rtok.lexeme, line: rtok.line }
}

/// A token sequence that the parser can work on: it is not empty, and it
/// does not end in `(`. Every sequence that ends in the end-of-input token is
/// one. In an empty sequence there is no token to see; after a last `(` the
/// parser would see that `(` for ever and open one grouping after another.
pub open spec fn parsable(tokens: Seq<TokenView>) -> bool {
    tokens.len() >= 1 && !(tokens.last().token_type is LeftParen)
}

/// The index of the token that the parser sees at `pos`: `pos` itself within
/// the tokens, and the last token at and after their end, however far the
/// position lies.
pub open spec fn current_index(tokens: Seq<TokenView>, pos: int) -> int {
    if pos < tokens.len() {
        pos
    } else {
        tokens.len() - 1
    }
}

/// The kind of the token that the parser sees at `pos`.
pub open spec fn current_type(tokens: Seq<TokenView>, pos: int) -> TokenTypeView
    recommends
        0 <= pos,
        tokens.len() >= 1,
{
    tokens[current_index(tokens, pos)].token_type
}

/// The position after consuming the token at `pos`: the next one within the
/// tokens; at and after their end the position stays.
pub open spec fn advanced(tokens: Seq<TokenView>, pos: int) -> int {
    if pos < tokens.len() {
        pos + 1
    } else {
        pos
    }
}

/// What parsing from a position yields: the expression, the position after it,
/// and the errors met on the way, in order.
pub struct Parsed {
    pub expr: ExprView,
    pub next: int,
    pub errors: Seq<ParseError>,
}

/// A literal that takes one token and ends at `next`.
pub open spec fn one_token(value: LitView, next: int) -> Parsed {
    Parsed { expr: ExprView::Literal(value), next, errors: Seq::empty() }
}

/// Parses a primary expression at `pos`.
///
/// A literal token is consumed and gives its literal. `(` is consumed and the
/// expression after it is wrapped in a grouping; a `)` that follows is
/// consumed, and its absence is an error that leaves the grouping in place.
/// Any other token is an error: it gives a `nil` literal and is not consumed.
pub open spec fn parse_primary(tokens: Seq<TokenView>, pos: int) -> Parsed
    decreases tokens.len() - pos,
    when 0 <= pos && parsable(tokens)
{
    let next = advanced(tokens, pos);
    match current_type(tokens, pos) {
        TokenTypeView::True => one_token(LitView::Boolean(true), next),
        TokenTypeView::False => one_token(LitView::Boolean(false), next),
        TokenTypeView::Nil => one_token(LitView::Nil, next),
        TokenTypeView::Number(n) => one_token(LitView::Number(n), next),
        TokenTypeView::StringLit(s) => one_token(LitView::Str(s), next),
        TokenTypeView::LeftParen => {
            let inner = parse_primary(tokens, next);
            if current_type(tokens, inner.next) is RightParen {
                Parsed {
                    expr: ExprView::Grouping(Box::new(inner.expr)),
                    next: advanced(tokens, inner.next),
                    errors: inner.errors,
                }
            } else {
                Parsed {
                    expr: ExprView::Grouping(Box::new(inner.expr)),
                    next: inner.next,
                    errors: inner.errors.push(ParseError::ExpectedClosingParen),
                }
            }
        },
        _ => Parsed {
            expr: ExprView::Literal(LitView::Nil),
            next: pos,
            errors: seq![ParseError::ExpectedExpression],
        },
    }
}

/// Parses an expression at `pos`: in this grammar, a primary expression.
pub open spec fn parse_expression(tokens: Seq<TokenView>, pos: int) -> Parsed {
    parse_primary(tokens, pos)
}

/// A recursive-descent parser over a sequence of tokens.
pub struct Parser {
    pub tokens: Vec<Token>,
    pub current: usize,
    pub errors: Vec<ParseError>,
}

impl Parser {
    /// The values of the parser's tokens.
    pub open spec fn input(&self) -> Seq<TokenView> {
        token_views(self.tokens@)
    }

    /// A parser at the first of `tokens`, with no error recorded.
    pub fn new(tokens: Vec<Token>) -> (parser: Parser)
        ensures
            parser.tokens == tokens,
            parser.current == 0,
            parser.errors@.len() == 0,
    {
        Parser { tokens, current: 0, errors: Vec::new() }
    }

    /// Whether any error was recorded.
    pub fn had_error(&self) -> (flag: bool)
        ensures
            flag == (self.errors@.len() > 0),
    {
        self.errors.len() > 0
    }

    /// The token that the parser sees: the current one, and at and after the
    /// end of the tokens the last one, however often it is asked for.
    pub fn peek_token(&self) -> (token: &Token)
        requires
            self.tokens@.len() >= 1,
        ensures
            *token == self.tokens@[if self.current < self.tokens@.len() {
                self.current as int
            } else {
                self.tokens@.len() - 1
            }],
            token.token_type@ == current_type(self.input(), self.current as int),
    {
        if self.current >= self.tokens.len() {
            &self.tokens[self.tokens.len() - 1]
        } else {
            &self.tokens[self.current]
        }
    }

    /// Whether the parser can work on `tokens`: they are not empty and do not
    /// end in `(`.
    pub fn can_parse(tokens: &Vec<Token>) -> (b: bool)
        ensures
            b == parsable(token_views(tokens@)),
    {
        let n: usize = tokens.len();
        n >= 1 && !matches!(tokens[n - 1].token_type, TokenType::LeftParen)
    }

    /// Moves to the next token; at the end of the tokens the parser stays.
    pub fn advance(&mut self)
        ensures
            final(self).tokens == old(self).tokens,
            final(self).errors == old(self).errors,
            final(self).current == if old(self).current < old(self).tokens@.len() {
                old(self).current + 1
            } else {
                old(self).current as int
            },
    {
        if self.current < self.tokens.len() {
            self.current += 1;
        }
    }

    /// Records an error.
    pub fn error(&mut self, what: ParseError)
        ensures
            final(self).tokens == old(self).tokens,
            final(self).current == old(self).current,
            final(self).errors@ == old(self).errors@.push(what),
    {
        self.errors.push(what);
    }

    /// Parses an expression at the current token.
    pub fn expression(&mut self) -> (expr: Expr)
        requires
            parsable(old(self).input()),
        ensures
            final(self).tokens == old(self).tokens,
            expr@ == parse_expression(old(self).input(), old(self).current as int).expr,
            final(self).current == parse_expression(old(self).input(), old(self).current as int).next,
            final(self).errors@ == old(self).errors@ + parse_expression(
                old(self).input(),
                old(self).current as int,
            ).errors,
        decreases old(self).tokens@.len() - old(self).current, 1int,
    {
        self.primary()
    }

    /// Parses a primary expression at the current token.
    pub fn primary(&mut self) -> (expr: Expr)
        requires
            parsable(old(self).input()),
        ensures
            final(self).tokens == old(self).tokens,
            expr@ == parse_primary(old(self).input(), old(self).current as int).expr,
            final(self).current == parse_primary(old(self).input(), old(self).current as int).next,
            final(self).errors@ == old(self).errors@ + parse_primary(
                old(self).input(),
                old(self).current as int,
            ).errors,
        decreases old(self).tokens@.len() - old(self).current, 0int,
    {
        let ghost input = self.input();
        let ghost start = self.current as int;
        let ghost before = self.errors@;
        let found: Option<Expr> = match &self.peek_token().token_type {
            TokenType::True => Some(Expr::Literal(LitValue::Boolean(true))),
            TokenType::False => Some(Expr::Literal(LitValue::Boolean(false))),
            TokenType::Nil => Some(Expr::Literal(LitValue::Nil)),
            TokenType::Number(n) => Some(Expr::Literal(LitValue::Number(n.clone()))),
            TokenType::StringLit(s) => Some(Expr::Literal(LitValue::Str(s.clone()))),
            _ => None,
        };
        match found {
            Some(literal) => {
                self.advance();
                assert(self.errors@ =~= before + Seq::<ParseError>::empty());
                literal
            },
            None => {
                if self.at_left_paren() {
                    self.advance();
                    let inner = self.expression();
                    let ghost sub = parse_primary(input, start + 1);
                    assert(start + 1 == advanced(input, start));
                    if self.at_right_paren() {
                        self.advance();
                    } else {
                        self.error(ParseError::ExpectedClosingParen);
                        assert(self.errors@ =~= before + sub.errors.push(
                            ParseError::ExpectedClosingParen,
                        ));
                    }
                    Expr::Grouping(Box::new(inner))
                } else {
                    self.error(ParseError::ExpectedExpression);
                    assert(self.errors@ =~= before + seq![ParseError::ExpectedExpression]);
                    Expr::Literal(LitValue::Nil)
                }
            },
        }
    }

    fn at_left_paren(&self) -> (b: bool)
        requires
            self.tokens@.len() >= 1,
        ensures
            b == (current_type(self.input(), self.current as int) is LeftParen),
    {
        matches!(self.peek_token().token_type, TokenType::LeftParen)
    }

    fn at_right_paren(&self) -> (b: bool)
        requires
            self.tokens@.len() >= 1,
        ensures
            b == (current_type(self.input(), self.current as int) is RightParen),
    {
        matches!(self.peek_token().token_type, TokenType::RightParen)
    }

    /// Parses one expression. The tree is returned only if no error is on
    /// record afterwards.
    pub fn parse(&mut self) -> (ast: Option<Expr>)
        requires
            parsable(old(self).input()),
        ensures
            final(self).tokens == old(self).tokens,
            final(self).current == parse_expression(old(self).input(), old(self).current as int).next,
            final(self).errors@ == old(self).errors@ + parse_expression(
                old(self).input(),
                old(self).current as int,
            ).errors,
            match ast {
                Some(expr) => final(self).errors@.len() == 0 && expr@ == parse_expression(
                    old(self).input(),
                    old(self).current as int,
                ).expr,
                None => final(self).errors@.len() > 0,
            },
    {
        let expr = self.expression();
        if self.had_error() {
            None
        } else {
            Some(expr)
        }
    }
}

/// The outcome of parsing a token sequence: the errors met, in order; the
/// printed form of the tree, present only when nothing went wrong; and a flag
/// that is set when scanning or parsing met an error.
#[derive(Debug)]
pub struct ParseReport {
    pub had_error: bool,
    pub text: Option<String>,
    pub errors: Vec<ParseError>,
}

/// Parses `tokens` as one expression and renders the tree. `lexical_error`
/// tells whether scanning met an error; the tree is rendered only if neither
/// scanning nor parsing did.
pub fn parse_tokens(tokens: Vec<Token>, lexical_error: bool) -> (report: ParseReport)
    requires
        parsable(token_views(tokens@)),
    ensures
        report.errors@ == parse_expression(token_views(tokens@), 0).errors,
        report.had_error == (lexical_error || report.errors@.len() > 0),
        match report.text {
            Some(text) => !report.had_error && text@ == render(
                parse_expression(token_views(tokens@), 0).expr,
            ),
            None => report.had_error,
        },
{
    let mut parser = Parser::new(tokens);
    let ast = parser.parse();
    let parse_error = parser.had_error();
    let text = match ast {
        Some(expr) => if lexical_error {
            None
        } else {
            Some(print_ast(&expr))
        },
        None => None,
    };
    assert(parser.errors@ =~= parse_expression(token_views(tokens@), 0).errors);
    ParseReport { had_error: lexical_error || parse_error, text, errors: parser.errors }
}

} // verus!
