//! The vocabulary shared by the scanner, the parser and the printer.

use vstd::prelude::*;

verus! {

/// The classification of a token, without any payload.
#[derive(Clone, Copy, Debug, PartialEq, Eq, Structural)]
pub enum TokenKind {
    LeftParen,
    RightParen,
    LeftBrace,
    RightBrace,
    Star,
    Dot,
    Plus,
    Comma,
    Minus,
    Semicolon,
    Slash,
    Less,
    LessEqual,
    Greater,
    GreaterEqual,
    Bang,
    BangEqual,
    Equal,
    EqualEqual,
    Number,
    Str,
    Identifier,
    And,
    Class,
    Else,
    False,
    For,
    Fun,
    If,
    Nil,
    Or,
    Print,
    Return,
    Super,
    This,
    True,
    Var,
    While,
    Eof,
}

/// The upper-case name under which a kind is listed.
pub open spec fn kind_name(kind: TokenKind) -> Seq<char> {
    match kind {
        TokenKind::LeftParen => "LEFT_PAREN"@,
        TokenKind::RightParen => "RIGHT_PAREN"@,
        TokenKind::LeftBrace => "LEFT_BRACE"@,
        TokenKind::RightBrace => "RIGHT_BRACE"@,
        TokenKind::Star => "STAR"@,
        TokenKind::Dot => "DOT"@,
        TokenKind::Plus => "PLUS"@,
        TokenKind::Comma => "COMMA"@,
        TokenKind::Minus => "MINUS"@,
        TokenKind::Semicolon => "SEMICOLON"@,
        TokenKind::Slash => "SLASH"@,
        TokenKind::Less => "LESS"@,
        TokenKind::LessEqual => "LESS_EQUAL"@,
        TokenKind::Greater => "GREATER"@,
        TokenKind::GreaterEqual => "GREATER_EQUAL"@,
        TokenKind::Bang => "BANG"@,
        TokenKind::BangEqual => "BANG_EQUAL"@,
        TokenKind::Equal => "EQUAL"@,
        TokenKind::EqualEqual => "EQUAL_EQUAL"@,
        TokenKind::Number => "NUMBER"@,
        TokenKind::Str => "STRING"@,
        TokenKind::Identifier => "IDENTIFIER"@,
        TokenKind::And => "AND"@,
        TokenKind::Class => "CLASS"@,
        TokenKind::Else => "ELSE"@,
        TokenKind::False => "FALSE"@,
        TokenKind::For => "FOR"@,
        TokenKind::Fun => "FUN"@,
        TokenKind::If => "IF"@,
        TokenKind::Nil => "NIL"@,
        TokenKind::Or => "OR"@,
        TokenKind::Print => "PRINT"@,
        TokenKind::Return => "RETURN"@,
        TokenKind::Super => "SUPER"@,
        TokenKind::This => "THIS"@,
        TokenKind::True => "TRUE"@,
        TokenKind::Var => "VAR"@,
        TokenKind::While => "WHILE"@,
        TokenKind::Eof => "EOF"@,
    }
}

impl TokenKind {
    /// The upper-case name under which this kind is listed.
    pub fn name(self) -> (name: &'static str)
        ensures
            name@ == kind_name(self),
    {
        match self {
            TokenKind::LeftParen => "LEFT_PAREN",
            TokenKind::RightParen => "RIGHT_PAREN",
            TokenKind::LeftBrace => "LEFT_BRACE",
            TokenKind::RightBrace => "RIGHT_BRACE",
            TokenKind::Star => "STAR",
            TokenKind::Dot => "DOT",
            TokenKind::Plus => "PLUS",
            TokenKind::Comma => "COMMA",
            TokenKind::Minus => "MINUS",
            TokenKind::Semicolon => "SEMICOLON",
            TokenKind::Slash => "SLASH",
            TokenKind::Less => "LESS",
            TokenKind::LessEqual => "LESS_EQUAL",
            TokenKind::Greater => "GREATER",
            TokenKind::GreaterEqual => "GREATER_EQUAL",
            TokenKind::Bang => "BANG",
            TokenKind::BangEqual => "BANG_EQUAL",
            TokenKind::Equal => "EQUAL",
            TokenKind::EqualEqual => "EQUAL_EQUAL",
            TokenKind::Number => "NUMBER",
            TokenKind::Str => "STRING",
            TokenKind::Identifier => "IDENTIFIER",
            TokenKind::And => "AND",
            TokenKind::Class => "CLASS",
            TokenKind::Else => "ELSE",
            TokenKind::False => "FALSE",
            TokenKind::For => "FOR",
            TokenKind::Fun => "FUN",
            TokenKind::If => "IF",
            TokenKind::Nil => "NIL",
            TokenKind::Or => "OR",
            TokenKind::Print => "PRINT",
            TokenKind::Return => "RETURN",
            TokenKind::Super => "SUPER",
            TokenKind::This => "THIS",
            TokenKind::True => "TRUE",
            TokenKind::Var => "VAR",
            TokenKind::While => "WHILE",
            TokenKind::Eof => "EOF",
        }
    }
}

/// A token as the scanner produces it: its kind, the exact source text that
/// produced it, and the line on which it started (counted from 1).
#[derive(Debug)]
pub struct RawToken {
    pub kind: TokenKind,
    pub lexeme: String,
    pub line: usize,
}

/// The mathematical value of a [`RawToken`].
pub struct RawTokenView {
    pub kind: TokenKind,
    pub lexeme: Seq<char>,
    pub line: usize,
}

impl View for RawToken {
    type V = RawTokenView;

    open spec fn view(&self) -> RawTokenView {
        RawTokenView { kind: self.kind, lexeme: self.lexeme@, line: self.line }
    }
}

/// The values of a sequence of raw tokens, in order.
pub open spec fn raw_views(tokens: Seq<RawToken>) -> Seq<RawTokenView> {
    tokens.map_values(|t: RawToken| t@)
}

/// The reserved word table: the kind that a word is reserved for, if any.
/// The match is exact and case-sensitive.
pub open spec fn keyword_kind(word: Seq<char>) -> Option<TokenKind> {
    if word == "and"@ {
        Some(TokenKind::And)
    } else if word == "class"@ {
        Some(TokenKind::Class)
    } else if word == "else"@ {
        Some(TokenKind::Else)
    } else if word == "false"@ {
        Some(TokenKind::False)
    } else if word == "for"@ {
        Some(TokenKind::For)
    } else if word == "fun"@ {
        Some(TokenKind::Fun)
    } else if word == "if"@ {
        Some(TokenKind::If)
    } else if word == "nil"@ {
        Some(TokenKind::Nil)
    } else if word == "or"@ {
        Some(TokenKind::Or)
    } else if word == "print"@ {
        Some(TokenKind::Print)
    } else if word == "return"@ {
        Some(TokenKind::Return)
    } else if word == "super"@ {
        Some(TokenKind::Super)
    } else if word == "this"@ {
        Some(TokenKind::This)
    } else if word == "true"@ {
        Some(TokenKind::True)
    } else if word == "var"@ {
        Some(TokenKind::Var)
    } else if word == "while"@ {
        Some(TokenKind::While)
    } else {
        None
    }
}

/// The kind of an identifier-shaped word: its reserved kind if the word is in
/// the keyword table, `Identifier` otherwise.
pub open spec fn word_kind(word: Seq<char>) -> TokenKind {
    match keyword_kind(word) {
        Some(kind) => kind,
        None => TokenKind::Identifier,
    }
}

/// Whether two string slices hold the same characters.
pub fn same_text(a: &str, b: &str) -> (same: bool)
    ensures
        same == (a@ == b@),
{
    let x = String::from_str(a);
    let y = String::from_str(b);
    x == y
}

/// Classifies an identifier-shaped word as a keyword or a plain identifier.
pub fn identify_keyword(s: &str) -> (kind: TokenKind)
    ensures
        kind == word_kind(s@),
{
    if same_text(s, "and") {
        TokenKind::And
    } else if same_text(s, "class") {
        TokenKind::Class
    } else if same_text(s, "else") {
        TokenKind::Else
    } else if same_text(s, "false") {
        TokenKind::False
    } else if same_text(s, "for") {
        TokenKind::For
    } else if same_text(s, "fun") {
        TokenKind::Fun
    } else if same_text(s, "if") {
        TokenKind::If
    } else if same_text(s, "nil") {
        TokenKind::Nil
    } else if same_text(s, "or") {
        TokenKind::Or
    } else if same_text(s, "print") {
        TokenKind::Print
    } else if same_text(s, "return") {
        TokenKind::Return
    } else if same_text(s, "super") {
        TokenKind::Super
    } else if same_text(s, "this") {
        TokenKind::This
    } else if same_text(s, "true") {
        TokenKind::True
    } else if same_text(s, "var") {
        TokenKind::Var
    } else if same_text(s, "while") {
        TokenKind::While
    } else {
        TokenKind::Identifier
    }
}

/// The text between the first and the last character of a lexeme; empty for a
/// lexeme of fewer than two characters.
pub open spec fn unquoted(lexeme: Seq<char>) -> Seq<char> {
    if lexeme.len() >= 2 {
        lexeme.subrange(1, lexeme.len() - 1)
    } else {
        Seq::empty()
    }
}

/// The text between the first and the last character of `lexeme`.
pub fn unquote(lexeme: &str) -> (text: String)
    ensures
        text@ == unquoted(lexeme@),
{
    let n: usize = lexeme.unicode_len();
    if n >= 2 {
        String::from_str(lexeme.substring_char(1, n - 1))
    } else {
        String::new()
    }
}

/// The literal column of a token's listing: the printed form of a number's
/// value, the text of a string, and `null` for every other kind.
pub open spec fn literal_text(token: RawTokenView, number: Seq<char>) -> Seq<char> {
    match token.kind {
        TokenKind::Number => number,
        TokenKind::Str => unquoted(token.lexeme),
        _ => "null"@,
    }
}

/// The listing of a token: the name of its kind, its lexeme and its literal,
/// separated by single spaces.
pub open spec fn token_line(token: RawTokenView, number: Seq<char>) -> Seq<char> {
    kind_name(token.kind) + " "@ + token.lexeme + " "@ + literal_text(token, number)
}

impl RawToken {
    /// The listing of this token. `number` is the printed form of the value of
    /// a number token; for any other kind it is not used.
    pub fn listing(&self, number: &str) -> (line: String)
        ensures
            line@ == token_line(self@, number@),
    {
        let mut line = String::from_str(self.kind.name());
        line.append(" ");
        line.append(self.lexeme.as_str());
        line.append(" ");
        match self.kind {
            TokenKind::Number => {
                line.append(number);
            },
            TokenKind::Str => {
                let text = unquote(self.lexeme.as_str());
                line.append(text.as_str());
            },
            _ => {
                line.append("null");
            },
        }
        line
    }
}

} // verus!
