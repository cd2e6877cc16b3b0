//! The scanner: from source characters to raw tokens and lexical errors.
//!
//! The rules are stated as spec functions over the sequence of characters. One
//! step classifies what starts at a position and says where it ends; the token
//! and error sequences are the steps taken from the first position to the end.

use vstd::prelude::*;
use crate::diag::{LexError, LexErrorKind};
use crate::text::{alphanumeric, chars_of, is_alphanumeric, slice_to_string};
use crate::token::{identify_keyword, raw_views, word_kind, RawToken, RawTokenView, TokenKind};

verus! {

/// An ASCII decimal digit.
pub open spec fn is_digit(c: char) -> bool {
    '0' <= c && c <= '9'
}

/// An ASCII letter.
pub open spec fn is_ascii_letter(c: char) -> bool {
    ('a' <= c && c <= 'z') || ('A' <= c && c <= 'Z')
}

/// A character that may start an identifier: an ASCII letter or an underscore.
pub open spec fn is_ident_start(c: char) -> bool {
    is_ascii_letter(c) || c == '_'
}

/// Whether a character may continue an identifier, given whether it is
/// alphanumeric: an underscore may, and so may an alphanumeric character.
/// Within ASCII the letters and digits are the alphanumeric characters;
/// beyond ASCII, `alphanumeric` decides.
pub open spec fn continues_identifier(c: char, alphanumeric: bool) -> bool {
    c == '_' || if c <= '\x7f' {
        is_ascii_letter(c) || is_digit(c)
    } else {
        alphanumeric
    }
}

/// A character that may continue an identifier: an underscore or an
/// alphanumeric character, by the Unicode classification.
pub open spec fn is_ident_part(c: char) -> bool {
    continues_identifier(c, alphanumeric(c))
}

/// The kind of a punctuation character that is always a token by itself.
pub open spec fn single_kind(c: char) -> Option<TokenKind> {
    if c == '(' {
        Some(TokenKind::LeftParen)
    } else if c == ')' {
        Some(TokenKind::RightParen)
    } else if c == '{' {
        Some(TokenKind::LeftBrace)
    } else if c == '}' {
        Some(TokenKind::RightBrace)
    } else if c == '*' {
        Some(TokenKind::Star)
    } else if c == '.' {
        Some(TokenKind::Dot)
    } else if c == '+' {
        Some(TokenKind::Plus)
    } else if c == ',' {
        Some(TokenKind::Comma)
    } else if c == '-' {
        Some(TokenKind::Minus)
    } else if c == ';' {
        Some(TokenKind::Semicolon)
    } else {
        None
    }
}

/// For a character that may combine with a following `=`: the kind of the
/// character alone and the kind of the combination.
pub open spec fn operator_kinds(c: char) -> Option<(TokenKind, TokenKind)> {
    if c == '<' {
        Some((TokenKind::Less, TokenKind::LessEqual))
    } else if c == '>' {
        Some((TokenKind::Greater, TokenKind::GreaterEqual))
    } else if c == '!' {
        Some((TokenKind::Bang, TokenKind::BangEqual))
    } else if c == '=' {
        Some((TokenKind::Equal, TokenKind::EqualEqual))
    } else {
        None
    }
}

/// Whether the character after position `pos` is `c`.
pub open spec fn followed_by(s: Seq<char>, pos: int, c: char) -> bool {
    pos + 1 < s.len() && s[pos + 1] == c
}

/// Where a line comment ends: the first newline at or after `i`, or the end of input.
pub open spec fn comment_end(s: Seq<char>, i: int) -> int
    decreases s.len() - i,
{
    if 0 <= i < s.len() && s[i] != '\n' {
        comment_end(s, i + 1)
    } else {
        i
    }
}

/// Where the body of a string literal stops: the first double quote or newline
/// at or after `i`, or the end of input.
pub open spec fn string_stop(s: Seq<char>, i: int) -> int
    decreases s.len() - i,
{
    if 0 <= i < s.len() && s[i] != '"' && s[i] != '\n' {
        string_stop(s, i + 1)
    } else {
        i
    }
}

/// Where an identifier ends: the first position at or after `i` whose character
/// cannot continue an identifier.
pub open spec fn ident_end(s: Seq<char>, i: int) -> int
    decreases s.len() - i,
{
    if 0 <= i < s.len() && is_ident_part(s[i]) {
        ident_end(s, i + 1)
    } else {
        i
    }
}

/// Where a number ends: digits are taken greedily, and one `.` is taken if none
/// was seen before, whatever follows it.
pub open spec fn number_end(s: Seq<char>, i: int, seen_dot: bool) -> int
    decreases s.len() - i,
{
    if 0 <= i < s.len() && is_digit(s[i]) {
        number_end(s, i + 1, seen_dot)
    } else if 0 <= i < s.len() && s[i] == '.' && !seen_dot {
        number_end(s, i + 1, true)
    } else {
        i
    }
}

/// White space: a space, a tab, a carriage return or a newline.
pub open spec fn is_white_space(c: char) -> bool {
    c == ' ' || c == '\t' || c == '\r' || c == '\n'
}

/// A character that neither starts a token or a comment nor is white space.
pub open spec fn is_unexpected(c: char) -> bool {
    &&& single_kind(c) is None
    &&& c != '/'
    &&& operator_kinds(c) is None
    &&& !is_digit(c)
    &&& !is_ident_start(c)
    &&& c != '"'
    &&& !is_white_space(c)
}

/// What one scanning step found.
#[derive(Clone, Copy, Debug, PartialEq, Eq, Structural)]
pub enum Lexed {
    /// A token of the given kind.
    Token(TokenKind),
    /// White space or a comment: nothing is produced.
    Skip,
    /// A string literal without its closing quote.
    Unterminated,
    /// A character that starts no token.
    Unexpected,
}

/// The result of one scanning step: what was found and where the next step starts.
pub struct Step {
    pub end: int,
    pub what: Lexed,
}

/// One scanning step at position `pos` of `s`.
pub open spec fn step(s: Seq<char>, pos: int) -> Step
    recommends
        0 <= pos < s.len(),
{
    let c = s[pos];
    if single_kind(c) is Some {
        Step { end: pos + 1, what: Lexed::Token(single_kind(c).unwrap()) }
    } else if c == '/' {
        if followed_by(s, pos, '/') {
            Step { end: comment_end(s, pos + 2), what: Lexed::Skip }
        } else {
            Step { end: pos + 1, what: Lexed::Token(TokenKind::Slash) }
        }
    } else if operator_kinds(c) is Some {
        if followed_by(s, pos, '=') {
            Step { end: pos + 2, what: Lexed::Token(operator_kinds(c).unwrap().1) }
        } else {
            Step { end: pos + 1, what: Lexed::Token(operator_kinds(c).unwrap().0) }
        }
    } else if is_digit(c) {
        Step { end: number_end(s, pos + 1, false), what: Lexed::Token(TokenKind::Number) }
    } else if is_ident_start(c) {
        let end = ident_end(s, pos + 1);
        Step { end, what: Lexed::Token(word_kind(s.subrange(pos, end))) }
    } else if c == '"' {
        let stop = string_stop(s, pos + 1);
        if stop < s.len() && s[stop] == '"' {
            Step { end: stop + 1, what: Lexed::Token(TokenKind::Str) }
        } else {
            Step { end: stop, what: Lexed::Unterminated }
        }
    } else if is_white_space(c) {
        Step { end: pos + 1, what: Lexed::Skip }
    } else {
        Step { end: pos + 1, what: Lexed::Unexpected }
    }
}

/// The number of newline characters before position `pos`.
pub open spec fn newlines_before(s: Seq<char>, pos: int) -> nat
    decreases pos,
{
    if pos <= 0 || pos > s.len() {
        0
    } else if s[pos - 1] == '\n' {
        newlines_before(s, pos - 1) + 1
    } else {
        newlines_before(s, pos - 1)
    }
}

/// The line of position `pos`: one more than the number of newlines before it,
/// held at the largest `usize` should the count ever exceed it.
pub open spec fn line_at(s: Seq<char>, pos: int) -> usize {
    if newlines_before(s, pos) < usize::MAX {
        (newlines_before(s, pos) + 1) as usize
    } else {
        usize::MAX
    }
}

/// The tokens that the step at `pos` produces: one or none.
pub open spec fn step_tokens(s: Seq<char>, pos: int) -> Seq<RawTokenView> {
    match step(s, pos).what {
        Lexed::Token(kind) => seq![
            RawTokenView { kind, lexeme: s.subrange(pos, step(s, pos).end), line: line_at(s, pos) },
        ],
        _ => Seq::empty(),
    }
}

/// The errors that the step at `pos` reports: one or none.
pub open spec fn step_errors(s: Seq<char>, pos: int) -> Seq<LexError> {
    let line = line_at(s, pos);
    match step(s, pos).what {
        Lexed::Unterminated => seq![
            LexError { kind: LexErrorKind::UnterminatedString, found: None, line },
        ],
        Lexed::Unexpected => seq![
            LexError { kind: LexErrorKind::UnexpectedCharacter, found: Some(s[pos]), line },
        ],
        _ => Seq::empty(),
    }
}

/// The end-of-input token of `s`: an empty lexeme on the last line.
pub open spec fn eof_token(s: Seq<char>) -> RawTokenView {
    RawTokenView { kind: TokenKind::Eof, lexeme: Seq::empty(), line: line_at(s, s.len() as int) }
}

/// The tokens scanned from position `pos` to the end, the end-of-input token last.
pub open spec fn tokens_from(s: Seq<char>, pos: int) -> Seq<RawTokenView>
    decreases s.len() - pos,
{
    if 0 <= pos < s.len() {
        proof {
            lemma_step(s, pos);
        }
        step_tokens(s, pos) + tokens_from(s, step(s, pos).end)
    } else {
        seq![eof_token(s)]
    }
}

/// The lexical errors reported from position `pos` to the end, in order.
pub open spec fn errors_from(s: Seq<char>, pos: int) -> Seq<LexError>
    decreases s.len() - pos,
{
    if 0 <= pos < s.len() {
        proof {
            lemma_step(s, pos);
        }
        step_errors(s, pos) + errors_from(s, step(s, pos).end)
    } else {
        Seq::empty()
    }
}

/// The tokens of a whole source text.
pub open spec fn scanned_tokens(s: Seq<char>) -> Seq<RawTokenView> {
    tokens_from(s, 0)
}

/// The lexical errors of a whole source text.
pub open spec fn scanned_errors(s: Seq<char>) -> Seq<LexError> {
    errors_from(s, 0)
}

/// No newline lies in `s` from `a` up to `b`.
pub open spec fn no_newline(s: Seq<char>, a: int, b: int) -> bool {
    forall|k: int| a <= k < b ==> s[k] != '\n'
}

proof fn lemma_comment_end(s: Seq<char>, i: int)
    requires
        0 <= i <= s.len(),
    ensures
        i <= comment_end(s, i) <= s.len(),
        no_newline(s, i, comment_end(s, i)),
    decreases s.len() - i,
{
    if i < s.len() && s[i] != '\n' {
        lemma_comment_end(s, i + 1);
    }
}

proof fn lemma_string_stop(s: Seq<char>, i: int)
    requires
        0 <= i <= s.len(),
    ensures
        i <= string_stop(s, i) <= s.len(),
        no_newline(s, i, string_stop(s, i)),
        forall|k: int| i <= k < string_stop(s, i) ==> s[k] != '"',
    decreases s.len() - i,
{
    if i < s.len() && s[i] != '"' && s[i] != '\n' {
        lemma_string_stop(s, i + 1);
    }
}

proof fn lemma_ident_end(s: Seq<char>, i: int)
    requires
        0 <= i <= s.len(),
    ensures
        i <= ident_end(s, i) <= s.len(),
        no_newline(s, i, ident_end(s, i)),
    decreases s.len() - i,
{
    if i < s.len() && is_ident_part(s[i]) {
        lemma_ident_end(s, i + 1);
    }
}

proof fn lemma_number_end(s: Seq<char>, i: int, seen_dot: bool)
    requires
        0 <= i <= s.len(),
    ensures
        i <= number_end(s, i, seen_dot) <= s.len(),
        no_newline(s, i, number_end(s, i, seen_dot)),
    decreases s.len() - i,
{
    if i < s.len() && is_digit(s[i]) {
        lemma_number_end(s, i + 1, seen_dot);
    } else if i < s.len() && s[i] == '.' && !seen_dot {
        lemma_number_end(s, i + 1, true);
    }
}

/// Without a newline between two positions, both are on the same line.
pub proof fn lemma_same_line(s: Seq<char>, a: int, b: int)
    requires
        0 <= a <= b <= s.len(),
        no_newline(s, a, b),
    ensures
        newlines_before(s, b) == newlines_before(s, a),
    decreases b - a,
{
    if a < b {
        lemma_same_line(s, a, b - 1);
    }
}

/// Every step moves forward and stays within the text, and only the step over a
/// newline character changes the line.
pub proof fn lemma_step(s: Seq<char>, pos: int)
    requires
        0 <= pos < s.len(),
    ensures
        pos < step(s, pos).end <= s.len(),
        newlines_before(s, step(s, pos).end) == newlines_before(s, pos) + (if s[pos] == '\n' {
            1nat
        } else {
            0nat
        }),
{
    let end = step(s, pos).end;
    if s[pos] == '/' && followed_by(s, pos, '/') {
        lemma_comment_end(s, pos + 2);
    }
    lemma_number_end(s, pos + 1, false);
    lemma_ident_end(s, pos + 1);
    lemma_string_stop(s, pos + 1);
    if s[pos] == '\n' {
        assert(end == pos + 1);
    } else {
        assert(no_newline(s, pos, end));
        lemma_same_line(s, pos, end);
    }
}

/// What scanning a source text yields: its tokens, the end-of-input token last,
/// and the lexical errors in the order in which they were met.
#[derive(Debug)]
pub struct ScanOutput {
    pub tokens: Vec<RawToken>,
    pub errors: Vec<LexError>,
}

impl ScanOutput {
    /// Whether any lexical error was met.
    pub fn had_error(&self) -> (flag: bool)
        ensures
            flag == (self.errors@.len() > 0),
    {
        self.errors.len() > 0
    }
}

fn digit(c: char) -> (b: bool)
    ensures
        b == is_digit(c),
{
    '0' <= c && c <= '9'
}

fn ascii_letter(c: char) -> (b: bool)
    ensures
        b == is_ascii_letter(c),
{
    ('a' <= c && c <= 'z') || ('A' <= c && c <= 'Z')
}

/// Whether `c` may continue an identifier, given whether it is alphanumeric.
pub fn ident_part_given(c: char, alphanumeric: bool) -> (b: bool)
    ensures
        b == continues_identifier(c, alphanumeric),
{
    if c == '_' {
        true
    } else if c <= '\x7f' {
        ascii_letter(c) || digit(c)
    } else {
        alphanumeric
    }
}

fn ident_part(c: char) -> (b: bool)
    ensures
        b == is_ident_part(c),
{
    ident_part_given(c, is_alphanumeric(c))
}

fn single(c: char) -> (kind: Option<TokenKind>)
    ensures
        kind == single_kind(c),
{
    match c {
        '(' => Some(TokenKind::LeftParen),
        ')' => Some(TokenKind::RightParen),
        '{' => Some(TokenKind::LeftBrace),
        '}' => Some(TokenKind::RightBrace),
        '*' => Some(TokenKind::Star),
        '.' => Some(TokenKind::Dot),
        '+' => Some(TokenKind::Plus),
        ',' => Some(TokenKind::Comma),
        '-' => Some(TokenKind::Minus),
        ';' => Some(TokenKind::Semicolon),
        _ => None,
    }
}

fn operator(c: char) -> (kinds: Option<(TokenKind, TokenKind)>)
    ensures
        kinds == operator_kinds(c),
{
    match c {
        '<' => Some((TokenKind::Less, TokenKind::LessEqual)),
        '>' => Some((TokenKind::Greater, TokenKind::GreaterEqual)),
        '!' => Some((TokenKind::Bang, TokenKind::BangEqual)),
        '=' => Some((TokenKind::Equal, TokenKind::EqualEqual)),
        _ => None,
    }
}

fn next_is(chars: &Vec<char>, pos: usize, c: char) -> (b: bool)
    requires
        pos < chars@.len(),
    ensures
        b == followed_by(chars@, pos as int, c),
{
    let n: usize = chars.len();
    pos + 1 < n && chars[pos + 1] == c
}

/// Takes one scanning step at `pos`: what starts there and where it ends.
pub fn scan_step(chars: &Vec<char>, pos: usize) -> (found: (usize, Lexed))
    requires
        pos < chars@.len(),
    ensures
        found.0 as int == step(chars@, pos as int).end,
        found.1 == step(chars@, pos as int).what,
        pos < found.0 <= chars@.len(),
{
    let ghost s = chars@;
    let n: usize = chars.len();
    let c: char = chars[pos];
    proof {
        lemma_step(s, pos as int);
    }
    if let Some(kind) = single(c) {
        (pos + 1, Lexed::Token(kind))
    } else if c == '/' {
        if next_is(chars, pos, '/') {
            let mut j: usize = pos + 2;
            while j < n && chars[j] != '\n'
                invariant
                    n == chars@.len(),
                    pos + 2 <= j <= n,
                    comment_end(chars@, j as int) == comment_end(chars@, pos + 2),
                decreases n - j,
            {
                j += 1;
            }
            (j, Lexed::Skip)
        } else {
            (pos + 1, Lexed::Token(TokenKind::Slash))
        }
    } else if let Some(kinds) = operator(c) {
        if next_is(chars, pos, '=') {
            (pos + 2, Lexed::Token(kinds.1))
        } else {
            (pos + 1, Lexed::Token(kinds.0))
        }
    } else if digit(c) {
        let mut j: usize = pos + 1;
        let mut seen_dot: bool = false;
        while j < n && (digit(chars[j]) || (chars[j] == '.' && !seen_dot))
            invariant
                n == chars@.len(),
                pos + 1 <= j <= n,
                number_end(chars@, j as int, seen_dot) == number_end(chars@, pos + 1, false),
            decreases n - j,
        {
            if chars[j] == '.' {
                seen_dot = true;
            }
            j += 1;
        }
        (j, Lexed::Token(TokenKind::Number))
    } else if ascii_letter(c) || c == '_' {
        let mut j: usize = pos + 1;
        while j < n && ident_part(chars[j])
            invariant
                n == chars@.len(),
                pos + 1 <= j <= n,
                ident_end(chars@, j as int) == ident_end(chars@, pos + 1),
            decreases n - j,
        {
            j += 1;
        }
        let word = slice_to_string(chars, pos, j);
        (j, Lexed::Token(identify_keyword(word.as_str())))
    } else if c == '"' {
        let mut j: usize = pos + 1;
        while j < n && chars[j] != '"' && chars[j] != '\n'
            invariant
                n == chars@.len(),
                pos + 1 <= j <= n,
                string_stop(chars@, j as int) == string_stop(chars@, pos + 1),
            decreases n - j,
        {
            j += 1;
        }
        if j < n && chars[j] == '"' {
            (j + 1, Lexed::Token(TokenKind::Str))
        } else {
            (j, Lexed::Unterminated)
        }
    } else if c == ' ' || c == '\t' || c == '\r' || c == '\n' {
        (pos + 1, Lexed::Skip)
    } else {
        (pos + 1, Lexed::Unexpected)
    }
}

/// Scans a sequence of characters into tokens and lexical errors.
pub fn scan_chars(chars: &Vec<char>) -> (out: ScanOutput)
    ensures
        raw_views(out.tokens@) == scanned_tokens(chars@),
        out.errors@ == scanned_errors(chars@),
{
    let ghost s = chars@;
    let n: usize = chars.len();
    let mut tokens: Vec<RawToken> = Vec::new();
    let mut errors: Vec<LexError> = Vec::new();
    let mut pos: usize = 0;
    let mut line: usize = 1;
    while pos < n
        invariant
            s == chars@,
            n == s.len(),
            pos <= n,
            line == line_at(s, pos as int),
            raw_views(tokens@) + tokens_from(s, pos as int) == tokens_from(s, 0),
            errors@ + errors_from(s, pos as int) == errors_from(s, 0),
        decreases n - pos,
    {
        let (end, what) = scan_step(chars, pos);
        let ghost before_tokens = raw_views(tokens@);
        let ghost before_errors = errors@;
        proof {
            lemma_step(s, pos as int);
        }
        match what {
            Lexed::Token(kind) => {
                let lexeme = slice_to_string(chars, pos, end);
                tokens.push(RawToken { kind, lexeme, line });
            },
            Lexed::Unterminated => {
                errors.push(LexError { kind: LexErrorKind::UnterminatedString, found: None, line });
            },
            Lexed::Unexpected => {
                let found = Some(chars[pos]);
                errors.push(LexError { kind: LexErrorKind::UnexpectedCharacter, found, line });
            },
            Lexed::Skip => {},
        }
        proof {
            let rest_tokens = tokens_from(s, end as int);
            let rest_errors = errors_from(s, end as int);
            assert(raw_views(tokens@) =~= before_tokens + step_tokens(s, pos as int));
            assert(errors@ =~= before_errors + step_errors(s, pos as int));
            assert(raw_views(tokens@) + rest_tokens =~= before_tokens + (step_tokens(s, pos as int)
                + rest_tokens));
            assert(errors@ + rest_errors =~= before_errors + (step_errors(s, pos as int)
                + rest_errors));
        }
        if chars[pos] == '\n' && line < usize::MAX {
            line += 1;
        }
        pos = end;
    }
    let ghost before_eof = raw_views(tokens@);
    tokens.push(RawToken { kind: TokenKind::Eof, lexeme: String::new(), line });
    proof {
        assert(raw_views(tokens@) =~= before_eof + seq![eof_token(s)]);
    }
    ScanOutput { tokens, errors }
}

/// Scans a source text: its tokens, the end-of-input token last, and its
/// lexical errors in order. Scanning never stops early.
pub fn scan(source: &str) -> (out: ScanOutput)
    ensures
        raw_views(out.tokens@) == scanned_tokens(source@),
        out.errors@ == scanned_errors(source@),
{
    let chars = chars_of(source);
    scan_chars(&chars)
}

/// The tokens of a source text, the end-of-input token last.
pub fn scan_raw_tokens(source: &str) -> (tokens: Vec<RawToken>)
    ensures
        raw_views(tokens@) == scanned_tokens(source@),
{
    scan(source).tokens
}

} // verus!
