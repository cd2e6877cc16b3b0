//! Laws of the scanner and the parser, each proved from their definitions.

use vstd::prelude::*;
use crate::ast::{ExprView, LitView};
use crate::diag::{LexError, LexErrorKind, ParseError};
use crate::parser::{
    converted, current_type, parsable, parse_primary, Parsed, TokenTypeView, TokenView,
};
use crate::scanner::{
    eof_token, errors_from, followed_by, is_unexpected, ident_end, is_digit, is_ident_part, is_ident_start,
    lemma_same_line, lemma_step, line_at, no_newline, number_end,
    scanned_errors, scanned_tokens, single_kind, step, step_errors, step_tokens, string_stop,
    tokens_from, Lexed,
};
use crate::token::{keyword_kind, unquoted, word_kind, RawTokenView, TokenKind};

verus! {

/// A punctuation character: one that is a token by itself, or a slash.
pub open spec fn is_punctuation(c: char) -> bool {
    single_kind(c) is Some || c == '/'
}

/// The kind of a punctuation character.
pub open spec fn punctuation_kind(c: char) -> TokenKind {
    if c == '/' {
        TokenKind::Slash
    } else {
        single_kind(c).unwrap()
    }
}

/// The token of a punctuation character on the first line.
pub open spec fn punctuation_token(c: char) -> RawTokenView {
    RawTokenView { kind: punctuation_kind(c), lexeme: seq![c], line: 1 }
}

/// Every character of `s` is a punctuation character.
pub open spec fn punctuation_only(s: Seq<char>) -> bool {
    forall|i: int| 0 <= i < s.len() ==> is_punctuation(#[trigger] s[i])
}

/// No slash in `s` is followed by a second slash.
pub open spec fn no_double_slash(s: Seq<char>) -> bool {
    forall|i: int| 0 <= i < s.len() - 1 ==> !(#[trigger] s[i] == '/' && s[i + 1] == '/')
}

/// The end-of-input token on the first line.
pub open spec fn eof_on_first_line() -> RawTokenView {
    RawTokenView { kind: TokenKind::Eof, lexeme: Seq::empty(), line: 1 }
}

/// A text without a newline lies on the first line throughout.
pub proof fn lemma_first_line(s: Seq<char>, pos: int)
    requires
        0 <= pos <= s.len(),
        no_newline(s, 0, s.len() as int),
    ensures
        line_at(s, pos) == 1,
{
    lemma_same_line(s, 0, pos);
}

proof fn lemma_punctuation_from(s: Seq<char>, pos: int)
    requires
        punctuation_only(s),
        no_double_slash(s),
        0 <= pos <= s.len(),
    ensures
        tokens_from(s, pos).len() == s.len() - pos + 1,
        forall|k: int|
            0 <= k < s.len() - pos ==> #[trigger] tokens_from(s, pos)[k] == punctuation_token(
                s[pos + k],
            ),
        tokens_from(s, pos)[s.len() - pos] == eof_on_first_line(),
        errors_from(s, pos) =~= Seq::<LexError>::empty(),
    decreases s.len() - pos,
{
    assert(no_newline(s, 0, s.len() as int)) by {
        assert forall|k: int| 0 <= k < s.len() implies s[k] != '\n' by {
            assert(is_punctuation(s[k]));
        }
    }
    lemma_first_line(s, pos);
    lemma_first_line(s, s.len() as int);
    if pos < s.len() {
        let c = s[pos];
        assert(is_punctuation(c));
        assert(!followed_by(s, pos, '/') || c != '/');
        assert(step(s, pos).end == pos + 1);
        assert(step(s, pos).what == Lexed::Token(punctuation_kind(c)));
        assert(s.subrange(pos, pos + 1) =~= seq![c]);
        assert(step_tokens(s, pos) =~= seq![punctuation_token(c)]);
        assert(step_errors(s, pos) =~= Seq::<LexError>::empty());
        lemma_punctuation_from(s, pos + 1);
        let rest = tokens_from(s, pos + 1);
        assert(tokens_from(s, pos) =~= seq![punctuation_token(c)] + rest);
        assert forall|k: int| 0 <= k < s.len() - pos implies #[trigger] tokens_from(s, pos)[k]
            == punctuation_token(s[pos + k]) by {
            if k > 0 {
                assert(tokens_from(s, pos)[k] == rest[k - 1]);
                assert(s[pos + k] == s[(pos + 1) + (k - 1)]);
            }
        }
        assert(tokens_from(s, pos)[s.len() - pos] == rest[s.len() - pos - 1]);
    }
}

/// Punctuation scans character by character: a text made of the characters
/// `(){}*.+,-;/` in which no slash follows a slash gives one token for each
/// character, of that character's kind and in the order of the text, then the
/// end-of-input token, and no error.
pub proof fn law_punctuation(s: Seq<char>)
    requires
        punctuation_only(s),
        no_double_slash(s),
    ensures
        scanned_tokens(s).len() == s.len() + 1,
        forall|i: int| 0 <= i < s.len() ==> #[trigger] scanned_tokens(s)[i] == punctuation_token(s[i]),
        scanned_tokens(s)[s.len() as int] == eof_on_first_line(),
        scanned_errors(s).len() == 0,
{
    lemma_punctuation_from(s, 0);
}

/// A number literal: it starts with a digit, holds digits and dots only, and
/// at most one dot.
pub open spec fn is_number_text(s: Seq<char>) -> bool {
    &&& s.len() > 0
    &&& is_digit(s[0])
    &&& forall|i: int| 0 <= i < s.len() ==> is_digit(#[trigger] s[i]) || s[i] == '.'
    &&& forall|i: int, j: int|
        0 <= i < j < s.len() ==> !(#[trigger] s[i] == '.' && #[trigger] s[j] == '.')
}

proof fn lemma_number_runs_to_end(s: Seq<char>, i: int, seen_dot: bool)
    requires
        is_number_text(s),
        1 <= i <= s.len(),
        seen_dot ==> forall|k: int| i <= k < s.len() ==> s[k] != '.',
        !seen_dot ==> forall|k: int| 0 <= k < i ==> s[k] != '.',
    ensures
        number_end(s, i, seen_dot) == s.len(),
    decreases s.len() - i,
{
    if i < s.len() {
        if is_digit(s[i]) {
            lemma_number_runs_to_end(s, i + 1, seen_dot);
        } else {
            assert(s[i] == '.');
            assert(!seen_dot);
            assert forall|k: int| i + 1 <= k < s.len() implies s[k] != '.' by {
                assert(!(s[i] == '.' && s[k] == '.'));
            }
            lemma_number_runs_to_end(s, i + 1, true);
        }
    }
}

/// A number literal scans as one token: digits with at most one dot among or
/// after them give a single number token whose lexeme is the whole text, then
/// the end-of-input token, and no error.
pub proof fn law_number(s: Seq<char>)
    requires
        is_number_text(s),
    ensures
        scanned_tokens(s) == seq![
            RawTokenView { kind: TokenKind::Number, lexeme: s, line: 1 },
            eof_on_first_line(),
        ],
        scanned_errors(s).len() == 0,
{
    assert(no_newline(s, 0, s.len() as int)) by {
        assert forall|k: int| 0 <= k < s.len() implies s[k] != '\n' by {
            assert(is_digit(s[k]) || s[k] == '.');
        }
    }
    lemma_first_line(s, 0);
    lemma_first_line(s, s.len() as int);
    lemma_number_runs_to_end(s, 1, false);
    lemma_step(s, 0);
    assert(step(s, 0).end == s.len());
    assert(step(s, 0).what == Lexed::Token(TokenKind::Number));
    assert(s.subrange(0, s.len() as int) =~= s);
    assert(tokens_from(s, s.len() as int) =~= seq![eof_on_first_line()]);
    assert(errors_from(s, s.len() as int) =~= Seq::<LexError>::empty());
    assert(scanned_tokens(s) =~= seq![
        RawTokenView { kind: TokenKind::Number, lexeme: s, line: 1 },
        eof_on_first_line(),
    ]);
    assert(scanned_errors(s) =~= Seq::<LexError>::empty());
}

/// The body of a string literal: it holds neither a double quote nor a newline.
pub open spec fn is_string_body(body: Seq<char>) -> bool {
    forall|i: int| 0 <= i < body.len() ==> #[trigger] body[i] != '"' && body[i] != '\n'
}

proof fn lemma_string_stops_at(s: Seq<char>, i: int, stop: int)
    requires
        0 <= i <= stop <= s.len(),
        forall|k: int| i <= k < stop ==> s[k] != '"' && s[k] != '\n',
        stop < s.len() ==> s[stop] == '"' || s[stop] == '\n',
    ensures
        string_stop(s, i) == stop,
    decreases stop - i,
{
    if i < stop {
        lemma_string_stops_at(s, i + 1, stop);
    }
}

/// A closed string literal scans as one token: a body without double quote
/// and newline, between double quotes, gives a single string token whose
/// lexeme is the whole text and whose content is the body, then the
/// end-of-input token, and no error.
pub proof fn law_string(body: Seq<char>)
    requires
        is_string_body(body),
    ensures
        ({
            let s = seq!['"'] + body + seq!['"'];
            &&& scanned_tokens(s) == seq![
                RawTokenView { kind: TokenKind::Str, lexeme: s, line: 1 },
                eof_on_first_line(),
            ]
            &&& scanned_errors(s).len() == 0
            &&& unquoted(s) == body
        }),
{
    let s = seq!['"'] + body + seq!['"'];
    let last = s.len() - 1;
    assert forall|k: int| 1 <= k < last implies s[k] != '"' && s[k] != '\n' by {
        assert(s[k] == body[k - 1]);
    }
    assert(s[last] == '"');
    assert(no_newline(s, 0, s.len() as int));
    lemma_first_line(s, 0);
    lemma_first_line(s, s.len() as int);
    lemma_string_stops_at(s, 1, last);
    assert(step(s, 0).end == s.len());
    assert(step(s, 0).what == Lexed::Token(TokenKind::Str));
    assert(s.subrange(0, s.len() as int) =~= s);
    assert(tokens_from(s, s.len() as int) =~= seq![eof_on_first_line()]);
    assert(errors_from(s, s.len() as int) =~= Seq::<LexError>::empty());
    assert(scanned_tokens(s) =~= seq![
        RawTokenView { kind: TokenKind::Str, lexeme: s, line: 1 },
        eof_on_first_line(),
    ]);
    assert(scanned_errors(s) =~= Seq::<LexError>::empty());
    assert(unquoted(s) =~= body);
}

/// A string literal that the input ends in is an error: a double quote and a
/// body without double quote and newline give no token but the end-of-input
/// token, and the one error of an unterminated string on the first line.
pub proof fn law_unterminated_string(body: Seq<char>)
    requires
        is_string_body(body),
    ensures
        ({
            let s = seq!['"'] + body;
            &&& scanned_tokens(s) == seq![eof_on_first_line()]
            &&& scanned_errors(s) == seq![
                LexError { kind: LexErrorKind::UnterminatedString, found: None, line: 1 },
            ]
        }),
{
    let s = seq!['"'] + body;
    assert forall|k: int| 1 <= k < s.len() implies s[k] != '"' && s[k] != '\n' by {
        assert(s[k] == body[k - 1]);
    }
    assert(no_newline(s, 0, s.len() as int));
    lemma_first_line(s, 0);
    lemma_first_line(s, s.len() as int);
    lemma_string_stops_at(s, 1, s.len() as int);
    assert(step(s, 0).end == s.len());
    assert(step(s, 0).what == Lexed::Unterminated);
    assert(tokens_from(s, s.len() as int) =~= seq![eof_on_first_line()]);
    assert(errors_from(s, s.len() as int) =~= Seq::<LexError>::empty());
    assert(step_tokens(s, 0) =~= Seq::<RawTokenView>::empty());
    assert(scanned_tokens(s) =~= seq![eof_on_first_line()]);
    assert(scanned_errors(s) =~= seq![
        LexError { kind: LexErrorKind::UnterminatedString, found: None, line: 1 },
    ]);
}

/// An identifier-shaped word: a letter or underscore, then letters, digits
/// and underscores.
pub open spec fn is_word(s: Seq<char>) -> bool {
    &&& s.len() > 0
    &&& is_ident_start(s[0])
    &&& forall|i: int| 1 <= i < s.len() ==> is_ident_part(#[trigger] s[i])
}

proof fn lemma_word_runs_to_end(s: Seq<char>, i: int)
    requires
        is_word(s),
        1 <= i <= s.len(),
    ensures
        ident_end(s, i) == s.len(),
    decreases s.len() - i,
{
    if i < s.len() {
        assert(is_ident_part(s[i]));
        lemma_word_runs_to_end(s, i + 1);
    }
}

/// Keywords and identifiers part the words between them: an identifier-shaped
/// word scans as one token whose lexeme is the whole word. Its kind is the
/// reserved kind if the word is in the keyword table, and `Identifier` if it
/// is not.
pub proof fn law_word(s: Seq<char>)
    requires
        is_word(s),
    ensures
        scanned_tokens(s) == seq![
            RawTokenView { kind: word_kind(s), lexeme: s, line: 1 },
            eof_on_first_line(),
        ],
        scanned_errors(s).len() == 0,
        keyword_kind(s) is None ==> scanned_tokens(s)[0].kind == TokenKind::Identifier,
        keyword_kind(s) is Some ==> scanned_tokens(s)[0].kind == keyword_kind(s).unwrap(),
{
    assert(no_newline(s, 0, s.len() as int)) by {
        assert forall|k: int| 0 <= k < s.len() implies s[k] != '\n' by {
            if k > 0 {
                assert(is_ident_part(s[k]));
            }
        }
    }
    lemma_first_line(s, 0);
    lemma_first_line(s, s.len() as int);
    lemma_word_runs_to_end(s, 1);
    assert(step(s, 0).end == s.len());
    assert(s.subrange(0, s.len() as int) =~= s);
    assert(step(s, 0).what == Lexed::Token(word_kind(s)));
    assert(tokens_from(s, s.len() as int) =~= seq![eof_on_first_line()]);
    assert(errors_from(s, s.len() as int) =~= Seq::<LexError>::empty());
    assert(scanned_tokens(s) =~= seq![
        RawTokenView { kind: word_kind(s), lexeme: s, line: 1 },
        eof_on_first_line(),
    ]);
    assert(scanned_errors(s) =~= Seq::<LexError>::empty());
}

/// The token kinds that spell an expression: a literal is one token, a
/// grouping is its inner expression between parentheses.
pub open spec fn expr_tokens(expr: ExprView) -> Seq<TokenTypeView>
    decreases expr,
{
    match expr {
        ExprView::Literal(LitView::Boolean(b)) => if b {
            seq![TokenTypeView::True]
        } else {
            seq![TokenTypeView::False]
        },
        ExprView::Literal(LitView::Nil) => seq![TokenTypeView::Nil],
        ExprView::Literal(LitView::Number(n)) => seq![TokenTypeView::Number(n)],
        ExprView::Literal(LitView::Str(s)) => seq![TokenTypeView::StringLit(s)],
        ExprView::Grouping(inner) => seq![TokenTypeView::LeftParen] + expr_tokens(*inner) + seq![
            TokenTypeView::RightParen,
        ],
    }
}

/// The tokens from `pos` on spell `kinds`.
pub open spec fn spells(tokens: Seq<TokenView>, pos: int, kinds: Seq<TokenTypeView>) -> bool {
    &&& 0 <= pos
    &&& pos + kinds.len() <= tokens.len()
    &&& forall|k: int| 0 <= k < kinds.len() ==> (#[trigger] tokens[pos + k]).token_type == kinds[k]
}

/// Parsing inverts spelling: where the tokens spell an expression, the parser
/// gives back that expression, stops right after its last token, and records
/// no error, whatever tokens come before and after, as long as the parser
/// can work on the sequence.
pub proof fn law_parse_spelled(tokens: Seq<TokenView>, pos: int, expr: ExprView)
    requires
        parsable(tokens),
        spells(tokens, pos, expr_tokens(expr)),
    ensures
        parse_primary(tokens, pos) == (Parsed {
            expr,
            next: pos + expr_tokens(expr).len(),
            errors: Seq::empty(),
        }),
    decreases expr,
{
    let kinds = expr_tokens(expr);
    match expr {
        ExprView::Literal(value) => {
            assert(kinds.len() == 1);
            assert(tokens[pos + 0].token_type == kinds[0]);
        },
        ExprView::Grouping(inner) => {
            let sub = expr_tokens(*inner);
            let n = sub.len() as int;
            assert(kinds.len() == n + 2);
            assert(tokens[pos + 0].token_type == kinds[0]);
            assert forall|k: int| 0 <= k < sub.len() implies (#[trigger] tokens[pos + 1
                + k]).token_type == sub[k] by {
                assert(tokens[pos + (k + 1)].token_type == kinds[k + 1]);
            }
            assert(spells(tokens, pos + 1, sub));
            law_parse_spelled(tokens, pos + 1, *inner);
            assert(tokens[pos + (n + 1)].token_type == kinds[n + 1]);
            assert(current_type(tokens, pos + 1 + n) is RightParen);
            assert(Box::new(*inner) == inner);
        },
    }
}

proof fn lemma_end_of_input_from(s: Seq<char>, pos: int)
    requires
        0 <= pos <= s.len(),
    ensures
        tokens_from(s, pos).len() >= 1,
        tokens_from(s, pos).last() == eof_token(s),
        forall|i: int|
            0 <= i < tokens_from(s, pos).len() - 1 ==> {
                &&& (#[trigger] tokens_from(s, pos)[i]).kind != TokenKind::Eof
                &&& tokens_from(s, pos)[i].lexeme.len() > 0
            },
    decreases s.len() - pos,
{
    if pos < s.len() {
        lemma_step(s, pos);
        let end = step(s, pos).end;
        lemma_end_of_input_from(s, end);
        let head = step_tokens(s, pos);
        let rest = tokens_from(s, end);
        assert(tokens_from(s, pos) =~= head + rest);
        assert forall|i: int| 0 <= i < tokens_from(s, pos).len() - 1 implies {
            &&& (#[trigger] tokens_from(s, pos)[i]).kind != TokenKind::Eof
            &&& tokens_from(s, pos)[i].lexeme.len() > 0
        } by {
            if i < head.len() {
                assert(tokens_from(s, pos)[i] == head[i]);
            } else {
                assert(tokens_from(s, pos)[i] == rest[i - head.len()]);
            }
        }
    }
}

/// Scanning always ends in end of input: whatever the text and whatever
/// errors it holds, its last token is the end-of-input token, on the line of
/// the end of the text, and every token before it is of another kind and has
/// a lexeme of at least one character.
pub proof fn law_end_of_input(s: Seq<char>)
    ensures
        scanned_tokens(s).len() >= 1,
        scanned_tokens(s).last() == eof_token(s),
        forall|i: int|
            0 <= i < scanned_tokens(s).len() - 1 ==> {
                &&& (#[trigger] scanned_tokens(s)[i]).kind != TokenKind::Eof
                &&& scanned_tokens(s)[i].lexeme.len() > 0
            },
{
    lemma_end_of_input_from(s, 0);
}

/// The keyword table holds sixteen words, each with a kind of its own.
pub proof fn law_keyword_table()
    ensures
        keyword_kind("and"@) == Some(TokenKind::And),
        keyword_kind("class"@) == Some(TokenKind::Class),
        keyword_kind("else"@) == Some(TokenKind::Else),
        keyword_kind("false"@) == Some(TokenKind::False),
        keyword_kind("for"@) == Some(TokenKind::For),
        keyword_kind("fun"@) == Some(TokenKind::Fun),
        keyword_kind("if"@) == Some(TokenKind::If),
        keyword_kind("nil"@) == Some(TokenKind::Nil),
        keyword_kind("or"@) == Some(TokenKind::Or),
        keyword_kind("print"@) == Some(TokenKind::Print),
        keyword_kind("return"@) == Some(TokenKind::Return),
        keyword_kind("super"@) == Some(TokenKind::Super),
        keyword_kind("this"@) == Some(TokenKind::This),
        keyword_kind("true"@) == Some(TokenKind::True),
        keyword_kind("var"@) == Some(TokenKind::Var),
        keyword_kind("while"@) == Some(TokenKind::While),
        keyword_kind("truex"@) is None,
{
    reveal_strlit("and");
    reveal_strlit("class");
    reveal_strlit("else");
    reveal_strlit("false");
    reveal_strlit("for");
    reveal_strlit("fun");
    reveal_strlit("if");
    reveal_strlit("nil");
    reveal_strlit("or");
    reveal_strlit("print");
    reveal_strlit("return");
    reveal_strlit("super");
    reveal_strlit("this");
    reveal_strlit("true");
    reveal_strlit("var");
    reveal_strlit("while");
    reveal_strlit("truex");
    assert("and"@.len() == 3 && "and"@[0] == 'a' && "and"@[1] == 'n');
    assert("class"@.len() == 5 && "class"@[0] == 'c' && "class"@[1] == 'l');
    assert("else"@.len() == 4 && "else"@[0] == 'e' && "else"@[1] == 'l');
    assert("false"@.len() == 5 && "false"@[0] == 'f' && "false"@[1] == 'a');
    assert("for"@.len() == 3 && "for"@[0] == 'f' && "for"@[1] == 'o');
    assert("fun"@.len() == 3 && "fun"@[0] == 'f' && "fun"@[1] == 'u');
    assert("if"@.len() == 2 && "if"@[0] == 'i' && "if"@[1] == 'f');
    assert("nil"@.len() == 3 && "nil"@[0] == 'n' && "nil"@[1] == 'i');
    assert("or"@.len() == 2 && "or"@[0] == 'o' && "or"@[1] == 'r');
    assert("print"@.len() == 5 && "print"@[0] == 'p' && "print"@[1] == 'r');
    assert("return"@.len() == 6 && "return"@[0] == 'r' && "return"@[1] == 'e');
    assert("super"@.len() == 5 && "super"@[0] == 's' && "super"@[1] == 'u');
    assert("this"@.len() == 4 && "this"@[0] == 't' && "this"@[1] == 'h');
    assert("true"@.len() == 4 && "true"@[0] == 't' && "true"@[1] == 'r');
    assert("var"@.len() == 3 && "var"@[0] == 'v' && "var"@[1] == 'a');
    assert("while"@.len() == 5 && "while"@[0] == 'w' && "while"@[1] == 'h');
    assert("truex"@.len() == 5 && "truex"@[0] == 't' && "truex"@[1] == 'r');
}

/// The parser moves forward only: parsing ends at the position where it
/// began or after it. Begun within the tokens it never ends past their end;
/// begun at or past their end it stays where it began.
pub proof fn law_cursor_moves_forward(tokens: Seq<TokenView>, pos: int)
    requires
        parsable(tokens),
        0 <= pos,
    ensures
        pos <= parse_primary(tokens, pos).next,
        pos <= tokens.len() ==> parse_primary(tokens, pos).next <= tokens.len(),
        pos >= tokens.len() ==> parse_primary(tokens, pos).next == pos,
    decreases tokens.len() - pos,
{
    if current_type(tokens, pos) is LeftParen {
        law_cursor_moves_forward(tokens, pos + 1);
    }
}

/// Past the last token the parser sees the last token in perpetuity: at every
/// position at or after the end of the tokens, parsing gives what it gives at
/// the end, but for the position, which stays.
pub proof fn law_end_in_perpetuity(tokens: Seq<TokenView>, pos: int)
    requires
        parsable(tokens),
        pos >= tokens.len(),
    ensures
        current_type(tokens, pos) == tokens.last().token_type,
        parse_primary(tokens, pos).expr == parse_primary(tokens, tokens.len() as int).expr,
        parse_primary(tokens, pos).errors == parse_primary(tokens, tokens.len() as int).errors,
        parse_primary(tokens, pos).next == pos,
{
}

/// What the scanner gives, the parser can work on: the last scanned token is
/// converted into the end-of-input token, whatever text stands for numbers.
pub proof fn law_scanned_ends_input(s: Seq<char>, number: Seq<char>)
    ensures
        converted(scanned_tokens(s).last(), number).token_type == TokenTypeView::Eof,
{
    law_end_of_input(s);
}

/// Whether a token kind starts a primary expression.
pub open spec fn starts_expression(kind: TokenTypeView) -> bool {
    kind is True || kind is False || kind is Nil || kind is Number || kind is StringLit
        || kind is LeftParen
}

/// Where no expression starts, the parser recovers in place: at a token that
/// starts no expression (the end of input and an unmatched `)` among them) it
/// records that an expression was expected, gives a `nil` literal, and does
/// not move.
pub proof fn law_expected_expression(tokens: Seq<TokenView>, pos: int)
    requires
        parsable(tokens),
        0 <= pos,
        !starts_expression(current_type(tokens, pos)),
    ensures
        parse_primary(tokens, pos) == (Parsed {
            expr: ExprView::Literal(LitView::Nil),
            next: pos,
            errors: seq![ParseError::ExpectedExpression],
        }),
{
}

/// An unclosed grouping is reported and kept: at a `(` whose inner expression
/// is not followed by `)`, the parser gives the grouping of the inner
/// expression, stops where the inner expression stopped, and records the
/// inner errors followed by the missing `)`.
pub proof fn law_unclosed_grouping(tokens: Seq<TokenView>, pos: int)
    requires
        parsable(tokens),
        0 <= pos,
        current_type(tokens, pos) is LeftParen,
        !(current_type(tokens, parse_primary(tokens, pos + 1).next) is RightParen),
    ensures
        parse_primary(tokens, pos) == (Parsed {
            expr: ExprView::Grouping(Box::new(parse_primary(tokens, pos + 1).expr)),
            next: parse_primary(tokens, pos + 1).next,
            errors: parse_primary(tokens, pos + 1).errors.push(ParseError::ExpectedClosingParen),
        }),
{
}

/// A character that starts no token and is no white space is an error by
/// itself: a text of that one character gives the end-of-input token alone,
/// and the one error of an unexpected character, with the character, on the
/// first line.
pub proof fn law_unexpected_character(c: char)
    requires
        is_unexpected(c),
    ensures
        scanned_tokens(seq![c]) == seq![eof_on_first_line()],
        scanned_errors(seq![c]) == seq![
            LexError { kind: LexErrorKind::UnexpectedCharacter, found: Some(c), line: 1 },
        ],
{
    let s = seq![c];
    assert(s[0] == c);
    assert(no_newline(s, 0, s.len() as int));
    lemma_first_line(s, 0);
    lemma_first_line(s, s.len() as int);
    assert(step(s, 0).end == 1);
    assert(step(s, 0).what == Lexed::Unexpected);
    assert(tokens_from(s, 1) =~= seq![eof_on_first_line()]);
    assert(errors_from(s, 1) =~= Seq::<LexError>::empty());
    assert(step_tokens(s, 0) =~= Seq::<RawTokenView>::empty());
    assert(scanned_tokens(s) =~= seq![eof_on_first_line()]);
    assert(scanned_errors(s) =~= seq![
        LexError { kind: LexErrorKind::UnexpectedCharacter, found: Some(c), line: 1 },
    ]);
}

} // verus!
