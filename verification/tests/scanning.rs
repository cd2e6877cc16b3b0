use lox_frontend::diag::{LexError, LexErrorKind};
use lox_frontend::scanner::{scan, scan_chars, scan_raw_tokens, scan_step, Lexed};
use lox_frontend::token::{identify_keyword, same_text, unquote, RawToken, TokenKind};

fn kinds(source: &str) -> Vec<TokenKind> {
    scan(source).tokens.iter().map(|t| t.kind).collect()
}

fn lexemes(source: &str) -> Vec<String> {
    scan(source).tokens.iter().map(|t| t.lexeme.clone()).collect()
}

fn lines(source: &str) -> Vec<usize> {
    scan(source).tokens.iter().map(|t| t.line).collect()
}

fn float_form(lexeme: &str) -> String {
    let value: f64 = lexeme.parse().unwrap_or(0.0);
    if value.fract() == 0.0 {
        format!("{}.0", value.trunc())
    } else {
        value.to_string()
    }
}

fn listing(source: &str) -> Vec<String> {
    scan(source)
        .tokens
        .iter()
        .map(|t| t.listing(&float_form(&t.lexeme)))
        .collect()
}

fn reports(source: &str) -> Vec<String> {
    scan(source).errors.iter().map(|e| e.report()).collect()
}

#[test]
fn empty_source_is_only_end_of_input() {
    let out = scan("");
    assert_eq!(out.tokens.len(), 1);
    assert_eq!(out.tokens[0].kind, TokenKind::Eof);
    assert_eq!(out.tokens[0].lexeme, "");
    assert_eq!(out.tokens[0].line, 1);
    assert!(!out.had_error());
    assert_eq!(listing(""), vec!["EOF  null"]);
}

#[test]
fn punctuation_one_token_per_character() {
    assert_eq!(
        kinds("(){}*.+,-;/"),
        vec![
            TokenKind::LeftParen,
            TokenKind::RightParen,
            TokenKind::LeftBrace,
            TokenKind::RightBrace,
            TokenKind::Star,
            TokenKind::Dot,
            TokenKind::Plus,
            TokenKind::Comma,
            TokenKind::Minus,
            TokenKind::Semicolon,
            TokenKind::Slash,
            TokenKind::Eof,
        ]
    );
    assert_eq!(
        lexemes("(){}*.+,-;/"),
        vec!["(", ")", "{", "}", "*", ".", "+", ",", "-", ";", "/", ""]
    );
    assert!(!scan("(){}*.+,-;/").had_error());
}

#[test]
fn punctuation_listing() {
    assert_eq!(
        listing("({*.,+-;})/"),
        vec![
            "LEFT_PAREN ( null",
            "LEFT_BRACE { null",
            "STAR * null",
            "DOT . null",
            "COMMA , null",
            "PLUS + null",
            "MINUS - null",
            "SEMICOLON ; null",
            "RIGHT_BRACE } null",
            "RIGHT_PAREN ) null",
            "SLASH / null",
            "EOF  null",
        ]
    );
}

#[test]
fn slash_followed_by_other_is_a_token() {
    assert_eq!(
        kinds("/*/"),
        vec![TokenKind::Slash, TokenKind::Star, TokenKind::Slash, TokenKind::Eof]
    );
}

#[test]
fn comment_runs_to_end_of_line() {
    assert_eq!(kinds("// a comment ( ) @"), vec![TokenKind::Eof]);
    assert!(!scan("// a comment ( ) @").had_error());
    let out = scan("(// rest\n)");
    assert_eq!(out.tokens.len(), 3);
    assert_eq!(out.tokens[0].kind, TokenKind::LeftParen);
    assert_eq!(out.tokens[0].line, 1);
    assert_eq!(out.tokens[1].kind, TokenKind::RightParen);
    assert_eq!(out.tokens[1].line, 2);
    assert_eq!(out.tokens[2].kind, TokenKind::Eof);
    assert_eq!(out.tokens[2].line, 2);
}

#[test]
fn comparison_and_equality_operators() {
    assert_eq!(
        listing("<= < >= > != ! == ="),
        vec![
            "LESS_EQUAL <= null",
            "LESS < null",
            "GREATER_EQUAL >= null",
            "GREATER > null",
            "BANG_EQUAL != null",
            "BANG ! null",
            "EQUAL_EQUAL == null",
            "EQUAL = null",
            "EOF  null",
        ]
    );
}

#[test]
fn second_character_of_operator_is_not_rescanned() {
    assert_eq!(
        kinds("==="),
        vec![TokenKind::EqualEqual, TokenKind::Equal, TokenKind::Eof]
    );
    assert_eq!(
        kinds("!=="),
        vec![TokenKind::BangEqual, TokenKind::Equal, TokenKind::Eof]
    );
    assert_eq!(
        kinds("<=>"),
        vec![TokenKind::LessEqual, TokenKind::Greater, TokenKind::Eof]
    );
}

#[test]
fn integer_number() {
    assert_eq!(listing("123"), vec!["NUMBER 123 123.0", "EOF  null"]);
    assert_eq!(listing("0"), vec!["NUMBER 0 0.0", "EOF  null"]);
    assert_eq!(listing("42"), vec!["NUMBER 42 42.0", "EOF  null"]);
}

#[test]
fn decimal_number() {
    assert_eq!(listing("123.45"), vec!["NUMBER 123.45 123.45", "EOF  null"]);
    assert_eq!(listing("3.14"), vec!["NUMBER 3.14 3.14", "EOF  null"]);
    assert_eq!(listing("12.50"), vec!["NUMBER 12.50 12.5", "EOF  null"]);
}

#[test]
fn trailing_dot_belongs_to_the_number() {
    assert_eq!(kinds("100."), vec![TokenKind::Number, TokenKind::Eof]);
    assert_eq!(lexemes("100."), vec!["100.", ""]);
    assert_eq!(listing("100."), vec!["NUMBER 100. 100.0", "EOF  null"]);
}

#[test]
fn second_dot_ends_the_number() {
    assert_eq!(
        kinds("1.2.3"),
        vec![TokenKind::Number, TokenKind::Dot, TokenKind::Number, TokenKind::Eof]
    );
    assert_eq!(lexemes("1.2.3"), vec!["1.2", ".", "3", ""]);
}

#[test]
fn leading_dot_is_a_dot() {
    assert_eq!(
        kinds(".5"),
        vec![TokenKind::Dot, TokenKind::Number, TokenKind::Eof]
    );
}

#[test]
fn string_literal() {
    let out = scan("\"hello\"");
    assert!(!out.had_error());
    assert_eq!(out.tokens.len(), 2);
    assert_eq!(out.tokens[0].kind, TokenKind::Str);
    assert_eq!(out.tokens[0].lexeme, "\"hello\"");
    assert_eq!(listing("\"hello\""), vec!["STRING \"hello\" hello", "EOF  null"]);
}

#[test]
fn empty_string_literal() {
    assert_eq!(listing("\"\""), vec!["STRING \"\" ", "EOF  null"]);
}

#[test]
fn string_has_no_escapes() {
    assert_eq!(
        listing("\"a\\\" b"),
        vec!["STRING \"a\\\" a\\", "IDENTIFIER b null", "EOF  null"]
    );
}

#[test]
fn unterminated_string_at_end_of_input() {
    let out = scan("\"unterminated");
    assert!(out.had_error());
    assert_eq!(out.tokens.len(), 1);
    assert_eq!(out.tokens[0].kind, TokenKind::Eof);
    assert_eq!(out.errors.len(), 1);
    assert_eq!(out.errors[0].kind, LexErrorKind::UnterminatedString);
    assert_eq!(out.errors[0].line, 1);
    assert_eq!(out.errors[0].message(), "Unterminated string");
    assert_eq!(reports("\"unterminated"), vec!["[line 1] Error: Unterminated string."]);
}

#[test]
fn unterminated_string_at_newline() {
    let out = scan("\n\"abc\n(");
    assert!(out.had_error());
    assert_eq!(out.errors.len(), 1);
    assert_eq!(out.errors[0].line, 2);
    assert_eq!(out.tokens.len(), 2);
    assert_eq!(out.tokens[0].kind, TokenKind::LeftParen);
    assert_eq!(out.tokens[0].line, 3);
    assert_eq!(out.tokens[1].kind, TokenKind::Eof);
    assert_eq!(out.tokens[1].line, 3);
    assert_eq!(reports("\n\"abc\n("), vec!["[line 2] Error: Unterminated string."]);
}

#[test]
fn reserved_words() {
    assert_eq!(
        listing("true false nil"),
        vec!["TRUE true null", "FALSE false null", "NIL nil null", "EOF  null"]
    );
}

#[test]
fn every_reserved_word_has_its_kind() {
    assert_eq!(
        kinds("and class else false for fun if nil or print return super this true var while"),
        vec![
            TokenKind::And,
            TokenKind::Class,
            TokenKind::Else,
            TokenKind::False,
            TokenKind::For,
            TokenKind::Fun,
            TokenKind::If,
            TokenKind::Nil,
            TokenKind::Or,
            TokenKind::Print,
            TokenKind::Return,
            TokenKind::Super,
            TokenKind::This,
            TokenKind::True,
            TokenKind::Var,
            TokenKind::While,
            TokenKind::Eof,
        ]
    );
}

#[test]
fn longer_word_is_an_identifier() {
    assert_eq!(listing("truex"), vec!["IDENTIFIER truex null", "EOF  null"]);
    assert_eq!(listing("_nil"), vec!["IDENTIFIER _nil null", "EOF  null"]);
    assert_eq!(listing("True"), vec!["IDENTIFIER True null", "EOF  null"]);
    assert_eq!(listing("a1_b2"), vec!["IDENTIFIER a1_b2 null", "EOF  null"]);
}

#[test]
fn identify_keyword_table() {
    assert_eq!(identify_keyword("true"), TokenKind::True);
    assert_eq!(identify_keyword("false"), TokenKind::False);
    assert_eq!(identify_keyword("nil"), TokenKind::Nil);
    assert_eq!(identify_keyword("while"), TokenKind::While);
    assert_eq!(identify_keyword("truex"), TokenKind::Identifier);
    assert_eq!(identify_keyword("TRUE"), TokenKind::Identifier);
    assert_eq!(identify_keyword(""), TokenKind::Identifier);
}

#[test]
fn identifier_continues_over_unicode_letters_and_digits() {
    assert_eq!(lexemes("a\u{e9}\u{663}"), vec!["a\u{e9}\u{663}", ""]);
    assert_eq!(kinds("a\u{e9}\u{663}"), vec![TokenKind::Identifier, TokenKind::Eof]);
}

#[test]
fn identifier_stops_at_unicode_symbol() {
    let out = scan("a\u{2603}b");
    assert_eq!(out.tokens.len(), 3);
    assert_eq!(out.tokens[0].lexeme, "a");
    assert_eq!(out.tokens[1].lexeme, "b");
    assert_eq!(out.errors.len(), 1);
    assert_eq!(out.errors[0].found, Some('\u{2603}'));
}

#[test]
fn unicode_letter_starts_no_identifier() {
    let out = scan("\u{e9}");
    assert!(out.had_error());
    assert_eq!(out.errors[0].kind, LexErrorKind::UnexpectedCharacter);
    assert_eq!(out.errors[0].found, Some('\u{e9}'));
    assert_eq!(out.tokens.len(), 1);
}

#[test]
fn unexpected_character() {
    let out = scan("@");
    assert!(out.had_error());
    assert_eq!(out.tokens.len(), 1);
    assert_eq!(out.tokens[0].kind, TokenKind::Eof);
    assert_eq!(
        out.errors,
        vec![LexError { kind: LexErrorKind::UnexpectedCharacter, found: Some('@'), line: 1 }]
    );
    assert_eq!(out.errors[0].message(), "Unexpected character: @");
    assert_eq!(reports("@"), vec!["[line 1] Error: Unexpected character: @."]);
}

#[test]
fn errors_accumulate_and_scanning_goes_on() {
    let out = scan(",.$(#\n%");
    assert_eq!(
        reports(",.$(#\n%"),
        vec![
            "[line 1] Error: Unexpected character: $.",
            "[line 1] Error: Unexpected character: #.",
            "[line 2] Error: Unexpected character: %.",
        ]
    );
    assert_eq!(
        out.tokens.iter().map(|t| t.kind).collect::<Vec<TokenKind>>(),
        vec![TokenKind::Comma, TokenKind::Dot, TokenKind::LeftParen, TokenKind::Eof]
    );
}

#[test]
fn whitespace_is_skipped_and_lines_are_counted() {
    assert_eq!(lines(" \t(\r\n)\n\n*"), vec![1, 2, 4, 4]);
}

#[test]
fn line_numbers_print_in_decimal() {
    let mut source = String::new();
    for _ in 0..1204 {
        source.push('\n');
    }
    source.push('#');
    assert_eq!(reports(&source), vec!["[line 1205] Error: Unexpected character: #."]);
}

#[test]
fn scan_raw_tokens_gives_the_tokens_of_scan() {
    let tokens: Vec<RawToken> = scan_raw_tokens("(true) // x");
    assert_eq!(
        tokens.iter().map(|t| t.kind).collect::<Vec<TokenKind>>(),
        vec![TokenKind::LeftParen, TokenKind::True, TokenKind::RightParen, TokenKind::Eof]
    );
}

#[test]
fn scan_chars_agrees_with_scan() {
    let chars: Vec<char> = "var x = 1.5;".chars().collect();
    let out = scan_chars(&chars);
    assert_eq!(
        out.tokens.iter().map(|t| t.lexeme.clone()).collect::<Vec<String>>(),
        lexemes("var x = 1.5;")
    );
}

#[test]
fn scan_step_says_where_the_token_ends() {
    let chars: Vec<char> = "ab12 \"x\" //c".chars().collect();
    assert_eq!(scan_step(&chars, 0), (4, Lexed::Token(TokenKind::Identifier)));
    assert_eq!(scan_step(&chars, 2), (4, Lexed::Token(TokenKind::Number)));
    assert_eq!(scan_step(&chars, 4), (5, Lexed::Skip));
    assert_eq!(scan_step(&chars, 5), (8, Lexed::Token(TokenKind::Str)));
    assert_eq!(scan_step(&chars, 7), (12, Lexed::Unterminated));
    assert_eq!(scan_step(&chars, 9), (12, Lexed::Skip));
}

#[test]
fn kind_names() {
    assert_eq!(TokenKind::LeftParen.name(), "LEFT_PAREN");
    assert_eq!(TokenKind::Str.name(), "STRING");
    assert_eq!(TokenKind::EqualEqual.name(), "EQUAL_EQUAL");
    assert_eq!(TokenKind::Eof.name(), "EOF");
}

#[test]
fn unquote_drops_first_and_last() {
    assert_eq!(unquote("\"hi\""), "hi");
    assert_eq!(unquote("\"\""), "");
    assert_eq!(unquote("x"), "");
    assert_eq!(unquote(""), "");
}

#[test]
fn same_text_compares_characters() {
    assert!(same_text("nil", "nil"));
    assert!(!same_text("nil", "Nil"));
    assert!(!same_text("nil", "ni"));
}
