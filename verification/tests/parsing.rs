use lox_frontend::ast::{print_ast, Expr, LitValue};
use lox_frontend::diag::ParseError;
use lox_frontend::parser::{convert_token, parse_tokens, ParseReport, Parser, Token, TokenType};
use lox_frontend::scanner::scan;
use lox_frontend::token::{RawToken, TokenKind};

fn float_text(lexeme: &str) -> String {
    let value: f64 = lexeme.parse().unwrap_or(0.0);
    if value.fract() == 0.0 {
        format!("{}.0", value.trunc())
    } else {
        value.to_string()
    }
}

fn tokens_of(source: &str) -> Vec<Token> {
    let mut tokens = Vec::new();
    for raw in scan(source).tokens {
        let number = if raw.kind == TokenKind::Number {
            float_text(&raw.lexeme)
        } else {
            String::new()
        };
        tokens.push(convert_token(raw, number));
    }
    tokens
}

fn parse_source(source: &str) -> ParseReport {
    let lexical_error = scan(source).had_error();
    parse_tokens(tokens_of(source), lexical_error)
}

fn parse_reports(source: &str) -> Vec<String> {
    parse_source(source).errors.iter().map(|e| e.report()).collect()
}

#[test]
fn parse_true() {
    let report = parse_source("true");
    assert!(!report.had_error);
    assert_eq!(report.text, Some("true".to_string()));
    assert!(report.errors.is_empty());
}

#[test]
fn parse_false_and_nil() {
    assert_eq!(parse_source("false").text, Some("false".to_string()));
    assert_eq!(parse_source("nil").text, Some("nil".to_string()));
}

#[test]
fn parse_grouping() {
    let report = parse_source("(true)");
    assert!(!report.had_error);
    assert_eq!(report.text, Some("(group true)".to_string()));
}

#[test]
fn parse_grouped_string() {
    let report = parse_source("(\"hi\")");
    assert!(!report.had_error);
    assert_eq!(report.text, Some("(group \"hi\")".to_string()));
}

#[test]
fn parse_nested_groupings() {
    assert_eq!(
        parse_source("(( nil ))").text,
        Some("(group (group nil))".to_string())
    );
}

#[test]
fn parse_numbers() {
    assert_eq!(parse_source("123").text, Some("123.0".to_string()));
    assert_eq!(parse_source("123.45").text, Some("123.45".to_string()));
    assert_eq!(parse_source("(12.50)").text, Some("(group 12.5)".to_string()));
}

#[test]
fn parse_string() {
    assert_eq!(parse_source("\"hello world\"").text, Some("\"hello world\"".to_string()));
}

#[test]
fn parse_empty_input_expects_expression() {
    let report = parse_source("");
    assert!(report.had_error);
    assert_eq!(report.text, None);
    assert_eq!(report.errors, vec![ParseError::ExpectedExpression]);
    assert_eq!(parse_reports(""), vec!["Parse error: Expected expression"]);
}

#[test]
fn parse_open_grouping_expects_closing_paren() {
    let report = parse_source("(");
    assert!(report.had_error);
    assert_eq!(report.text, None);
    assert_eq!(
        report.errors,
        vec![ParseError::ExpectedExpression, ParseError::ExpectedClosingParen]
    );
    assert_eq!(
        parse_reports("("),
        vec![
            "Parse error: Expected expression",
            "Parse error: Expected ')' after expression",
        ]
    );
}

#[test]
fn parse_unclosed_grouping_keeps_the_grouping() {
    let mut parser = Parser::new(tokens_of("(true"));
    let expr = parser.expression();
    assert_eq!(print_ast(&expr), "(group true)");
    assert!(parser.had_error());
    assert_eq!(parser.errors, vec![ParseError::ExpectedClosingParen]);
    assert_eq!(parse_source("(true").text, None);
}

#[test]
fn parse_unmatched_closing_paren() {
    let mut parser = Parser::new(tokens_of(")"));
    let expr = parser.primary();
    assert_eq!(print_ast(&expr), "nil");
    assert_eq!(parser.current, 0);
    assert_eq!(parser.errors, vec![ParseError::ExpectedExpression]);
}

#[test]
fn parse_other_token_expects_expression() {
    assert_eq!(parse_source("+").errors, vec![ParseError::ExpectedExpression]);
    assert_eq!(parse_source("foo").errors, vec![ParseError::ExpectedExpression]);
    assert_eq!(parse_source("while").errors, vec![ParseError::ExpectedExpression]);
    assert!(parse_source("foo").had_error);
}

#[test]
fn parse_stops_after_one_expression() {
    let mut parser = Parser::new(tokens_of("true false"));
    let ast = parser.parse();
    assert_eq!(ast.map(|e| print_ast(&e)), Some("true".to_string()));
    assert_eq!(parser.current, 1);
}

#[test]
fn lexical_error_withholds_the_text() {
    let report = parse_source("@ true");
    assert!(report.had_error);
    assert_eq!(report.text, None);
    assert!(report.errors.is_empty());
}

#[test]
fn parser_sees_the_last_token_past_the_end() {
    let mut parser = Parser::new(tokens_of("true"));
    assert_eq!(parser.tokens.len(), 2);
    assert!(matches!(parser.peek_token().token_type, TokenType::True));
    parser.advance();
    assert_eq!(parser.current, 1);
    assert!(matches!(parser.peek_token().token_type, TokenType::Eof));
    parser.advance();
    assert_eq!(parser.current, 2);
    assert!(matches!(parser.peek_token().token_type, TokenType::Eof));
    parser.advance();
    assert_eq!(parser.current, 2);
    assert!(matches!(parser.peek_token().token_type, TokenType::Eof));
    assert_eq!(parser.peek_token().line, 1);
    assert_eq!(parser.peek_token().lexeme, "");
}

#[test]
fn peek_token_with_one_token_and_the_cursor_past_it() {
    let tokens = vec![Token {
        token_type: TokenType::StringLit("only".to_string()),
        lexeme: "\"only\"".to_string(),
        line: 3,
    }];
    let mut parser = Parser::new(tokens);
    parser.current = 1;
    let seen = parser.peek_token();
    assert!(matches!(seen.token_type, TokenType::StringLit(ref s) if s == "only"));
    assert_eq!(seen.lexeme, "\"only\"");
    assert_eq!(seen.line, 3);
    parser.current = 40;
    assert!(matches!(parser.peek_token().token_type, TokenType::StringLit(ref s) if s == "only"));
}

#[test]
fn parsing_past_the_end_reads_the_last_token_and_stays() {
    let tokens = vec![Token {
        token_type: TokenType::True,
        lexeme: "true".to_string(),
        line: 1,
    }];
    let mut parser = Parser::new(tokens);
    let first = parser.primary();
    assert_eq!(print_ast(&first), "true");
    assert_eq!(parser.current, 1);
    let again = parser.primary();
    assert_eq!(print_ast(&again), "true");
    assert_eq!(parser.current, 1);
    assert!(!parser.had_error());
}

#[test]
fn parsing_at_end_of_input_expects_an_expression_each_time() {
    let mut parser = Parser::new(tokens_of(""));
    parser.current = 5;
    let expr = parser.primary();
    assert_eq!(print_ast(&expr), "nil");
    assert_eq!(parser.current, 5);
    assert_eq!(parser.errors, vec![ParseError::ExpectedExpression]);
}

#[test]
fn can_parse_wants_tokens_that_do_not_end_in_left_paren() {
    assert!(Parser::can_parse(&tokens_of("")));
    assert!(Parser::can_parse(&tokens_of("(")));
    assert!(!Parser::can_parse(&Vec::new()));
    let open = vec![Token {
        token_type: TokenType::LeftParen,
        lexeme: "(".to_string(),
        line: 1,
    }];
    assert!(!Parser::can_parse(&open));
    let closed = vec![Token {
        token_type: TokenType::RightParen,
        lexeme: ")".to_string(),
        line: 1,
    }];
    assert!(Parser::can_parse(&closed));
}

#[test]
fn parser_records_errors_in_order() {
    let mut parser = Parser::new(tokens_of("nil"));
    assert!(!parser.had_error());
    parser.error(ParseError::ExpectedClosingParen);
    parser.error(ParseError::ExpectedExpression);
    assert!(parser.had_error());
    assert_eq!(
        parser.errors,
        vec![ParseError::ExpectedClosingParen, ParseError::ExpectedExpression]
    );
    assert!(parser.parse().is_none());
}

#[test]
fn convert_token_payloads() {
    let raw = |kind: TokenKind, lexeme: &str| RawToken { kind, lexeme: lexeme.to_string(), line: 7 };
    let number = convert_token(raw(TokenKind::Number, "1.50"), "1.5".to_string());
    assert!(matches!(number.token_type, TokenType::Number(ref n) if n == "1.5"));
    assert_eq!(number.lexeme, "1.50");
    assert_eq!(number.line, 7);
    let string = convert_token(raw(TokenKind::Str, "\"hi\""), String::new());
    assert!(matches!(string.token_type, TokenType::StringLit(ref s) if s == "hi"));
    assert_eq!(string.lexeme, "\"hi\"");
    let name = convert_token(raw(TokenKind::Identifier, "foo"), String::new());
    assert!(matches!(name.token_type, TokenType::Identifier(ref s) if s == "foo"));
    let plus = convert_token(raw(TokenKind::Plus, "+"), String::new());
    assert!(matches!(plus.token_type, TokenType::Other(TokenKind::Plus)));
    let eof = convert_token(raw(TokenKind::Eof, ""), "9.0".to_string());
    assert!(matches!(eof.token_type, TokenType::Eof));
}

#[test]
fn print_ast_forms() {
    assert_eq!(print_ast(&Expr::Literal(LitValue::Boolean(true))), "true");
    assert_eq!(print_ast(&Expr::Literal(LitValue::Boolean(false))), "false");
    assert_eq!(print_ast(&Expr::Literal(LitValue::Nil)), "nil");
    assert_eq!(print_ast(&Expr::Literal(LitValue::Number("3.0".to_string()))), "3.0");
    assert_eq!(print_ast(&Expr::Literal(LitValue::Str("a \"b".to_string()))), "\"a \"b\"");
    let nested = Expr::Grouping(Box::new(Expr::Grouping(Box::new(Expr::Literal(
        LitValue::Str("x".to_string()),
    )))));
    assert_eq!(print_ast(&nested), "(group (group \"x\"))");
}
