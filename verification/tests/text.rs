use lox_frontend::scanner::ident_part_given;
use lox_frontend::text::{chars_of, push_decimal, slice_to_string};

#[test]
fn chars_of_keeps_every_character_in_order() {
    assert_eq!(chars_of(""), Vec::<char>::new());
    assert_eq!(chars_of("a\u{e9}\n\u{2603}"), vec!['a', '\u{e9}', '\n', '\u{2603}']);
}

#[test]
fn slice_to_string_takes_the_range() {
    let chars = vec!['v', 'a', 'r', ' ', 'x'];
    assert_eq!(slice_to_string(&chars, 0, 3), "var");
    assert_eq!(slice_to_string(&chars, 4, 5), "x");
    assert_eq!(slice_to_string(&chars, 2, 2), "");
    assert_eq!(slice_to_string(&chars, 0, 5), "var x");
}

#[test]
fn push_decimal_appends_the_digits() {
    let mut text = String::from("n=");
    push_decimal(&mut text, 0);
    assert_eq!(text, "n=0");
    push_decimal(&mut text, 9);
    push_decimal(&mut text, 10);
    push_decimal(&mut text, 4096);
    assert_eq!(text, "n=09104096");
    let mut largest = String::new();
    push_decimal(&mut largest, usize::MAX);
    assert_eq!(largest, usize::MAX.to_string());
}

#[test]
fn identifier_continuation_within_and_beyond_ascii() {
    assert!(ident_part_given('_', false));
    assert!(ident_part_given('a', false));
    assert!(ident_part_given('Z', false));
    assert!(ident_part_given('7', false));
    assert!(!ident_part_given('-', true));
    assert!(!ident_part_given('\n', true));
    assert!(ident_part_given('\u{e9}', true));
    assert!(!ident_part_given('\u{e9}', false));
}
