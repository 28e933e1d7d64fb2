use procss::ast::token::{
    comment0, comment1, parse_string_literal, parse_symbol, sep0, trim_whitespace,
    NeedsWhitespaceStringExt,
};

#[test]
fn test_multiline_comment() {
    assert_eq!(
        comment0(
            "
    /* 
     * test
     */"
        ),
        Ok((String::new(), ()))
    )
}

#[test]
fn test_forward_slash() {
    assert_eq!(comment0("// test"), Ok((String::new(), ())))
}

#[test]
fn test_semicolons() {
    assert_eq!(comment0("/* test; test */"), Ok((String::new(), ())))
}

#[test]
fn comment0_stops_at_text_and_at_open_comments() {
    assert_eq!(comment0("  a "), Ok(("a ".to_owned(), ())));
    assert_eq!(comment0(" /* open"), Ok(("/* open".to_owned(), ())));
    assert_eq!(comment0("// one\n// two\nx"), Ok(("x".to_owned(), ())));
    assert_eq!(comment0(""), Ok((String::new(), ())));
}

#[test]
fn comment1_needs_something_to_skip() {
    assert_eq!(comment1(" x"), Ok(("x".to_owned(), ())));
    assert!(comment1("x").is_err());
    assert!(comment1("").is_err());
}

#[test]
fn sep0_skips_semicolons_too() {
    assert_eq!(sep0(" ; /* a */ ;; b;"), Ok(("b;".to_owned(), ())));
    assert_eq!(sep0("b"), Ok(("b".to_owned(), ())));
}

#[test]
fn symbol_is_a_run_of_its_characters() {
    assert_eq!(
        parse_symbol("a-b_c*9%.rest"),
        Ok((".rest".to_owned(), "a-b_c*9%".to_owned()))
    );
    assert!(parse_symbol(".rest").is_err());
    assert!(parse_symbol("").is_err());
}

#[test]
fn string_literal_keeps_its_quotes() {
    assert_eq!(
        parse_string_literal("\"a;b}\" c"),
        Ok((" c".to_owned(), "\"a;b}\"".to_owned()))
    );
    assert_eq!(
        parse_string_literal("\"\\1234\""),
        Ok((String::new(), "\"\\1234\"".to_owned()))
    );
    assert_eq!(
        parse_string_literal("\"\""),
        Ok((String::new(), "\"\"".to_owned()))
    );
}

#[test]
fn string_literal_has_to_be_closed() {
    assert!(parse_string_literal("\"abc").is_err());
    assert!(parse_string_literal("abc\"").is_err());
    assert!(parse_string_literal("\"a\\ b\"").is_err());
}

fn squeezed(s: &str) -> String {
    let mut out = String::new();
    trim_whitespace(s, &mut out);
    out
}

#[test]
fn trim_whitespace_keeps_one_space_between_words() {
    assert_eq!(squeezed("  1px   solid \n red "), "1px solid red");
    assert_eq!(squeezed("calc(100% - 24px)"), "calc(100% - 24px)");
    assert_eq!(squeezed("a , b"), "a,b");
    assert_eq!(squeezed("rgb( 1 , 2 )"), "rgb(1,2)");
    assert_eq!(squeezed(""), "");
    assert_eq!(squeezed(" \t\n"), "");
}

#[test]
fn trim_whitespace_appends() {
    let mut out = "x:".to_owned();
    trim_whitespace(" a  b ", &mut out);
    assert_eq!(out, "x:a b");
}

#[test]
fn trim_whitespace_knows_the_spaces_outside_ascii() {
    assert_eq!(squeezed("a\u{a0}b\u{3000}c"), "a b c");
}

#[test]
fn words_need_whitespace() {
    assert!("abc".needs_pre_ws());
    assert!("+1".needs_pre_ws());
    assert!("%".needs_pre_ws());
    assert!(!"(a".needs_pre_ws());
    assert!(!"".needs_pre_ws());
    assert!("a_".needs_post_ws());
    assert!("100%".needs_post_ws());
    assert!(!"a)".needs_post_ws());
    assert!(!"".needs_post_ws());
}
