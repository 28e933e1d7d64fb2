use procss::ast::token::Ident;

#[test]
fn test_valid_ident() {
    let input = "regular";
    let (rest, ident) = Ident::parse(input).unwrap();
    assert_eq!(rest, "");
    assert_eq!(ident.data, "regular");

    let input = "--fo-oA21f:bar";
    let (rest, ident) = Ident::parse(input).unwrap();
    assert_eq!(rest, ":bar");
    assert_eq!(ident.data, "--fo-oA21f");

    let input = "--23";
    let (rest, ident) = Ident::parse(input).unwrap();
    assert_eq!(rest, "");
    assert_eq!(ident.data, "--23");

    let input = "-fo-bar";
    let (rest, ident) = Ident::parse(input).unwrap();
    assert_eq!(rest, "");
    assert_eq!(ident.data, "-fo-bar");

    let input = "selector {asda}";
    let (rest, ident) = Ident::parse(input).unwrap();
    assert_eq!(rest, " {asda}");
    assert_eq!(ident.data, "selector");

    let input = "attr[xasd]";
    let (rest, ident) = Ident::parse(input).unwrap();
    assert_eq!(rest, "[xasd]");
    assert_eq!(ident.data, "attr");

    let input = "funct(foo)";
    let (rest, ident) = Ident::parse(input).unwrap();
    assert_eq!(rest, "(foo)");
    assert_eq!(ident.data, "funct");
}

#[test]
fn test_valid_escape_ident() {
    let input = "foo\\nn ";

    let (rest, ident) = Ident::parse(input).unwrap();
    assert_eq!(ident.data, "foo\\nn");
    assert_eq!(rest, " ");

    let input = "foo\\AA ss ";

    let (rest, ident) = Ident::parse(input).unwrap();
    assert_eq!(ident.data, "foo\\AA ss");
    assert_eq!(rest, " ");
}

#[test]
fn test_invalid_ident() {
    let input = "2-digits";
    let _err = Ident::parse(input).unwrap_err();

    let input = "-2-digits";
    let _err = Ident::parse(input).unwrap_err();
}

#[test]
fn ident_start_and_part_characters() {
    assert!(Ident::is_valid_start_char('a'));
    assert!(Ident::is_valid_start_char('_'));
    assert!(Ident::is_valid_start_char('é'));
    assert!(!Ident::is_valid_start_char('-'));
    assert!(!Ident::is_valid_start_char('7'));
    assert!(Ident::is_valid_char('-'));
    assert!(Ident::is_valid_char('7'));
    assert!(!Ident::is_valid_char(' '));
    assert!(!Ident::is_valid_char('\\'));
}

#[test]
fn ident_escape_takes_six_hex_digits_at_most() {
    let (rest, ident) = Ident::parse("a\\1234567").unwrap();
    assert_eq!(ident.data, "a\\1234567");
    assert_eq!(rest, "");
    let (rest, ident) = Ident::parse("a\\123456 7 8").unwrap();
    assert_eq!(ident.data, "a\\123456 7");
    assert_eq!(rest, " 8");
}

#[test]
fn ident_escape_of_one_character() {
    let (rest, ident) = Ident::parse("a\\;b;").unwrap();
    assert_eq!(ident.data, "a\\;b");
    assert_eq!(rest, ";");
}

#[test]
fn ident_stops_before_a_backslash_that_escapes_nothing() {
    let (rest, ident) = Ident::parse("a\\ b").unwrap();
    assert_eq!(ident.data, "a");
    assert_eq!(rest, "\\ b");
    let (rest, ident) = Ident::parse("a\\").unwrap();
    assert_eq!(ident.data, "a");
    assert_eq!(rest, "\\");
}
