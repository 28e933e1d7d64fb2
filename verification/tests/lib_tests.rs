use procss::parser::ErrorKind;
use procss::{parse, parse_unchecked, RenderCss};

#[test]
fn test_verbose_error() {
    assert!(matches!(
        parse("div{color:red").map(|x| x.as_css_string()).as_deref(),
        Err(_)
    ))
}

#[test]
fn test_parse_unchecked() {
    assert_eq!(
        parse_unchecked("div{color:red}")
            .map(|x| x.as_css_string())
            .as_deref(),
        Ok("div{color:red;}")
    )
}

#[test]
fn missing_brace_fails_in_both_modes() {
    let strict = parse("div{color:red").unwrap_err();
    assert_eq!(strict.kind, ErrorKind::Unconsumed);
    let detail = strict.detail.unwrap();
    assert_eq!(detail.offset, 0);
    assert_eq!(detail.line, 0);
    assert_eq!(detail.column, 0);
    assert_eq!(detail.context, "div{color:red");
    let fast = parse_unchecked("div{color:red").unwrap_err();
    assert_eq!(fast.kind, ErrorKind::Unconsumed);
    assert_eq!(fast.detail, None);
}

#[test]
fn text_after_the_last_ruleset_is_an_error() {
    let strict = parse("a{b:c}\n  d{e:f} }\nx").unwrap_err();
    assert_eq!(strict.kind, ErrorKind::Unconsumed);
    let detail = strict.detail.unwrap();
    assert_eq!(detail.offset, 16);
    assert_eq!(detail.line, 1);
    assert_eq!(detail.column, 9);
    assert_eq!(detail.context, "  d{e:f} }");
    let fast = parse_unchecked("a{b:c}\n  d{e:f} }\nx").unwrap_err();
    assert_eq!(fast.kind, ErrorKind::Unconsumed);
    assert_eq!(fast.detail, None);
}

#[test]
fn empty_text_is_the_empty_stylesheet() {
    assert_eq!(parse("").unwrap().0.len(), 0);
    assert_eq!(parse(" /* nothing */ ; ").unwrap().0.len(), 0);
    assert_eq!(parse_unchecked("// nothing").unwrap().as_css_string(), "");
    assert_eq!(parse("").unwrap().flatten_tree().as_css_string(), "");
    let error = parse(" \n x").unwrap_err();
    assert_eq!(error.kind, ErrorKind::Unconsumed);
    assert_eq!(error.detail.unwrap().offset, 3);
}

#[test]
fn at_rule_with_a_body_needs_an_item() {
    assert!(parse("@media print{}").is_err());
    assert!(parse("div{}").is_ok());
}

#[test]
fn empty_body_flattens_to_nothing() {
    assert_eq!(parse("div{}").unwrap().flatten_tree().as_css_string(), "");
    assert_eq!(
        parse("div{a{}b{c:d}}").unwrap().flatten_tree().as_css_string(),
        "div b{c:d;}"
    );
}

#[test]
fn flatten_keeps_the_order_of_rules_and_blocks() {
    assert_eq!(
        parse("a{x:1;b{y:2}z:3;c{w:4}v:5}")
            .unwrap()
            .flatten_tree()
            .as_css_string(),
        "a{x:1;}a b{y:2;}a{z:3;}a c{w:4;}a{v:5;}"
    );
}

#[test]
fn at_rule_puts_its_rules_before_its_rulesets() {
    assert_eq!(
        parse("@media print{a{x:1}y:2;b{z:3}}")
            .unwrap()
            .flatten_tree()
            .as_css_string(),
        "@media print{y:2;}@media print{a{x:1;}b{z:3;}}"
    );
}

#[test]
fn flatten_of_flat_text_changes_nothing() {
    let text = "a{x:1;}@import \"t\";@media print{b{y:2;}c d{z:3;}}e,f{w:4;}";
    let tree = parse(text).unwrap();
    assert_eq!(tree.as_css_string(), text);
    assert_eq!(tree.flatten_tree().as_css_string(), text);
}

#[test]
fn string_with_punctuation_stays_one_value() {
    assert_eq!(
        parse("a{content:\"x;y}z\";b:c}").unwrap().as_css_string(),
        "a{content:\"x;y}z\";b:c;}"
    );
}

#[test]
fn large_stylesheet_is_read_and_written() {
    let mut text = String::new();
    let mut expected = String::new();
    for i in 0..3000 {
        text.push_str(&format!(
            ".c{} {{ /* rule {} */ color : red ; .d{} {{ margin : 0  auto }} }}\n",
            i, i, i
        ));
        expected.push_str(&format!(".c{}{{color:red;}}.c{} .d{}{{margin:0 auto;}}", i, i, i));
    }
    let tree = parse(&text).unwrap();
    assert_eq!(tree.0.len(), 3000);
    assert_eq!(tree.flatten_tree().as_css_string(), expected);
}

fn text_of(input: &str) -> String {
    parse(input).unwrap().as_css_string()
}

#[test]
fn minified_text_is_read_back_as_it_is() {
    for input in [
        "div{color:red}",
        " a , b > c { x : 1  2 ; d ~ e + f { y : \"z;{}\" } ; }",
        "[a][b=c]{c:d}",
        "p#i.c[a=\"b c\"][d]:not(.e[f]):hover::after{g:h}",
        "@media (min-width: 1px){a{b:c}d:e}@import \"x\";@x: 1px;",
        "a{&.b{c:d}&[e]{f:g}}",
        "a{width:calc(100% - 24px);b:url( x )  no-repeat}",
        "",
    ] {
        let text = text_of(input);
        assert_eq!(text_of(&text), text, "{}", input);
    }
}

#[test]
fn flat_text_is_read_back_and_flattens_to_itself() {
    for input in [
        "div[a]{&[b]{c:d}}",
        "a{x:1;b{y:2}z:3;&:hover , c > d{w:4}}",
        "@media print{a{x:1;b{x:2}}y:2;@supports (z){c{d:e}}}",
        "#test{&#test2:before{color:red}}",
        "a,b{c,&.d{e:f  g}}",
    ] {
        let flat = parse(input).unwrap().flatten_tree().as_css_string();
        let again = parse(&flat).unwrap().flatten_tree().as_css_string();
        assert_eq!(again, flat, "{}", input);
    }
}

#[test]
fn attribute_matchers_keep_their_own_brackets() {
    assert_eq!(text_of("[a][b]{c:d}"), "[a][b]{c:d;}");
    assert_eq!(
        parse("div[a]{&[b]{c:d}}").unwrap().flatten_tree().as_css_string(),
        "div[a][b]{c:d;}"
    );
}
