use procss::ast::{QualRule, Rule, SelectorAttr, TreeRule, TreeRuleset};
use procss::RenderCss;

#[test]
fn test_rule_value_string() {
    let (rest, rule) = Rule::parse("--column-selector--background: url(\"test\")").unwrap();
    assert_eq!(rest, "");
    assert_eq!(rule.value, "url(\"test\")");
    assert_eq!(rule.property, "--column-selector--background");
}

#[test]
fn test_rule_escaped_string() {
    let (rest, rule) = Rule::parse("test: \"\\1234\"").unwrap();
    assert_eq!(rest, "");
    assert_eq!(rule.value, "\"\\1234\"");
    assert_eq!(rule.property, "test");
}

#[test]
fn test_rule_escaped_string_2() {
    let (rest, rule) = Rule::parse("test: \": test ; alpha\"").unwrap();
    assert_eq!(rest, "");
    assert_eq!(rule.value, "\": test ; alpha\"");
    assert_eq!(rule.property, "test");
}

#[test]
fn rule_value_ends_at_semicolon_and_brace() {
    let (rest, rule) = Rule::parse("a:b c;d:e").unwrap();
    assert_eq!(rest, ";d:e");
    assert_eq!(rule.value, "b c");
    let (rest, rule) = Rule::parse("a : \"}\" x}").unwrap();
    assert_eq!(rest, "}");
    assert_eq!(rule.value, "\"}\" x");
    let (rest, rule) = Rule::parse("a:").unwrap();
    assert_eq!(rest, "");
    assert_eq!(rule.value, "");
}

#[test]
fn rule_value_ends_at_a_quote_that_opens_no_literal() {
    let (rest, rule) = Rule::parse("a:b \"c").unwrap();
    assert_eq!(rest, "\"c");
    assert_eq!(rule.value, "b ");
}

#[test]
fn rule_needs_a_property_and_a_colon() {
    assert!(Rule::parse(": b").is_err());
    assert!(Rule::parse("a b").is_err());
    assert!(Rule::parse("").is_err());
}

#[test]
fn rule_renders_with_a_semicolon() {
    let rule = Rule {
        property: "margin".to_owned(),
        value: " 0   auto ".to_owned(),
    };
    assert_eq!(rule.as_css_string(), "margin:0 auto;");
}

#[test]
fn test_bool() {
    assert_eq!(
        SelectorAttr::parse("[disabled]"),
        Ok((
            String::new(),
            SelectorAttr {
                name: "disabled".to_owned(),
                value: None
            }
        ))
    )
}

#[test]
fn test_value_quotes() {
    assert_eq!(
        SelectorAttr::parse("[data-value=\"red\"]"),
        Ok((
            String::new(),
            SelectorAttr {
                name: "data-value".to_owned(),
                value: Some("\"red\"".to_owned())
            }
        ))
    )
}

#[test]
fn attribute_needs_its_brackets_and_a_value_after_the_sign() {
    assert!(SelectorAttr::parse("[a").is_err());
    assert!(SelectorAttr::parse("[a=]").is_err());
    assert!(SelectorAttr::parse("[a=b").is_err());
    assert!(SelectorAttr::parse("[]").is_err());
    assert!(SelectorAttr::parse("a]").is_err());
}

#[test]
fn at_rule_head_is_read_up_to_the_brace_or_semicolon() {
    assert_eq!(
        QualRule::parse("@media  (a: b)  {x}"),
        Ok((
            "{x}".to_owned(),
            QualRule("media".to_owned(), Some("(a: b)".to_owned()))
        ))
    );
    assert_eq!(
        QualRule::parse("@font-face {"),
        Ok(("{".to_owned(), QualRule("font-face".to_owned(), None)))
    );
    assert_eq!(
        QualRule::parse("@x: 1px;"),
        Ok((";".to_owned(), QualRule("x".to_owned(), Some(": 1px".to_owned()))))
    );
    assert_eq!(
        QualRule::parse("@a"),
        Ok((String::new(), QualRule("a".to_owned(), None)))
    );
    assert!(QualRule::parse("@ a").is_err());
    assert!(QualRule::parse("a").is_err());
    assert_eq!(
        QualRule("media".to_owned(), Some("print".to_owned())).as_css_string(),
        "@media print"
    );
}

#[test]
fn item_of_a_body_is_a_ruleset_or_a_rule() {
    let (rest, item) = TreeRule::parse("a:hover{b:c} ; d:e").unwrap();
    assert_eq!(rest, "d:e");
    assert!(matches!(item, TreeRule::Ruleset(_)));
    assert_eq!(item.as_css_string(), "a:hover{b:c;}");
    let (rest, item) = TreeRule::parse("a:hover ; d:e").unwrap();
    assert_eq!(rest, "d:e");
    assert!(matches!(item, TreeRule::Rule(_)));
    assert_eq!(item.as_css_string(), "a:hover;");
    assert!(TreeRule::parse("{}").is_err());
}

#[test]
fn ruleset_is_read_by_its_first_character() {
    let (rest, ruleset) = TreeRuleset::parse("@import \"a\"; b{}").unwrap();
    assert_eq!(rest, " b{}");
    assert!(matches!(ruleset, TreeRuleset::QualRule(_)));
    let (rest, ruleset) = TreeRuleset::parse("@media x{ a{b:c} d:e }x").unwrap();
    assert_eq!(rest, "x");
    assert!(matches!(ruleset, TreeRuleset::QualRuleset(_, _)));
    assert_eq!(ruleset.as_css_string(), "@media x{a{b:c;}d:e;}");
    let (rest, ruleset) = TreeRuleset::parse("a , b /* c */ { ; }").unwrap();
    assert_eq!(rest, "");
    assert!(matches!(ruleset, TreeRuleset::SelectorRuleset(_)));
    assert_eq!(ruleset.as_css_string(), "a,b{}");
    assert!(TreeRuleset::parse("@media x}").is_err());
    assert!(TreeRuleset::parse("@media x{").is_err());
    assert!(TreeRuleset::parse("a{b:c").is_err());
    assert!(TreeRuleset::parse(" a{}").is_err());
}

#[test]
fn attribute_renders_in_its_brackets() {
    let attr = SelectorAttr {
        name: "lang".to_owned(),
        value: Some("\"en\"".to_owned()),
    };
    assert_eq!(attr.as_css_string(), "[lang=\"en\"]");
    let attr = SelectorAttr {
        name: "hidden".to_owned(),
        value: None,
    };
    assert_eq!(attr.as_css_string(), "[hidden]");
}
