use procss::ast::selector::{SelType, Selector};
use procss::ast::{Combinator, Pseudo, PseudoMode, SelectorAttr, SelectorPath, SelectorTerm};
use procss::RenderCss;

#[test]
fn test_tag() {
    let (rest, term) = SelectorTerm::parse("--column-selector--background").unwrap();
    assert_eq!(rest, "");
    assert_eq!(term.tag.as_deref(), Some("--column-selector--background"));
}

#[test]
fn test_class() {
    let (rest, term) = SelectorTerm::parse(".column-selector--background").unwrap();
    assert_eq!(rest, "");
    assert_eq!(term.class, vec!["column-selector--background"]);
}

#[test]
fn test_classes() {
    let (rest, term) =
        SelectorTerm::parse(".column-selector.column-selector--background").unwrap();
    assert_eq!(rest, "");
    assert_eq!(
        term.class,
        vec!["column-selector", "column-selector--background"]
    );
}

#[test]
fn test_attribute() {
    let (rest, term) = SelectorTerm::parse("[name=test]").unwrap();
    assert_eq!(rest, "");
    assert_eq!(
        term.attribute,
        vec![SelectorAttr {
            name: "name".to_owned(),
            value: Some("test".to_owned())
        }]
    );
}

#[test]
fn test_id() {
    let (rest, term) = SelectorTerm::parse("#column-selector--background").unwrap();
    assert_eq!(rest, "");
    assert_eq!(term.id.as_deref(), Some("column-selector--background"));
}

#[test]
fn test_id_class_tag() {
    let (rest, term) = SelectorTerm::parse(
        "div#column-selector.column-selector.column-selector--background",
    )
    .unwrap();
    assert_eq!(rest, "");
    assert_eq!(term.id.as_deref(), Some("column-selector"));
    assert_eq!(term.tag.as_deref(), Some("div"));
    assert_eq!(
        term.class,
        vec!["column-selector", "column-selector--background"]
    );
}

#[test]
fn test_pesudo() {
    let (rest, term) = SelectorTerm::parse("div:hover").unwrap();
    assert_eq!(rest, "");
    assert_eq!(term.tag.as_deref(), Some("div"));
    assert_eq!(term.pseudo.len(), 1);
    assert_eq!(
        term.pseudo[0],
        Pseudo {
            property: "hover".to_owned(),
            value: None,
            mode: PseudoMode::PseudoClass
        }
    );
}

#[test]
fn test_parameterized_pesudo() {
    let (rest, term) = SelectorTerm::parse("div:not(.test)").unwrap();
    assert_eq!(rest, "");
    assert_eq!(term.tag.as_deref(), Some("div"));
    assert_eq!(term.pseudo.len(), 1);
    assert_eq!(term.pseudo[0].property, "not");
    assert!(term.pseudo[0].value.is_some());
    assert_eq!(term.pseudo[0].mode, PseudoMode::PseudoClass);
}

#[test]
fn test_parameterized_pesudo_nth_child() {
    let (rest, term) = SelectorTerm::parse("div:nth-child(2)").unwrap();
    assert_eq!(rest, "");
    assert_eq!(term.tag.as_deref(), Some("div"));
    assert_eq!(term.pseudo.len(), 1);
    assert_eq!(term.pseudo[0].property, "nth-child");
    assert!(term.pseudo[0].value.is_some());
    assert_eq!(term.pseudo[0].mode, PseudoMode::PseudoClass);
}

#[test]
fn test_parameterized_pesudo_renders_correctly() {
    assert_eq!(
        SelectorTerm::parse("div:nth-child(2)")
            .map(|x| x.1.as_css_string())
            .as_deref(),
        Ok("div:nth-child(2)")
    )
}

#[test]
fn test_pesudo_element() {
    let (rest, term) = SelectorTerm::parse("div::-webkit-scroll-thumb").unwrap();
    assert_eq!(rest, "");
    assert_eq!(term.tag.as_deref(), Some("div"));
    assert_eq!(term.pseudo.len(), 1);
    assert_eq!(
        term.pseudo[0],
        Pseudo {
            property: "-webkit-scroll-thumb".to_owned(),
            value: None,
            mode: PseudoMode::PseudoElement
        }
    );
}

#[test]
fn test_pesudo_element_renders_correctly() {
    assert_eq!(
        SelectorTerm::parse("div::-webkit-scroll-thumb")
            .map(|x| x.1.as_css_string())
            .as_deref(),
        Ok("div::-webkit-scroll-thumb")
    )
}

#[test]
fn term_needs_a_tag_or_a_qualifier() {
    assert!(SelectorTerm::parse("").is_err());
    assert!(SelectorTerm::parse("{").is_err());
    assert!(SelectorTerm::parse(" div").is_err());
}

#[test]
fn term_keeps_the_last_id() {
    let (_, term) = SelectorTerm::parse("a#one.x#two").unwrap();
    assert_eq!(term.id.as_deref(), Some("two"));
    assert_eq!(term.as_css_string(), "a#two.x");
}

#[test]
fn term_renders_its_parts_in_a_fixed_order() {
    let (_, term) = SelectorTerm::parse("a:hover[x=1].c#i[y].d::after").unwrap();
    assert_eq!(term.as_css_string(), "a#i.c.d[x=1][y]:hover::after");
}

#[test]
fn pseudo_without_closing_bracket_has_no_argument() {
    let (rest, term) = SelectorTerm::parse("a:not(.b").unwrap();
    assert_eq!(rest, "(.b");
    assert_eq!(term.pseudo[0].value, None);
}

#[test]
fn new_gathers_the_qualifiers() {
    let term = SelectorTerm::new(
        Some("p".to_owned()),
        &vec![
            SelType::Class("a".to_owned()),
            SelType::Id("one".to_owned()),
            SelType::Attr(SelectorAttr {
                name: "k".to_owned(),
                value: None,
            }),
            SelType::Class("b".to_owned()),
            SelType::Id("two".to_owned()),
        ],
    );
    assert_eq!(term.tag.as_deref(), Some("p"));
    assert_eq!(term.id.as_deref(), Some("two"));
    assert_eq!(term.class, vec!["a", "b"]);
    assert_eq!(term.attribute.len(), 1);
    assert!(term.pseudo.is_empty());
}

fn term(text: &str) -> SelectorTerm {
    SelectorTerm::parse(text).unwrap().1
}

#[test]
fn join_appends_and_prefers_the_id_of_the_child() {
    let joined = term("div#a.x[k]:hover").join(&term("#b.y[l]:focus"));
    assert_eq!(joined.as_css_string(), "div#b.x.y[k][l]:hover:focus");
    let joined = term("div#a").join(&term(".y"));
    assert_eq!(joined.as_css_string(), "div#a.y");
    let joined = term("div").join(&term("span.y"));
    assert_eq!(joined.as_css_string(), "div.y");
}

fn path(text: &str) -> SelectorPath {
    Selector::parse(text).unwrap().1.paths()[0].clone()
}

#[test]
fn path_join_follows_or_merges() {
    assert_eq!(path("a > b").join(&path("c + d")).as_css_string(), "a>b c+d");
    assert_eq!(path("a > b").join(&path("&.x ~ d")).as_css_string(), "a>b.x~d");
    assert_eq!(path("a").join(&path("&:hover")).as_css_string(), "a:hover");
    assert_eq!(path("&.p").join(&path("&.q")).as_css_string(), "&.p.q");
}

#[test]
fn selector_join_pairs_every_path() {
    let parent = Selector::parse("a, b").unwrap().1;
    let child = Selector::parse("&.x, c").unwrap().1;
    assert_eq!(parent.join(&child).as_css_string(), "a.x,a c,b.x,b c");
    assert!(parent.same(&parent.clone()));
    assert!(!parent.same(&child));
}

#[test]
fn selector_reads_a_list() {
    let (rest, selector) = Selector::parse("a ,b>c /* x */ , d {").unwrap();
    assert_eq!(rest, " {");
    assert_eq!(selector.as_css_string(), "a,b>c,d");
    assert_eq!(selector.paths().len(), 3);
}

#[test]
fn combinators_render_as_their_sign() {
    assert_eq!(Combinator::Null.as_css_string(), " ");
    assert_eq!(Combinator::Sibling.as_css_string(), "~");
    assert_eq!(Combinator::AdjSibling.as_css_string(), "+");
    assert_eq!(Combinator::Desc.as_css_string(), ">");
}

#[test]
fn combinators_are_read_with_the_space_round_them() {
    assert_eq!(
        Combinator::parse(" + x"),
        Ok(("x".to_owned(), Combinator::AdjSibling))
    );
    assert_eq!(Combinator::parse(" x"), Ok(("x".to_owned(), Combinator::Null)));
    assert_eq!(Combinator::parse("x"), Ok(("x".to_owned(), Combinator::Null)));
    assert_eq!(
        Combinator::parse("~/* c */x"),
        Ok(("x".to_owned(), Combinator::Sibling))
    );
    assert_eq!(Combinator::parse(">"), Ok((String::new(), Combinator::Desc)));
    assert_eq!(
        Combinator::parse_at(&"a > b".chars().collect(), 1),
        (Combinator::Desc, 4)
    );
}

#[test]
fn pseudo_is_read_with_its_argument() {
    let (rest, pseudo) = Pseudo::parse("::before{").unwrap();
    assert_eq!(rest, "{");
    assert_eq!(pseudo.mode, PseudoMode::PseudoElement);
    assert_eq!(pseudo.property, "before");
    assert_eq!(pseudo.value, None);
    let (rest, pseudo) = Pseudo::parse(":not(a.b:hover) x").unwrap();
    assert_eq!(rest, " x");
    assert_eq!(pseudo.as_css_string(), ":not(a.b:hover)");
    assert!(Pseudo::parse("before").is_err());
    assert!(Pseudo::parse(": before").is_err());
}
