use procss::ast::{Css, Tree};
use procss::transformers::inline_url::{asset_path, data_uri, parse_url};
use procss::transformers::{
    apply_import, apply_mixin, apply_var, asset_paths, dedupe, filter_refs, inline_url,
    url_references, Asset,
};
use procss::ast::Rule;
use procss::{parse, RenderCss, TransformCss};

#[test]
fn apply_import_test_apply_import() {
    let trees = vec![(
        "test".to_owned(),
        parse("div.closed{color: green}").unwrap(),
    )];

    let mut result = parse(
        "
            @import \"test\";
            div.open {
                color: red;
            }
        ",
    )
    .unwrap();
    apply_import(&trees, &mut result);

    let result = result.flatten_tree().as_css_string();
    assert_eq!(&*result, "div.closed{color:green;}div.open{color:red;}")
}

#[test]
fn test_import_ref() {
    let trees = vec![(
        "test".to_owned(),
        parse("div.closed{color: ref}@green: #00FF00;").unwrap(),
    )];
    assert_eq!(
        parse(
            "
            @import url(\"ref://test\");
            div.open {
                color: @green;
            }
        "
        )
        .map(|mut x| {
            apply_import(&trees, &mut x);
            apply_var(&mut x);
            x.flatten_tree().as_css_string()
        })
        .as_deref(),
        Ok("div.open{color:#00FF00;}")
    )
}

#[test]
fn import_of_an_unknown_path_stays() {
    let trees: Vec<(String, Tree)> = vec![("a".to_owned(), parse("a{b:c}").unwrap())];
    let mut tree = parse("@import \"b\";@import url(\"ref://c\");@import a;x{y:z}").unwrap();
    apply_import(&trees, &mut tree);
    assert_eq!(
        tree.as_css_string(),
        "@import \"b\";@import url(\"ref://c\");@import a;x{y:z;}"
    );
}

#[test]
fn import_takes_the_first_tree_of_a_path() {
    let trees = vec![
        ("a".to_owned(), parse("one{b:c}").unwrap()),
        ("a".to_owned(), parse("two{b:c}").unwrap()),
    ];
    let mut tree = parse("x{y:z}@import \"a\";").unwrap();
    apply_import(&trees, &mut tree);
    assert_eq!(tree.as_css_string(), "x{y:z;}one{b:c;}");
}

#[test]
fn apply_mixin_test_advanced_mixin() {
    assert_eq!(
        parse(
            "
            @mixin test {
                color: green;
                opacity: 0;
            }

            div.open {
                color: red;
                @include test;
            }
        "
        )
        .map(|mut x| {
            apply_mixin(&mut x);
            x.flatten_tree().as_css_string()
        })
        .as_deref(),
        Ok("div.open{color:red;}div.open{color:green;opacity:0;}")
    )
}

#[test]
fn mixin_body_comes_in_as_it_was_declared() {
    let mut tree = parse(
        "@mixin a{x:1}@mixin b{@include a;y:2}p{@include b;q{@include a;@include c;}}@include a;",
    )
    .unwrap();
    apply_mixin(&mut tree);
    assert_eq!(
        tree.as_css_string(),
        "p{&{@include a;y:2;}q{&{x:1;}@include c;}}&{x:1;}"
    );
}

#[test]
fn last_declaration_of_a_mixin_counts() {
    let mut tree = parse("@mixin a{x:1}p{@include a;}@mixin a{x:2}").unwrap();
    apply_mixin(&mut tree);
    assert_eq!(tree.flatten_tree().as_css_string(), "p{x:2;}");
}

#[test]
fn test_var() {
    assert_eq!(
        parse(
            "
            @evilred: #FF1111;

            div.open {
                color: @evilred;
            }
        "
        )
        .map(|mut x| {
            apply_var(&mut x);
            x.flatten_tree().as_css_string()
        })
        .as_deref(),
        Ok("div.open{color:#FF1111;}")
    )
}

#[test]
fn test_var_overlapping_name() {
    assert_eq!(
        parse(
            "
            @blue: #CCCCFF;
            @bluemore: #0000FF;
            div.open {
                color: @bluemore;
            }
        "
        )
        .map(|mut x| {
            apply_var(&mut x);
            x.flatten_tree().as_css_string()
        })
        .as_deref(),
        Ok("div.open{color:#0000FF;}")
    )
}

#[test]
fn unbound_variable_stays() {
    let mut tree = parse("@a: 1px;@a: 2px;p{m:@a @b @ @a;@media x{q{n:-@a}}}").unwrap();
    apply_var(&mut tree);
    assert_eq!(tree.as_css_string(), "p{m:2px@b@2px;@media x{q{n:-2px;}}}");
}

#[test]
fn dedupe_test_advanced_mixin() {
    let test_data =
        "
    div[theme=\"custom\"] {
        @include div-theme;
    }
    
    perspective-copy-menu[theme=\"custom\"],
    .perspective-modal-theme {
        @include perspective-modal-theme;
    }
    
    @mixin div-theme {
        @include div-theme--dimensions;
        @include div-theme--colors;
        @include div-theme--fonts;
        @include div-theme--intl;
        @include div-theme--chart;
        @include div-theme--datagrid;
        @include div-theme--openlayers;
    }
    
    @mixin perspective-modal-theme {
        @include div-theme--fonts;
        @include div-theme--colors;
        background-color: white;
        --column-style-pos-color--content: \"add\";
    }
    
    @mixin div-theme--dimensions {
        --button--font-size: 16px;--config-button--padding: 15px 8px 6px 8px;
        // Comment comment comment
    }
    
    @mixin div-theme--colors {
        color: #161616;
        background-color: #f2f4f6;
    }
    
    @mixin div-theme--fonts {
        font-family: \"Open Sans\";
        --interface-monospace--font-family: \"Roboto Mono\";
        --button--font-family: \"theme Icons\";
    }
    
    @mixin div-theme--intl {
        // Query overlay labels
        --group_by--content: \"Group By\";
        --split_by--content: \"Split By\";
    
        // Icons
        --inactive-column-selector--content: \"\\E835\";
        --active-column-selector--content: \"\\E834\";
    }
    
    @mixin div-theme--chart {
        --chart-y1-label--content: \"arrow_upward\";
        --chart-y2-label--content: \"arrow_downward\";
        --chart-full--gradient: linear-gradient(#4d342f 0%,
                #e4521b 22.5%,
                #feeb65 42.5%,
                #f0f0f0 50%,
                #dcedc8 57.5%,
                #42b3d5 67.5%,
                #1a237e 100%);
        --chart-positive--gradient: linear-gradient(#f0f0f0 0%,
                #dcedc8 10%,
                #42b3d5 50%,
                #1a237e 100%);
        --chart-negative--gradient: linear-gradient(#4d342f 0%,
                #e4521b 50%,
                #feeb65 90%,
                #f0f0f0 100%);
    }
    
    @mixin div-theme--openlayers {
        --map-tile-url: \"http://{a-c}.basemaps.cartocdn.com/light_all/{z}/{x}/{y}.png\";
    }
    
    @mixin div-theme--datagrid {
        --column-style-open-button--content: \"menu\";
        --column-style-close-button--content: \"expand_less\";
    
        table::-webkit-scrollbar-thumb {
            background-color: transparent;
        }
    
        table:hover::-webkit-scrollbar-thumb {
            background-color: #e0e4e9;
        }
    }";

    assert_eq!(
        parse(test_data)
            .map(|mut tree| {
                apply_mixin(&mut tree);
                let mut flat = tree.flatten_tree();
                dedupe(&mut flat);
                flat.as_css_string()
            })
            .as_deref(),
        Ok("@include div-theme--dimensions;@include div-theme--colors;@include \
            div-theme--fonts;@include div-theme--intl;@include div-theme--chart;@include \
            div-theme--datagrid;@include div-theme--openlayers;@include \
            div-theme--fonts;@include div-theme--colors;perspective-copy-menu[theme=\"custom\"],.\
            perspective-modal-theme{background-color:white;\
            --column-style-pos-color--content:\"add\";}")
    )
}

fn flat(text: &str) -> Css {
    parse(text).unwrap().flatten_tree()
}

#[test]
fn dedupe_merges_neighbours() {
    let mut css = flat("a{x:1}a{y:2}a{z:3}b{w:4}");
    dedupe(&mut css);
    assert_eq!(css.as_css_string(), "a{x:1;y:2;z:3;}b{w:4;}");
}

#[test]
fn dedupe_leaves_apart_what_is_not_adjacent() {
    let mut css = flat("a{x:1}b{y:2}a{z:3}");
    dedupe(&mut css);
    assert_eq!(css.as_css_string(), "a{x:1;}b{y:2;}a{z:3;}");
}

#[test]
fn dedupe_drops_a_repeated_statement() {
    let mut css = flat("@import \"a\";@import \"a\";@import \"b\";@import \"a\";");
    dedupe(&mut css);
    assert_eq!(css.as_css_string(), "@import \"a\";@import \"b\";@import \"a\";");
}

#[test]
fn dedupe_keeps_at_rules_with_a_body_apart() {
    let mut css = flat("@media x{a{b:c}}@media x{a{b:c}}@font-face{a:b}@font-face{a:b}");
    dedupe(&mut css);
    assert_eq!(
        css.as_css_string(),
        "@media x{a{b:c;}}@media x{a{b:c;}}@font-face{a:b;}@font-face{a:b;}"
    );
    let mut css = Css(vec![]);
    dedupe(&mut css);
    assert_eq!(css.as_css_string(), "");
}

#[test]
fn test_filter_refs() {
    let tree = parse(
        "
            div {
                color: green;
            }

            @red: #ff0000;

            @font-face {
                name: \"test\";
            }

            @media (min-width: 100px) {
                @media (max-width: 100px) {
                    div {
                        color: green;
                    }
                }
            }
        ",
    )
    .map(|mut x| {
        filter_refs(&mut x);
        x
    })
    .unwrap();
    assert!(tree.0.len() == 3)
}

/// Stands in for the disk: every file that is asked for holds `abcde`.
fn read_all(paths: Vec<String>) -> Vec<Asset> {
    paths
        .into_iter()
        .map(|path| Asset {
            path,
            contents: "abcde".as_bytes().to_owned(),
        })
        .collect()
}

#[test]
fn test_inline_url() {
    assert_eq!(
        parse(
            "
            div.open {
                color: url(\"/test.svg\");
            }
        "
        )
        .map(|x| {
            let mut css = x.flatten_tree();
            let assets = read_all(asset_paths("", &css));
            inline_url("", &assets, &mut css);
            css.as_css_string()
        })
        .as_deref(),
        Ok("div.open{color:url(\"data:image/svg+xml;base64,YWJjZGU=\");}")
    )
}

#[test]
fn test_omit_non_path_inline_url() {
    assert_eq!(
        parse(
            "
            div.open {
                color: url(\"test.svg\");
            }
        "
        )
        .map(|x| {
            let mut css = x.flatten_tree();
            let assets = read_all(asset_paths("", &css));
            inline_url("", &assets, &mut css);
            css.as_css_string()
        })
        .as_deref(),
        Ok("div.open{color:url(\"test.svg\");}")
    )
}

#[test]
fn url_has_to_be_the_whole_value() {
    assert_eq!(parse_url(&"url(\"a b\")".to_owned()).as_deref(), Some("a b"));
    assert_eq!(parse_url(&"url(a b)".to_owned()).as_deref(), Some("a b"));
    assert_eq!(parse_url(&"url(\"a\") x".to_owned()), None);
    assert_eq!(parse_url(&"url(a) x".to_owned()), None);
    assert_eq!(parse_url(&"url()".to_owned()), None);
    assert_eq!(parse_url(&"url(\"\")".to_owned()).as_deref(), Some("\"\""));
    assert_eq!(parse_url(&"x url(a)".to_owned()), None);
    assert_eq!(parse_url(&"url(\"a)".to_owned()).as_deref(), Some("\"a"));
}

#[test]
fn data_uri_wraps_the_encoded_content() {
    assert_eq!(
        data_uri("AAAA"),
        "url(\"data:image/svg+xml;base64,AAAA\")"
    );
}

#[test]
fn asset_paths_are_those_of_the_project() {
    assert_eq!(asset_path("", "/a.svg").as_deref(), Some("/a.svg"));
    assert_eq!(asset_path("", "./a.svg").as_deref(), Some("./a.svg"));
    assert_eq!(asset_path("", "."), Some(".".to_owned()));
    assert_eq!(asset_path("", "a.svg"), None);
    assert_eq!(asset_path("", ".a.svg"), None);
    assert_eq!(asset_path("", ""), None);
    assert_eq!(asset_path("./src/app", "a.svg").as_deref(), Some("./src/app/a.svg"));
    assert_eq!(asset_path("./src/app", "/a.svg").as_deref(), Some("/a.svg"));
    assert_eq!(asset_path("src", "a.svg"), None);
    assert_eq!(asset_path("/src/", "a.svg").as_deref(), Some("/src/a.svg"));
    let css = flat("p{x:url(a);y:url(./b);z:1px}q{w:url(\"/c d\")}");
    assert_eq!(asset_paths(".", &css), vec!["./a", "././b", "/c d"]);
    assert_eq!(asset_paths("", &css), vec!["./b", "/c d"]);
}

#[test]
fn inline_url_reaches_every_rule() {
    let assets = vec![
        Asset {
            path: "/d/a".to_owned(),
            contents: vec![1, 2, 3],
        },
        Asset {
            path: "/d/a".to_owned(),
            contents: vec![],
        },
    ];
    let mut css = flat("p{x:url(a);y:url(b)}@media m{q{z:url(\"a\")}}@font-face{src:url(a)}");
    assert_eq!(url_references(&css), vec!["a", "b", "a", "a"]);
    inline_url("/d", &assets, &mut css);
    assert_eq!(
        css.as_css_string(),
        "p{x:url(\"data:image/svg+xml;base64,AQID\");y:url(b);}@media \
         m{q{z:url(\"data:image/svg+xml;base64,AQID\");}}@font-face{src:url(\"data:image/svg+\
         xml;base64,AQID\");}"
    );
}

struct Shout;

impl TransformCss<Rule> for Shout {
    fn transform(&self, rule: &mut Rule) {
        rule.value = rule.value.to_uppercase();
    }
}

struct Important;

impl TransformCss<procss::ast::TreeRuleset> for Important {
    fn transform(&self, ruleset: &mut procss::ast::TreeRuleset) {
        if let procss::ast::TreeRuleset::SelectorRuleset(inner) = ruleset {
            inner.1.push(procss::ast::TreeRule::Rule(Rule {
                property: "seen".to_owned(),
                value: inner.1.len().to_string(),
            }));
        }
    }
}

#[test]
fn transform_reaches_every_rule() {
    let mut tree = parse("a{x:p;b{y:q}}@media m{c{z:r}w:s}@import t;").unwrap();
    tree.transform_rules(&Shout);
    assert_eq!(
        tree.as_css_string(),
        "a{x:P;b{y:Q;}}@media m{c{z:R;}w:S;}@import t;"
    );
    let mut css = flat("a{x:p;b{y:q}}@media m{c{z:r}w:s}");
    css.transform(&Shout);
    assert_eq!(
        css.as_css_string(),
        "a{x:P;}a b{y:Q;}@media m{w:S;}@media m{c{z:R;}}"
    );
}

#[test]
fn transform_rewrites_a_ruleset_after_its_body() {
    let mut tree = parse("a{b{x:1}c{}}@media m{d{}}").unwrap();
    tree.transform(&Important);
    assert_eq!(
        tree.as_css_string(),
        "a{b{x:1;seen:1;}c{seen:0;}seen:2;}@media m{d{}}"
    );
}
