use procss::{parse, RenderCss};

fn nested_text(input: &str) -> Result<String, procss::ParseError> {
    parse(input).map(|x| x.as_css_string())
}

fn flat_text(input: &str) -> Result<String, procss::ParseError> {
    parse(input).map(|x| x.flatten_tree().as_css_string())
}

#[test]
fn test_simple() {
    assert_eq!(
        nested_text(
            "
        @meta {
            div {
                color: red;
            }
        }
        "
        )
        .as_deref(),
        Ok("@meta{div{color:red;}}")
    )
}

#[test]
fn test_simple_flatten() {
    assert_eq!(
        flat_text(
            "
        @meta {
            div {
                color: red;
            }
        }
        "
        )
        .as_deref(),
        Ok("@meta{div{color:red;}}")
    )
}

#[test]
fn test_nested_within_qualified() {
    assert_eq!(
        flat_text(
            "
        @meta {
            div {
                .open {
                    color: red;
                }
            }
        }
        "
        )
        .as_deref(),
        Ok("@meta{div .open{color:red;}}")
    )
}

#[test]
fn test_double_nested_within_qualified() {
    assert_eq!(
        flat_text(
            "
        @meta {
            @alpha {
                span {
                    color: green;
                }
            }

            div {
                .open {
                    color: red;
                }
            }
        }
        "
        )
        .as_deref(),
        Ok("@meta{@alpha{span{color:green;}}div .open{color:red;}}")
    )
}

#[test]
fn test_import() {
    assert_eq!(
        flat_text(
            "
        @import \"test\";

        div {
            color: green;
        }
        "
        )
        .as_deref(),
        Ok("@import \"test\";div{color:green;}")
    )
}

#[test]
fn test_font_face() {
    assert_eq!(
        flat_text(
            "
            @font-face {
                font-family: \"Open Sans\";
                font-display: block;
                src: url(./font/open-sans.woff2) format(\"truetype\");
            }
        "
        )
        .as_deref(),
        Ok("@font-face{font-family:\"Open \
            Sans\";font-display:block;src:url(./font/open-sans.woff2)format(\"truetype\");}")
    )
}

#[test]
fn test_media() {
    assert_eq!(
        flat_text(
            "
            @media (max-width: 1250px) {
                div {
                    color: red;
                }
            }
        "
        )
        .as_deref(),
        Ok("@media (max-width: 1250px){div{color:red;}}")
    )
}

#[test]
fn test_nested_media_preserved_after_flatten() {
    assert_eq!(
        flat_text(
            "
            @media (max-width: 1250px) {
                @media (min-width: 50px) {
                    div {
                        color: red;
                    }

                    div span {
                        color: blue;
                    }
                }
            }
        "
        )
        .as_deref(),
        Ok(
            "@media (max-width: 1250px){@media (min-width: 50px){div{color:red;}div \
             span{color:blue;}}}"
        )
    )
}

#[test]
fn test_simple_ruleset() {
    assert_eq!(
        flat_text(
            "
            @test {
                div {
                    color: red;
                }

                span {
                    color: blue;
                }
            }
        "
        )
        .as_deref(),
        Ok("@test{div{color:red;}span{color:blue;}}")
    )
}

#[test]
fn test_keyframes() {
    assert_eq!(
        flat_text(
            "
            @keyframes animation {
                0% {
                    filter: opacity(1);
                    transform: none;
                }
            
                100% {
                    filter: opacity(0.2);
                    transform: none;
                }
            }
            
        "
        )
        .as_deref(),
        Ok("@keyframes \
            animation{0%{filter:opacity(1);transform:none;}100%{filter:opacity(0.2);transform:\
            none;}}")
    )
}

#[test]
fn test_simple_mixin() {
    assert_eq!(
        nested_text(
            "
            @mixin test {
                color: green;
                opacity: 0;
            }

            div.open {
                color: red;
                @include test;
            }
        "
        )
        .as_deref(),
        Ok("@mixin test{color:green;opacity:0;}div.open{color:red;@include test;}")
    )
}
