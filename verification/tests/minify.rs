use procss::{parse, RenderCss};

#[test]
fn test_minify_percent_followed_by_minus() {
    assert_eq!(
        parse("div{width:calc(100% - 24px)}")
            .map(|x| x.as_css_string())
            .as_deref(),
        Ok("div{width:calc(100% - 24px);}")
    )
}

#[test]
fn test_minify_percent_followed_by_plus() {
    assert_eq!(
        parse("div{width:calc(100% + 28px)}")
            .map(|x| x.as_css_string())
            .as_deref(),
        Ok("div{width:calc(100% + 28px);}")
    )
}
