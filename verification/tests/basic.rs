use procss::{parse, RenderCss};

fn rendered(input: &str) -> Result<String, procss::ParseError> {
    parse(input).map(|x| x.as_css_string())
}

fn flattened(input: &str) -> Result<String, procss::ParseError> {
    parse(input).map(|x| x.flatten_tree().as_css_string())
}

#[test]
fn test_css() {
    assert_eq!(rendered("div{color:red}").as_deref(), Ok("div{color:red;}"))
}

#[test]
fn test_multiple_rules() {
    assert_eq!(
        rendered("div{color:red;font:sans}").as_deref(),
        Ok("div{color:red;font:sans;}")
    )
}

#[test]
fn test_multiple_blocks() {
    assert_eq!(
        rendered("div{color:red}a{color:green}").as_deref(),
        Ok("div{color:red;}a{color:green;}")
    )
}

#[test]
fn test_whitspace() {
    assert_eq!(
        rendered(" div { color : red } a { color : green } ").as_deref(),
        Ok("div{color:red;}a{color:green;}")
    )
}

#[test]
fn test_whitspace2() {
    assert_eq!(
        rendered(
            " 
        div { 
            color: red;
        } 
        
        a {
            color: green
        }
        "
        )
        .as_deref(),
        Ok("div{color:red;}a{color:green;}")
    )
}

#[test]
fn test_multiple_pseudo() {
    assert_eq!(
        flattened("div:hover:first-child{color:red}").as_deref(),
        Ok("div:hover:first-child{color:red;}")
    )
}

#[test]
fn test_selector_attribute_pseudo_correct_order() {
    let complex = "
        div[data-value]:before {
            color: red;
        }
    ";

    assert_eq!(
        flattened(complex).as_deref(),
        Ok("div[data-value]:before{color:red;}")
    )
}
