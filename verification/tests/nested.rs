use procss::{parse, RenderCss};

fn flat(input: &str) -> Result<String, procss::ParseError> {
    parse(input).map(|x| x.flatten_tree().as_css_string())
}

#[test]
fn test_nested() {
    assert_eq!(
        parse("div{div{color:red}}")
            .map(|x| x.as_css_string())
            .as_deref(),
        Ok("div{div{color:red;}}")
    )
}

#[test]
fn test_flat_nested() {
    assert_eq!(flat("div{div{color:red}}").as_deref(), Ok("div div{color:red;}"))
}

#[test]
fn test_ambiguous_rule() {
    let complex = "
        div {
            div:hover{
                color: red
            }
        }
    ";

    assert_eq!(flat(complex).as_deref(), Ok("div div:hover{color:red;}"))
}

#[test]
fn test_self() {
    let complex = "
        div {
            &:hover{
                color: red
            }
        }
    ";

    assert_eq!(flat(complex).as_deref(), Ok("div:hover{color:red;}"))
}

// The id of the nested term takes the place of that of its parent.
#[test]
fn test_settings() {
    let complex = "
        #test {
            &#test2:before {
                color: red;
            }
        }
    ";

    assert_eq!(flat(complex).as_deref(), Ok("#test2:before{color:red;}"))
}

#[test]
fn test_desc_all() {
    let complex = "
        .test {
            & > * {
                color: red;
            }
        }

    ";

    assert_eq!(flat(complex).as_deref(), Ok(".test>*{color:red;}"))
}

#[test]
fn test_self_attr() {
    let complex = "
        div {
            &[data-label] {
                color: red;
            }
        }
    ";

    assert_eq!(flat(complex).as_deref(), Ok("div[data-label]{color:red;}"))
}

// https://github.com/sass/sass-spec#hrx
#[test]
fn test_scss_example() {
    let complex = "
        ul {
            margin-left: 1em;
            li {
                list-style-type: none;
            }
        }
    ";

    assert_eq!(
        flat(complex).as_deref(),
        Ok("ul{margin-left:1em;}ul li{list-style-type:none;}")
    )
}
