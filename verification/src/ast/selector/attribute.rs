//! Attribute matchers: `[name]` and `[name=value]`.

use vstd::prelude::*;
use vstd::string::StringExecFns;
use crate::ast::token::chars::{run_end, scan, CharClass};
use crate::ast::token::symbol::{symbol_at, symbol_end};
use crate::parser::{ErrorKind, ParseError};
use crate::render::RenderCss;
use crate::text::{at, chars_of, is_at, substring};

verus! {

/// A selector which matches attributes, optionally against their value as
/// well. A value keeps the quotes it was written with.
#[derive(Debug, PartialEq, Eq, Hash)]
pub struct SelectorAttr {
    pub name: String,
    pub value: Option<String>,
}

/// What a `SelectorAttr` stands for.
pub struct SelectorAttrView {
    pub name: Seq<char>,
    pub value: Option<Seq<char>>,
}

impl View for SelectorAttr {
    type V = SelectorAttrView;

    open spec fn view(&self) -> SelectorAttrView {
        SelectorAttrView { name: self.name@, value: self.value.deep_view() }
    }
}

impl DeepView for SelectorAttr {
    type V = SelectorAttrView;

    open spec fn deep_view(&self) -> SelectorAttrView {
        self@
    }
}

/// The attribute matcher at `pos` and its end: `[`, a symbol, then `=` and a
/// value of one or more characters other than `]` where there is one, and `]`.
pub open spec fn attr_parsed(s: Seq<char>, pos: int) -> Option<(SelectorAttrView, int)> {
    if at(s, pos, '[') {
        match symbol_end(s, pos + 1) {
            Some(name_end) => {
                let name = s.subrange(pos + 1, name_end);
                let value_end = run_end(s, name_end + 1, CharClass::AttrValue);
                if at(s, name_end, '=') && value_end > name_end + 1 {
                    if at(s, value_end, ']') {
                        Some(
                            (
                                SelectorAttrView {
                                    name,
                                    value: Some(s.subrange(name_end + 1, value_end)),
                                },
                                value_end + 1,
                            ),
                        )
                    } else {
                        None
                    }
                } else if at(s, name_end, ']') {
                    Some((SelectorAttrView { name, value: None }, name_end + 1))
                } else {
                    None
                }
            },
            None => None,
        }
    } else {
        None
    }
}

/// The text of an attribute matcher: in square brackets, the name and, after
/// `=`, the value where there is one.
pub open spec fn attr_text(attr: SelectorAttrView) -> Seq<char> {
    match attr.value {
        Some(value) => seq!['['] + attr.name + seq!['='] + value + seq![']'],
        None => seq!['['] + attr.name + seq![']'],
    }
}

impl Clone for SelectorAttr {
    fn clone(&self) -> (r: Self)
        ensures
            r@ == self@,
    {
        SelectorAttr {
            name: self.name.clone(),
            value: match &self.value {
                Some(v) => Some(v.clone()),
                None => None,
            },
        }
    }
}

impl SelectorAttr {
    /// Reads the attribute matcher that starts at `pos`.
    pub fn parse_at(input: &Vec<char>, pos: usize) -> (r: Option<(SelectorAttr, usize)>)
        requires
            pos <= input.len(),
        ensures
            r matches Some((attr, end)) ==> attr_parsed(input@, pos as int) == Some(
                (attr@, end as int),
            ) && pos < end <= input.len(),
            r is None ==> attr_parsed(input@, pos as int) is None,
    {
        if !is_at(input, pos, '[') {
            return None;
        }
        let name_end = match symbol_at(input, pos + 1) {
            Some(end) => end,
            None => {
                return None;
            },
        };
        let name = substring(input, pos + 1, name_end);
        if is_at(input, name_end, '=') {
            let value_end = scan(input, name_end + 1, CharClass::AttrValue);
            if value_end > name_end + 1 {
                if is_at(input, value_end, ']') {
                    let value = substring(input, name_end + 1, value_end);
                    return Some((SelectorAttr { name, value: Some(value) }, value_end + 1));
                } else {
                    return None;
                }
            }
        }
        if is_at(input, name_end, ']') {
            Some((SelectorAttr { name, value: None }, name_end + 1))
        } else {
            None
        }
    }

    /// Reads an attribute matcher from the start of `input`; gives the rest
    /// of the text and the matcher.
    pub fn parse(input: &str) -> (r: Result<(String, SelectorAttr), ParseError>)
        ensures
            match r {
                Ok((rest, attr)) => attr_parsed(input@, 0) matches Some((view, end)) && attr@
                    == view && rest@ == input@.subrange(end, input@.len() as int),
                Err(e) => attr_parsed(input@, 0) is None && e.kind == ErrorKind::Mismatch
                    && e.detail is None,
            },
    {
        let chars = chars_of(input);
        match SelectorAttr::parse_at(&chars, 0) {
            Some((attr, end)) => Ok((substring(&chars, end, chars.len()), attr)),
            None => Err(ParseError::mismatch()),
        }
    }

    /// Whether the two matchers stand for the same.
    pub fn same(&self, other: &SelectorAttr) -> (r: bool)
        ensures
            r == (self@ == other@),
    {
        self.name == other.name && match (&self.value, &other.value) {
            (Some(a), Some(b)) => *a == *b,
            (None, None) => true,
            _ => false,
        }
    }

}

impl RenderCss for SelectorAttr {
    open spec fn css(&self) -> Seq<char> {
        attr_text(self@)
    }

    fn render(&self, out: &mut String) {
        out.push('[');
        out.append(self.name.as_str());
        match &self.value {
            Some(value) => {
                out.push('=');
                out.append(value.as_str());
            },
            None => {},
        }
        out.push(']');
        assert(out@ =~= old(out)@ + attr_text(self@));
        assert(self.css() == attr_text(self@));
    }
}

} // verus!
