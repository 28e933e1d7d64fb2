//! The relation between two neighbouring terms of a selector.

use vstd::prelude::*;
use crate::ast::token::space::{comment0_at, comment0_end};
use crate::render::RenderCss;
use crate::parser::ParseError;
use crate::text::{at, chars_of, is_at, substring};

verus! {

/// A selector combinator, used to combine a list of selectors.
#[derive(Clone, Copy, Debug, PartialEq, Eq, Hash, Structural)]
pub enum Combinator {
    /// No sign between the two terms: the second is a descendant of the first.
    Null,
    /// `~`
    Sibling,
    /// `+`
    AdjSibling,
    /// `>`
    Desc,
}

impl View for Combinator {
    type V = Combinator;

    open spec fn view(&self) -> Combinator {
        *self
    }
}

impl DeepView for Combinator {
    type V = Combinator;

    open spec fn deep_view(&self) -> Combinator {
        *self
    }
}

/// The combinator at `pos` and its end: whitespace and comments, then `+`,
/// `>` or `~` and again whitespace and comments, or nothing more.
pub open spec fn combinator_parsed(s: Seq<char>, pos: int) -> (Combinator, int) {
    let sign = comment0_end(s, pos);
    if at(s, sign, '+') {
        (Combinator::AdjSibling, comment0_end(s, sign + 1))
    } else if at(s, sign, '>') {
        (Combinator::Desc, comment0_end(s, sign + 1))
    } else if at(s, sign, '~') {
        (Combinator::Sibling, comment0_end(s, sign + 1))
    } else {
        (Combinator::Null, sign)
    }
}

impl Combinator {
    /// Reads the combinator at `pos`; there always is one.
    pub fn parse_at(input: &Vec<char>, pos: usize) -> (r: (Combinator, usize))
        requires
            pos <= input.len(),
        ensures
            r.0 == combinator_parsed(input@, pos as int).0,
            r.1 == combinator_parsed(input@, pos as int).1,
            pos <= r.1 <= input.len(),
    {
        let sign = comment0_at(input, pos);
        if is_at(input, sign, '+') {
            (Combinator::AdjSibling, comment0_at(input, sign + 1))
        } else if is_at(input, sign, '>') {
            (Combinator::Desc, comment0_at(input, sign + 1))
        } else if is_at(input, sign, '~') {
            (Combinator::Sibling, comment0_at(input, sign + 1))
        } else {
            (Combinator::Null, sign)
        }
    }

    /// Reads a combinator from the start of `input`; gives the rest of the
    /// text and the combinator.
    pub fn parse(input: &str) -> (r: Result<(String, Combinator), ParseError>)
        ensures
            r matches Ok((rest, combinator)) && combinator == combinator_parsed(input@, 0).0
                && rest@ == input@.subrange(combinator_parsed(input@, 0).1, input@.len() as int),
    {
        let chars = chars_of(input);
        let (combinator, end) = Combinator::parse_at(&chars, 0);
        Ok((substring(&chars, end, chars.len()), combinator))
    }

    /// The sign of the combinator; a single space where it has none.
    pub open spec fn sign(self) -> char {
        match self {
            Combinator::Null => ' ',
            Combinator::Sibling => '~',
            Combinator::AdjSibling => '+',
            Combinator::Desc => '>',
        }
    }
}

impl RenderCss for Combinator {
    open spec fn css(&self) -> Seq<char> {
        seq![self.sign()]
    }

    fn render(&self, out: &mut String) {
        match self {
            Combinator::Null => out.push(' '),
            Combinator::Sibling => out.push('~'),
            Combinator::AdjSibling => out.push('+'),
            Combinator::Desc => out.push('>'),
        }
        assert(out@ =~= old(out)@ + self.css());
    }
}

} // verus!
