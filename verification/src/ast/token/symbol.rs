//! Symbols: the names of tags, classes, properties and the like.

use vstd::prelude::*;
use crate::ast::token::chars::{lemma_run_end, run_end, scan, CharClass};
use crate::parser::ParseError;
use crate::text::{chars_of, substring};

verus! {

/// The end of the symbol that starts at `pos`: one or more ASCII letters,
/// digits, `-`, `_`, `*` or `%`.
pub open spec fn symbol_end(s: Seq<char>, pos: int) -> Option<int> {
    let end = run_end(s, pos, CharClass::Symbol);
    if end > pos {
        Some(end)
    } else {
        None
    }
}

/// A symbol is not empty and ends within the text.
pub proof fn lemma_symbol_end(s: Seq<char>, pos: int)
    requires
        0 <= pos <= s.len(),
    ensures
        symbol_end(s, pos) matches Some(end) ==> pos < end <= s.len(),
{
    lemma_run_end(s, pos, CharClass::Symbol);
}

/// Reads the symbol that starts at `pos`.
pub fn symbol_at(input: &Vec<char>, pos: usize) -> (r: Option<usize>)
    requires
        pos <= input.len(),
    ensures
        r matches Some(end) ==> symbol_end(input@, pos as int) == Some(end as int) && pos < end
            <= input.len(),
        r is None ==> symbol_end(input@, pos as int) is None,
{
    let end = scan(input, pos, CharClass::Symbol);
    if end > pos {
        Some(end)
    } else {
        None
    }
}

/// Reads a symbol from the start of `input`; gives the rest of the text and
/// the symbol.
pub fn parse_symbol(input: &str) -> (r: Result<(String, String), ParseError>)
    ensures
        match r {
            Ok((rest, name)) => symbol_end(input@, 0) matches Some(end) && name@
                == input@.subrange(0, end) && rest@ == input@.subrange(end, input@.len() as int),
            Err(e) => symbol_end(input@, 0) is None && e.kind == crate::parser::ErrorKind::Mismatch
                && e.detail is None,
        },
{
    let chars = chars_of(input);
    match symbol_at(&chars, 0) {
        Some(end) => Ok((substring(&chars, end, chars.len()), substring(&chars, 0, end))),
        None => Err(ParseError::mismatch()),
    }
}

} // verus!
