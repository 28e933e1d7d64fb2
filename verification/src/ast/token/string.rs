//! String literals between double quotes.

use vstd::prelude::*;
use crate::ast::token::chars::{run_end, scan, CharClass};
use crate::parser::{ErrorKind, ParseError};
use crate::text::{at, chars_of, is_at, substring};

verus! {

/// The end of the content of a string literal from `pos` on. The content is
/// made of runs of characters other than `"` and `\`, and of escapes: a `\`
/// and the characters after it up to a space character or a `"`, at least one.
pub open spec fn fragments_end(s: Seq<char>, pos: int) -> int
    decreases s.len() - pos,
{
    if 0 <= pos < s.len() && CharClass::Literal.has(s[pos]) {
        fragments_end(s, pos + 1)
    } else if at(s, pos, '\\') {
        let end = run_end(s, pos + 1, CharClass::Escaped);
        if pos + 1 < end <= s.len() {
            fragments_end(s, end)
        } else {
            pos
        }
    } else {
        pos
    }
}

/// The end of the string literal that starts at `pos`: an opening `"`, the
/// content and a closing `"`.
pub open spec fn string_literal_end(s: Seq<char>, pos: int) -> Option<int> {
    if at(s, pos, '"') {
        let end = fragments_end(s, pos + 1);
        if at(s, end, '"') {
            Some(end + 1)
        } else {
            None
        }
    } else {
        None
    }
}

/// The content of a string literal ends between its start and the end of the
/// text.
pub proof fn lemma_fragments_end(s: Seq<char>, pos: int)
    requires
        0 <= pos <= s.len(),
    ensures
        pos <= fragments_end(s, pos) <= s.len(),
    decreases s.len() - pos,
{
    if pos < s.len() && CharClass::Literal.has(s[pos]) {
        lemma_fragments_end(s, pos + 1);
    } else if at(s, pos, '\\') {
        let end = run_end(s, pos + 1, CharClass::Escaped);
        if pos + 1 < end <= s.len() {
            lemma_fragments_end(s, end);
        }
    }
}

/// A string literal has two characters or more and ends within the text.
pub proof fn lemma_string_literal_end(s: Seq<char>, pos: int)
    requires
        0 <= pos <= s.len(),
    ensures
        string_literal_end(s, pos) matches Some(end) ==> pos + 2 <= end <= s.len(),
{
    if at(s, pos, '"') {
        lemma_fragments_end(s, pos + 1);
    }
}

/// Skips the content of a string literal from `pos` on.
fn fragments_at(input: &Vec<char>, pos: usize) -> (end: usize)
    requires
        pos <= input.len(),
    ensures
        end == fragments_end(input@, pos as int),
        pos <= end <= input.len(),
{
    let mut i: usize = pos;
    loop
        invariant
            pos <= i <= input.len(),
            fragments_end(input@, pos as int) == fragments_end(input@, i as int),
        ensures
            pos <= i <= input.len(),
            i == fragments_end(input@, pos as int),
        decreases input.len() - i,
    {
        if i < input.len() && CharClass::Literal.test(input[i]) {
            i += 1;
        } else if is_at(input, i, '\\') {
            let end = scan(input, i + 1, CharClass::Escaped);
            if end > i + 1 {
                i = end;
            } else {
                break ;
            }
        } else {
            break ;
        }
    }
    i
}

/// Reads the string literal that starts at `pos`.
pub fn string_literal_at(input: &Vec<char>, pos: usize) -> (r: Option<usize>)
    requires
        pos <= input.len(),
    ensures
        r matches Some(end) ==> string_literal_end(input@, pos as int) == Some(end as int) && pos
            < end <= input.len(),
        r is None ==> string_literal_end(input@, pos as int) is None,
{
    if is_at(input, pos, '"') {
        let end = fragments_at(input, pos + 1);
        if is_at(input, end, '"') {
            Some(end + 1)
        } else {
            None
        }
    } else {
        None
    }
}

/// Reads a string literal from the start of `input`; gives the rest of the
/// text and the literal with both its quotes.
pub fn parse_string_literal(input: &str) -> (r: Result<(String, String), ParseError>)
    ensures
        match r {
            Ok((rest, literal)) => string_literal_end(input@, 0) matches Some(end) && literal@
                == input@.subrange(0, end) && rest@ == input@.subrange(end, input@.len() as int),
            Err(e) => string_literal_end(input@, 0) is None && e.kind == ErrorKind::Mismatch
                && e.detail is None,
        },
{
    let chars = chars_of(input);
    match string_literal_at(&chars, 0) {
        Some(end) => Ok((substring(&chars, end, chars.len()), substring(&chars, 0, end))),
        None => Err(ParseError::mismatch()),
    }
}

} // verus!
