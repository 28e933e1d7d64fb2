//! Identifiers as CSS writes them, escapes included.

use vstd::prelude::*;
use crate::ast::token::chars::{run_end, scan, CharClass};
use crate::parser::{ErrorKind, ParseError};
use crate::text::{at, chars_of, is_at, is_at2, starts_with, substring};

verus! {

/// An identifier, kept as it was written.
#[derive(Clone, Debug, PartialEq, Eq, PartialOrd, Ord)]
pub struct Ident {
    pub data: String,
}

impl View for Ident {
    type V = Seq<char>;

    open spec fn view(&self) -> Seq<char> {
        self.data@
    }
}

/// The end of what follows the `\` of an escape, where it starts at `pos`: one
/// to six hexadecimal digits and a single space after them if there is one,
/// or else one character that is no space character.
pub open spec fn escape_end(s: Seq<char>, pos: int) -> Option<int> {
    let run = run_end(s, pos, CharClass::Hex);
    let hex = if run <= pos + 6 {
        run
    } else {
        pos + 6
    };
    if hex > pos {
        if at(s, hex, ' ') {
            Some(hex + 1)
        } else {
            Some(hex)
        }
    } else if 0 <= pos < s.len() && !CharClass::Space.has(s[pos]) {
        Some(pos + 1)
    } else {
        None
    }
}

/// The end of the characters and escapes that go on an identifier from `pos`.
pub open spec fn ident_tail_end(s: Seq<char>, pos: int) -> int
    decreases s.len() - pos,
{
    if at(s, pos, '\\') {
        match escape_end(s, pos + 1) {
            Some(end) => if pos < end <= s.len() {
                ident_tail_end(s, end)
            } else {
                pos
            },
            None => pos,
        }
    } else if 0 <= pos < s.len() && CharClass::IdentPart.has(s[pos]) {
        ident_tail_end(s, pos + 1)
    } else {
        pos
    }
}

/// The end of the beginning of an identifier at `pos`: `--`, or `-` and a
/// first character, or a first character alone. A first character is an ASCII
/// letter, `_`, or any character outside ASCII.
pub open spec fn ident_head_end(s: Seq<char>, pos: int) -> Option<int> {
    if starts_with(s, pos, seq!['-', '-']) {
        Some(pos + 2)
    } else if at(s, pos, '-') && pos + 1 < s.len() && CharClass::IdentStart.has(s[pos + 1]) {
        Some(pos + 2)
    } else if 0 <= pos < s.len() && CharClass::IdentStart.has(s[pos]) {
        Some(pos + 1)
    } else {
        None
    }
}

/// The end of the identifier that starts at `pos`.
pub open spec fn ident_end(s: Seq<char>, pos: int) -> Option<int> {
    match ident_head_end(s, pos) {
        Some(head) => Some(ident_tail_end(s, head)),
        None => None,
    }
}

/// Reads what follows the `\` of an escape.
fn escape_at(input: &Vec<char>, pos: usize) -> (r: Option<usize>)
    requires
        pos <= input.len(),
    ensures
        r matches Some(end) ==> escape_end(input@, pos as int) == Some(end as int) && pos < end
            <= input.len(),
        r is None ==> escape_end(input@, pos as int) is None,
{
    let run = scan(input, pos, CharClass::Hex);
    let hex = if run - pos <= 6 {
        run
    } else {
        pos + 6
    };
    if hex > pos {
        if is_at(input, hex, ' ') {
            Some(hex + 1)
        } else {
            Some(hex)
        }
    } else if pos < input.len() && !CharClass::Space.test(input[pos]) {
        Some(pos + 1)
    } else {
        None
    }
}

/// Skips the characters and escapes that go on an identifier from `pos`.
fn ident_tail_at(input: &Vec<char>, pos: usize) -> (end: usize)
    requires
        pos <= input.len(),
    ensures
        end == ident_tail_end(input@, pos as int),
        pos <= end <= input.len(),
{
    let mut i: usize = pos;
    loop
        invariant
            pos <= i <= input.len(),
            ident_tail_end(input@, pos as int) == ident_tail_end(input@, i as int),
        ensures
            pos <= i <= input.len(),
            i == ident_tail_end(input@, pos as int),
        decreases input.len() - i,
    {
        if is_at(input, i, '\\') {
            match escape_at(input, i + 1) {
                Some(end) => {
                    i = end;
                },
                None => {
                    break ;
                },
            }
        } else if i < input.len() && CharClass::IdentPart.test(input[i]) {
            i += 1;
        } else {
            break ;
        }
    }
    i
}

impl Ident {
    /// Whether an identifier can begin with `c`.
    pub fn is_valid_start_char(c: char) -> (r: bool)
        ensures
            r == CharClass::IdentStart.has(c),
    {
        CharClass::IdentStart.test(c)
    }

    /// Whether `c` can stand in an identifier after its beginning.
    pub fn is_valid_char(c: char) -> (r: bool)
        ensures
            r == CharClass::IdentPart.has(c),
    {
        CharClass::IdentPart.test(c)
    }

    /// Reads the identifier that starts at `pos`.
    pub fn parse_at(input: &Vec<char>, pos: usize) -> (r: Option<usize>)
        requires
            pos <= input.len(),
        ensures
            r matches Some(end) ==> ident_end(input@, pos as int) == Some(end as int) && pos < end
                <= input.len(),
            r is None ==> ident_end(input@, pos as int) is None,
    {
        let head = if is_at2(input, pos, '-', '-') {
            pos + 2
        } else if is_at(input, pos, '-') && pos + 1 < input.len() && CharClass::IdentStart.test(
            input[pos + 1],
        ) {
            pos + 2
        } else if pos < input.len() && CharClass::IdentStart.test(input[pos]) {
            pos + 1
        } else {
            return None;
        };
        Some(ident_tail_at(input, head))
    }

    /// Reads an identifier from the start of `input`; gives the rest of the
    /// text and the identifier.
    pub fn parse(input: &str) -> (r: Result<(String, Ident), ParseError>)
        ensures
            match r {
                Ok((rest, ident)) => ident_end(input@, 0) matches Some(end) && ident@
                    == input@.subrange(0, end) && rest@ == input@.subrange(
                    end,
                    input@.len() as int,
                ),
                Err(e) => ident_end(input@, 0) is None && e.kind == ErrorKind::Mismatch && e.detail
                    is None,
            },
    {
        let chars = chars_of(input);
        match Ident::parse_at(&chars, 0) {
            Some(end) => Ok(
                (substring(&chars, end, chars.len()), Ident { data: substring(&chars, 0, end) }),
            ),
            None => Err(ParseError::mismatch()),
        }
    }
}

} // verus!
