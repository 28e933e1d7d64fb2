//! Whitespace, comments and separators, and the squeezing of whitespace when
//! a value is written out.

use vstd::prelude::*;
use vstd::string::StrSliceExecFns;
use crate::ast::token::chars::{run_end, scan, CharClass};
use crate::parser::{ErrorKind, ParseError};
use crate::text::{at, chars_of, is_at, is_at2, push_range, starts_with, substring};

verus! {

/// The end of the block comment whose body starts at `pos`: the place after
/// the first `*/`.
pub open spec fn block_close(s: Seq<char>, pos: int) -> Option<int>
    decreases s.len() - pos,
{
    if starts_with(s, pos, seq!['*', '/']) {
        Some(pos + 2)
    } else if 0 <= pos < s.len() {
        block_close(s, pos + 1)
    } else {
        None
    }
}

/// The end of the space character, line comment or block comment at `pos`.
pub open spec fn blank_end(s: Seq<char>, pos: int) -> Option<int> {
    if 0 <= pos < s.len() && CharClass::Space.has(s[pos]) {
        Some(pos + 1)
    } else if starts_with(s, pos, seq!['/', '/']) {
        Some(run_end(s, pos + 2, CharClass::SameLine))
    } else if starts_with(s, pos, seq!['/', '*']) {
        block_close(s, pos + 2)
    } else {
        None
    }
}

/// The end of the whitespace and comments that start at `pos`.
pub open spec fn comment0_end(s: Seq<char>, pos: int) -> int
    decreases s.len() - pos,
{
    match blank_end(s, pos) {
        Some(end) => if pos < end <= s.len() {
            comment0_end(s, end)
        } else {
            pos
        },
        None => pos,
    }
}

/// As `comment0_end`, where at least one character is skipped.
pub open spec fn comment1_end(s: Seq<char>, pos: int) -> Option<int> {
    let end = comment0_end(s, pos);
    if end > pos {
        Some(end)
    } else {
        None
    }
}

/// The end of the space character, comment or `;` at `pos`.
pub open spec fn separator_end(s: Seq<char>, pos: int) -> Option<int> {
    match blank_end(s, pos) {
        Some(end) => Some(end),
        None => if at(s, pos, ';') {
            Some(pos + 1)
        } else {
            None
        },
    }
}

/// The end of the whitespace, comments and semicolons that start at `pos`.
pub open spec fn sep0_end(s: Seq<char>, pos: int) -> int
    decreases s.len() - pos,
{
    match separator_end(s, pos) {
        Some(end) => if pos < end <= s.len() {
            sep0_end(s, end)
        } else {
            pos
        },
        None => pos,
    }
}

/// Finds the end of the block comment whose body starts at `pos`.
fn block_close_at(input: &Vec<char>, pos: usize) -> (r: Option<usize>)
    requires
        pos <= input.len(),
    ensures
        r matches Some(end) ==> block_close(input@, pos as int) == Some(end as int) && pos < end
            <= input.len(),
        r is None ==> block_close(input@, pos as int) is None,
{
    let mut i: usize = pos;
    while i < input.len()
        invariant
            pos <= i <= input.len(),
            block_close(input@, pos as int) == block_close(input@, i as int),
        decreases input.len() - i,
    {
        if is_at2(input, i, '*', '/') {
            return Some(i + 2);
        }
        i += 1;
    }
    assert(!starts_with(input@, i as int, seq!['*', '/']));
    None
}

/// Reads one space character or comment at `pos`.
fn blank_at(input: &Vec<char>, pos: usize) -> (r: Option<usize>)
    requires
        pos <= input.len(),
    ensures
        r matches Some(end) ==> blank_end(input@, pos as int) == Some(end as int) && pos < end
            <= input.len(),
        r is None ==> blank_end(input@, pos as int) is None,
{
    if pos < input.len() && CharClass::Space.test(input[pos]) {
        Some(pos + 1)
    } else if is_at2(input, pos, '/', '/') {
        Some(scan(input, pos + 2, CharClass::SameLine))
    } else if is_at2(input, pos, '/', '*') {
        block_close_at(input, pos + 2)
    } else {
        None
    }
}

/// Skips the whitespace and comments that start at `pos`.
pub fn comment0_at(input: &Vec<char>, pos: usize) -> (end: usize)
    requires
        pos <= input.len(),
    ensures
        end == comment0_end(input@, pos as int),
        pos <= end <= input.len(),
{
    let mut i: usize = pos;
    loop
        invariant
            pos <= i <= input.len(),
            comment0_end(input@, pos as int) == comment0_end(input@, i as int),
        ensures
            pos <= i <= input.len(),
            i == comment0_end(input@, pos as int),
        decreases input.len() - i,
    {
        match blank_at(input, i) {
            Some(end) => {
                i = end;
            },
            None => {
                break ;
            },
        }
    }
    i
}

/// Skips the whitespace and comments that start at `pos`, if there are any.
pub fn comment1_at(input: &Vec<char>, pos: usize) -> (r: Option<usize>)
    requires
        pos <= input.len(),
    ensures
        r matches Some(end) ==> comment1_end(input@, pos as int) == Some(end as int) && pos < end
            <= input.len(),
        r is None ==> comment1_end(input@, pos as int) is None,
{
    let end = comment0_at(input, pos);
    if end > pos {
        Some(end)
    } else {
        None
    }
}

/// Skips the whitespace, comments and semicolons that start at `pos`.
pub fn sep0_at(input: &Vec<char>, pos: usize) -> (end: usize)
    requires
        pos <= input.len(),
    ensures
        end == sep0_end(input@, pos as int),
        pos <= end <= input.len(),
{
    let mut i: usize = pos;
    loop
        invariant
            pos <= i <= input.len(),
            sep0_end(input@, pos as int) == sep0_end(input@, i as int),
        ensures
            pos <= i <= input.len(),
            i == sep0_end(input@, pos as int),
        decreases input.len() - i,
    {
        match blank_at(input, i) {
            Some(end) => {
                i = end;
            },
            None => {
                if is_at(input, i, ';') {
                    i += 1;
                } else {
                    break ;
                }
            },
        }
    }
    i
}

/// Skips whitespace and comments at the start of `input`; gives the rest.
pub fn comment0(input: &str) -> (r: Result<(String, ()), ParseError>)
    ensures
        r matches Ok((rest, _)) && rest@ == input@.subrange(
            comment0_end(input@, 0),
            input@.len() as int,
        ),
{
    let chars = chars_of(input);
    let end = comment0_at(&chars, 0);
    Ok((substring(&chars, end, chars.len()), ()))
}

/// Skips whitespace and comments at the start of `input`, where there are
/// any; gives the rest.
pub fn comment1(input: &str) -> (r: Result<(String, ()), ParseError>)
    ensures
        match r {
            Ok((rest, _)) => comment1_end(input@, 0) matches Some(end) && rest@
                == input@.subrange(end, input@.len() as int),
            Err(e) => comment1_end(input@, 0) is None && e.kind == ErrorKind::Mismatch && e.detail
                is None,
        },
{
    let chars = chars_of(input);
    match comment1_at(&chars, 0) {
        Some(end) => Ok((substring(&chars, end, chars.len()), ())),
        None => Err(ParseError::mismatch()),
    }
}

/// Skips whitespace, comments and semicolons at the start of `input`; gives
/// the rest.
pub fn sep0(input: &str) -> (r: Result<(String, ()), ParseError>)
    ensures
        r matches Ok((rest, _)) && rest@ == input@.subrange(sep0_end(input@, 0), input@.len() as int),
{
    let chars = chars_of(input);
    let end = sep0_at(&chars, 0);
    Ok((substring(&chars, end, chars.len()), ()))
}

/// Whether a space before `s` has to be kept: `s` begins with a character of
/// a word.
pub open spec fn needs_pre(s: Seq<char>) -> bool {
    s.len() > 0 && CharClass::Word.has(s[0])
}

/// Whether a space after `s` has to be kept: `s` ends with a character of a
/// word.
pub open spec fn needs_post(s: Seq<char>) -> bool {
    s.len() > 0 && CharClass::Word.has(s[s.len() - 1])
}

/// Tells of a text whether the whitespace around it can go when it is written
/// out.
pub trait NeedsWhitespaceStringExt {
    /// The characters of the text.
    spec fn text(&self) -> Seq<char>;

    /// Does this text need a leading whitespace character?
    fn needs_pre_ws(&self) -> (r: bool)
        ensures
            r == needs_pre(self.text()),
    ;

    /// Does this text need a trailing whitespace character?
    fn needs_post_ws(&self) -> (r: bool)
        ensures
            r == needs_post(self.text()),
    ;
}

impl NeedsWhitespaceStringExt for str {
    open spec fn text(&self) -> Seq<char> {
        self@
    }

    fn needs_pre_ws(&self) -> (r: bool) {
        let n = self.unicode_len();
        n > 0 && CharClass::Word.test(self.get_char(0))
    }

    fn needs_post_ws(&self) -> (r: bool) {
        let n = self.unicode_len();
        n > 0 && CharClass::Word.test(self.get_char(n - 1))
    }
}

/// The words of `s` from `pos` on, appended to `out` one after the other. A
/// single space is kept between two words where the one ends and the other
/// begins with a character of a word; `glue` says whether the last word
/// written ended with one.
pub open spec fn squeezed_from(s: Seq<char>, pos: int, out: Seq<char>, glue: bool) -> Seq<char>
    decreases s.len() - pos,
{
    let start = run_end(s, pos, CharClass::Blank);
    let end = run_end(s, start, CharClass::Inked);
    if pos <= start < end <= s.len() {
        let word = s.subrange(start, end);
        let sep = if glue && needs_pre(word) {
            seq![' ']
        } else {
            seq![]
        };
        squeezed_from(s, end, out + sep + word, needs_post(word))
    } else {
        out
    }
}

/// `s` without its whitespace, but for the single spaces that keep two words
/// apart.
pub open spec fn squeezed(s: Seq<char>) -> Seq<char> {
    squeezed_from(s, 0, seq![], false)
}

/// Appends the characters `chars[from..to]` to `out`, squeezing whitespace.
pub fn squeeze_into(out: &mut String, chars: &Vec<char>)
    ensures
        final(out)@ == old(out)@ + squeezed(chars@),
{
    let mut pos: usize = 0;
    let mut glue = false;
    let ghost mut written: Seq<char> = seq![];
    loop
        invariant
            pos <= chars.len(),
            out@ == old(out)@ + written,
            squeezed(chars@) == squeezed_from(chars@, pos as int, written, glue),
        ensures
            out@ == old(out)@ + squeezed(chars@),
        decreases chars.len() - pos,
    {
        let start = scan(chars, pos, CharClass::Blank);
        let end = scan(chars, start, CharClass::Inked);
        if start < end {
            let pre = CharClass::Word.test(chars[start]);
            let post = CharClass::Word.test(chars[end - 1]);
            let ghost word = chars@.subrange(start as int, end as int);
            assert(word[0] == chars@[start as int]);
            assert(word[word.len() - 1] == chars@[end - 1]);
            if glue && pre {
                out.push(' ');
                proof {
                    assert(written + seq![' '] + word =~= (written.push(' ')) + word);
                    written = written.push(' ');
                }
            } else {
                assert(written + seq![] + word =~= written + word);
            }
            push_range(out, chars, start, end);
            proof {
                written = written + word;
                assert(out@ =~= old(out)@ + written);
            }
            glue = post;
            pos = end;
        } else {
            break ;
        }
    }
}

/// Writes `s` to `out`, trimming all whitespace in it to a single space where
/// two words meet and to nothing elsewhere.
pub fn trim_whitespace(s: &str, out: &mut String)
    ensures
        final(out)@ == old(out)@ + squeezed(s@),
{
    let chars = chars_of(s);
    squeeze_into(out, &chars);
}

} // verus!
