//! Parsing a whole stylesheet, and what the callers get when the text is
//! refused.

use vstd::prelude::*;
use crate::ast::token::chars::{run_end, scan, CharClass};
use crate::ast::{tree_parsed, Tree, TreeRulesetView};
use crate::text::{chars_of, substring};

verus! {

/// Why a text was refused.
#[derive(Clone, Copy, Debug, PartialEq, Eq, Structural)]
pub enum ErrorKind {
    /// The text does not begin with what the grammar asks for: the error of
    /// the parsers that read one part of a stylesheet.
    Mismatch,
    /// A prefix of the text was read, and something is left after it: the
    /// error of the parsers that read a whole stylesheet. The prefix may be
    /// empty.
    Unconsumed,
}

/// Where in the text the parser stopped.
#[derive(Clone, Debug, PartialEq, Eq)]
pub struct Diagnostic {
    /// The number of characters before the place.
    pub offset: usize,
    /// The number of lines before the line of the place.
    pub line: usize,
    /// The number of characters before the place in its line.
    pub column: usize,
    /// The text of that line, up to its carriage return or line feed.
    pub context: String,
}

/// The error of every parser of this crate.
#[derive(Clone, Debug, PartialEq, Eq)]
pub struct ParseError {
    pub kind: ErrorKind,
    /// Filled by the parsers that report in detail, `None` otherwise.
    pub detail: Option<Diagnostic>,
}

impl ParseError {
    /// The error of a text that does not begin with what was asked for.
    pub fn mismatch() -> (e: ParseError)
        ensures
            e.kind == ErrorKind::Mismatch,
            e.detail is None,
    {
        ParseError { kind: ErrorKind::Mismatch, detail: None }
    }
}

/// What parsing the text `s` comes to: the stylesheet, where the whole text
/// is one; else the place where the parser stopped, with text left over. That
/// is the place after the last ruleset that was read and the separators
/// after it; where none was read, the place after the leading separators.
pub open spec fn parse_outcome(s: Seq<char>) -> Result<Seq<TreeRulesetView>, int> {
    let (tree, end) = tree_parsed(s);
    if end == s.len() {
        Ok(tree)
    } else {
        Err(end)
    }
}

/// The number of line feeds before `offset`.
pub open spec fn line_index(s: Seq<char>, offset: int) -> int
    decreases offset,
{
    if 0 < offset <= s.len() {
        line_index(s, offset - 1) + if s[offset - 1] == '\n' {
            1int
        } else {
            0int
        }
    } else {
        0
    }
}

/// The place where the line of `offset` begins.
pub open spec fn line_start(s: Seq<char>, offset: int) -> int
    decreases offset,
{
    if 0 < offset <= s.len() && s[offset - 1] != '\n' {
        line_start(s, offset - 1)
    } else {
        offset
    }
}

impl Diagnostic {
    /// Whether the diagnostic describes the place `offset` of the text `s`:
    /// the line and the column are counted from 0, and the context is the
    /// line of the place, up to its carriage return or line feed.
    pub open spec fn describes(&self, s: Seq<char>, offset: int) -> bool {
        &&& self.offset == offset
        &&& self.line == line_index(s, offset)
        &&& self.column == offset - line_start(s, offset)
        &&& self.context@ == s.subrange(
            line_start(s, offset),
            run_end(s, offset, CharClass::SameLine),
        )
    }

    /// The diagnostic of the place `offset` in `input`.
    pub fn locate(input: &Vec<char>, offset: usize) -> (d: Diagnostic)
        requires
            offset <= input.len(),
        ensures
            d.describes(input@, offset as int),
    {
        let mut line: usize = 0;
        let mut i: usize = 0;
        while i < offset
            invariant
                i <= offset <= input.len(),
                line == line_index(input@, i as int),
                line <= i,
            decreases offset - i,
        {
            if input[i] == '\n' {
                line += 1;
            }
            i += 1;
        }
        let mut start: usize = offset;
        while start > 0 && input[start - 1] != '\n'
            invariant
                start <= offset <= input.len(),
                line_start(input@, offset as int) == line_start(input@, start as int),
            decreases start,
        {
            start -= 1;
        }
        let end = scan(input, offset, CharClass::SameLine);
        Diagnostic { offset, line, column: offset - start, context: substring(input, start, end) }
    }
}

/// Parse CSS text to a [`Tree`] (where it can be further manipulated), with
/// a diagnostic of the place where the parser stopped when the text is
/// refused. The whole text has to be read: what is left after the last
/// ruleset is an error. A text of separators alone is the empty stylesheet.
pub fn parse(input: &str) -> (r: Result<Tree, ParseError>)
    ensures
        match r {
            Ok(tree) => parse_outcome(input@) == Ok::<Seq<TreeRulesetView>, int>(tree@),
            Err(e) => parse_outcome(input@) matches Err(offset) && e.kind == ErrorKind::Unconsumed
                && (e.detail matches Some(d) && d.describes(input@, offset)),
        },
{
    let chars = chars_of(input);
    let (tree, end) = Tree::parse_at(&chars);
    if end == chars.len() {
        Ok(tree)
    } else {
        Err(ParseError { kind: ErrorKind::Unconsumed, detail: Some(Diagnostic::locate(&chars, end)) })
    }
}

/// Parse CSS text to a [`Tree`], without a diagnostic when the text is
/// refused. The whole text has to be read: what is left after the last
/// ruleset is an error. A text of separators alone is the empty stylesheet.
pub fn parse_unchecked(input: &str) -> (r: Result<Tree, ParseError>)
    ensures
        match r {
            Ok(tree) => parse_outcome(input@) == Ok::<Seq<TreeRulesetView>, int>(tree@),
            Err(e) => parse_outcome(input@) is Err && e.kind == ErrorKind::Unconsumed && e.detail
                is None,
        },
{
    let chars = chars_of(input);
    let (tree, end) = Tree::parse_at(&chars);
    if end == chars.len() {
        Ok(tree)
    } else {
        Err(ParseError { kind: ErrorKind::Unconsumed, detail: None })
    }
}

} // verus!
