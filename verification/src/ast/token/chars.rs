//! Character classes and runs of characters.

use vstd::prelude::*;

verus! {

/// The sets of characters that the grammar tells apart.
#[derive(Clone, Copy, Debug, PartialEq, Eq)]
pub enum CharClass {
    /// ASCII letters and digits, `-`, `_`, `*` and `%`.
    Symbol,
    /// Space, tab, carriage return and line feed.
    Space,
    /// Everything but carriage return and line feed.
    SameLine,
    /// Everything but `"` and `\`.
    Literal,
    /// Everything but a space character and `"`.
    Escaped,
    /// Everything but `]`.
    AttrValue,
    /// Everything but `{`, `}` and `;`.
    Qualifier,
    /// Everything but `"`, `;` and `}`.
    RuleValue,
    /// Everything but `)`.
    UrlPlain,
    /// Everything but `"`.
    UrlQuoted,
    /// ASCII letters and digits, `-`, `_`, `%` and `+`.
    Word,
    /// The characters with the Unicode property `White_Space`.
    Blank,
    /// Everything without the Unicode property `White_Space`.
    Inked,
    /// The sixteen hexadecimal digits, in either case.
    Hex,
    /// Everything but `.`.
    Stem,
    /// ASCII letters, `_` and every character outside ASCII.
    IdentStart,
    /// ASCII letters and digits, `-`, `_` and every character outside ASCII.
    IdentPart,
}

/// Whether `c` is an ASCII letter.
pub open spec fn is_alpha(c: char) -> bool {
    ('a' <= c && c <= 'z') || ('A' <= c && c <= 'Z')
}

/// Whether `c` is an ASCII digit.
pub open spec fn is_digit(c: char) -> bool {
    '0' <= c && c <= '9'
}

/// Whether `c` is a space, a tab, a carriage return or a line feed.
pub open spec fn is_space(c: char) -> bool {
    c == ' ' || c == '\t' || c == '\r' || c == '\n'
}

/// The code points that Unicode lists under `White_Space`.
pub open spec fn is_blank(c: char) -> bool {
    ('\u{9}' <= c && c <= '\u{d}') || c == ' ' || c == '\u{85}' || c == '\u{a0}' || c
        == '\u{1680}' || ('\u{2000}' <= c && c <= '\u{200a}') || c == '\u{2028}' || c
        == '\u{2029}' || c == '\u{202f}' || c == '\u{205f}' || c == '\u{3000}'
}

impl CharClass {
    /// Whether `c` belongs to the class.
    pub open spec fn has(self, c: char) -> bool {
        match self {
            CharClass::Symbol => is_alpha(c) || is_digit(c) || c == '-' || c == '_' || c == '*'
                || c == '%',
            CharClass::Space => is_space(c),
            CharClass::SameLine => c != '\r' && c != '\n',
            CharClass::Literal => c != '"' && c != '\\',
            CharClass::Escaped => !is_space(c) && c != '"',
            CharClass::AttrValue => c != ']',
            CharClass::Qualifier => c != '{' && c != '}' && c != ';',
            CharClass::RuleValue => c != '"' && c != ';' && c != '}',
            CharClass::UrlPlain => c != ')',
            CharClass::UrlQuoted => c != '"',
            CharClass::Word => is_alpha(c) || is_digit(c) || c == '-' || c == '_' || c == '%'
                || c == '+',
            CharClass::Blank => is_blank(c),
            CharClass::Inked => !is_blank(c),
            CharClass::Hex => is_digit(c) || ('a' <= c && c <= 'f') || ('A' <= c && c <= 'F'),
            CharClass::Stem => c != '.',
            CharClass::IdentStart => is_alpha(c) || c == '_' || c > '\u{7f}',
            CharClass::IdentPart => is_alpha(c) || is_digit(c) || c == '-' || c == '_' || c
                > '\u{7f}',
        }
    }

    /// Tests whether `c` belongs to the class.
    pub fn test(self, c: char) -> (r: bool)
        ensures
            r == self.has(c),
    {
        let alpha = ('a' <= c && c <= 'z') || ('A' <= c && c <= 'Z');
        let digit = '0' <= c && c <= '9';
        let space = c == ' ' || c == '\t' || c == '\r' || c == '\n';
        let blank = ('\u{9}' <= c && c <= '\u{d}') || c == ' ' || c == '\u{85}' || c == '\u{a0}'
            || c == '\u{1680}' || ('\u{2000}' <= c && c <= '\u{200a}') || c == '\u{2028}' || c
            == '\u{2029}' || c == '\u{202f}' || c == '\u{205f}' || c == '\u{3000}';
        match self {
            CharClass::Symbol => alpha || digit || c == '-' || c == '_' || c == '*' || c == '%',
            CharClass::Space => space,
            CharClass::SameLine => c != '\r' && c != '\n',
            CharClass::Literal => c != '"' && c != '\\',
            CharClass::Escaped => !space && c != '"',
            CharClass::AttrValue => c != ']',
            CharClass::Qualifier => c != '{' && c != '}' && c != ';',
            CharClass::RuleValue => c != '"' && c != ';' && c != '}',
            CharClass::UrlPlain => c != ')',
            CharClass::UrlQuoted => c != '"',
            CharClass::Word => alpha || digit || c == '-' || c == '_' || c == '%' || c == '+',
            CharClass::Blank => blank,
            CharClass::Inked => !blank,
            CharClass::Hex => digit || ('a' <= c && c <= 'f') || ('A' <= c && c <= 'F'),
            CharClass::Stem => c != '.',
            CharClass::IdentStart => alpha || c == '_' || c > '\u{7f}',
            CharClass::IdentPart => alpha || digit || c == '-' || c == '_' || c > '\u{7f}',
        }
    }
}

/// The end of the longest run of characters of `class` that starts at `pos`.
pub open spec fn run_end(s: Seq<char>, pos: int, class: CharClass) -> int
    decreases s.len() - pos,
{
    if 0 <= pos < s.len() && class.has(s[pos]) {
        run_end(s, pos + 1, class)
    } else {
        pos
    }
}

/// A run ends between its start and the end of the text, at the first
/// character outside the class.
pub proof fn lemma_run_end(s: Seq<char>, pos: int, class: CharClass)
    requires
        0 <= pos <= s.len(),
    ensures
        pos <= run_end(s, pos, class) <= s.len(),
        forall|i: int| pos <= i < run_end(s, pos, class) ==> class.has(#[trigger] s[i]),
        run_end(s, pos, class) < s.len() ==> !class.has(s[run_end(s, pos, class)]),
    decreases s.len() - pos,
{
    if pos < s.len() && class.has(s[pos]) {
        lemma_run_end(s, pos + 1, class);
    }
}

/// Skips the longest run of characters of `class` that starts at `pos`.
pub fn scan(input: &Vec<char>, pos: usize, class: CharClass) -> (end: usize)
    requires
        pos <= input.len(),
    ensures
        end == run_end(input@, pos as int, class),
        pos <= end <= input.len(),
{
    let mut i: usize = pos;
    while i < input.len() && class.test(input[i])
        invariant
            pos <= i <= input.len(),
            run_end(input@, pos as int, class) == run_end(input@, i as int, class),
        decreases input.len() - i,
    {
        i += 1;
    }
    i
}

} // verus!
