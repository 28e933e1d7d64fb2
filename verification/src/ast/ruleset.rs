//! At-rules, and what the rulesets of both kinds of tree share.

pub mod rule;

pub use self::rule::{Rule, RuleView};

use vstd::prelude::*;
use vstd::string::StringExecFns;
use crate::ast::selector::selector_term::{clone_opt, same_opt};
use crate::ast::token::chars::{run_end, scan, CharClass};
use crate::ast::token::space::{comment0_at, comment0_end};
use crate::ast::token::symbol::{symbol_at, symbol_end};
use crate::parser::{ErrorKind, ParseError};
use crate::render::RenderCss;
use crate::text::{at, chars_of, is_at, substring};

verus! {

/// The head of an at-rule: the name after `@`, and what stands between the
/// name and the `;` or `{` that follows, where anything does.
#[derive(Debug, PartialEq, Eq, Hash)]
pub struct QualRule(pub String, pub Option<String>);

/// What a `QualRule` stands for.
pub struct QualRuleView {
    pub name: Seq<char>,
    pub value: Option<Seq<char>>,
}

impl View for QualRule {
    type V = QualRuleView;

    open spec fn view(&self) -> QualRuleView {
        QualRuleView { name: self.0@, value: self.1.deep_view() }
    }
}

impl DeepView for QualRule {
    type V = QualRuleView;

    open spec fn deep_view(&self) -> QualRuleView {
        self@
    }
}

/// The end of `s[from..to]` without the space characters at its end.
pub open spec fn trimmed_end(s: Seq<char>, from: int, to: int) -> int
    decreases to - from,
{
    if from < to <= s.len() && CharClass::Space.has(s[to - 1]) {
        trimmed_end(s, from, to - 1)
    } else {
        to
    }
}

/// The head of an at-rule at `pos`, and its end: `@`, a symbol, whitespace
/// and comments, then the characters up to the next `{`, `}` or `;`. These
/// are the value, without the space characters at their end; where nothing is
/// left of them there is no value.
pub open spec fn qual_rule_parsed(s: Seq<char>, pos: int) -> Option<(QualRuleView, int)> {
    if at(s, pos, '@') {
        match symbol_end(s, pos + 1) {
            Some(name_end) => {
                let start = comment0_end(s, name_end);
                let end = run_end(s, start, CharClass::Qualifier);
                let stop = trimmed_end(s, start, end);
                Some(
                    (
                        QualRuleView {
                            name: s.subrange(pos + 1, name_end),
                            value: if stop > start {
                                Some(s.subrange(start, stop))
                            } else {
                                None
                            },
                        },
                        end,
                    ),
                )
            },
            None => None,
        }
    } else {
        None
    }
}

/// The text of the head of an at-rule: `@`, the name and, after a space, the
/// value where there is one.
pub open spec fn qual_rule_text(rule: QualRuleView) -> Seq<char> {
    match rule.value {
        Some(value) => seq!['@'] + rule.name + seq![' '] + value,
        None => seq!['@'] + rule.name,
    }
}

/// Finds the end of `input[from..to]` without the space characters at its
/// end.
fn trimmed_at(input: &Vec<char>, from: usize, to: usize) -> (end: usize)
    requires
        from <= to <= input.len(),
    ensures
        end == trimmed_end(input@, from as int, to as int),
        from <= end <= to,
{
    let mut i: usize = to;
    while i > from && CharClass::Space.test(input[i - 1])
        invariant
            from <= i <= to <= input.len(),
            trimmed_end(input@, from as int, to as int) == trimmed_end(
                input@,
                from as int,
                i as int,
            ),
        decreases i - from,
    {
        i -= 1;
    }
    i
}

impl Clone for QualRule {
    fn clone(&self) -> (r: Self)
        ensures
            r@ == self@,
    {
        QualRule(self.0.clone(), clone_opt(&self.1))
    }
}

impl QualRule {
    /// Reads the head of an at-rule that starts at `pos`.
    pub fn parse_at(input: &Vec<char>, pos: usize) -> (r: Option<(QualRule, usize)>)
        requires
            pos <= input.len(),
        ensures
            r matches Some((rule, end)) ==> qual_rule_parsed(input@, pos as int) == Some(
                (rule@, end as int),
            ) && pos < end <= input.len(),
            r is None ==> qual_rule_parsed(input@, pos as int) is None,
    {
        if !is_at(input, pos, '@') {
            return None;
        }
        let name_end = match symbol_at(input, pos + 1) {
            Some(end) => end,
            None => {
                return None;
            },
        };
        let start = comment0_at(input, name_end);
        let end = scan(input, start, CharClass::Qualifier);
        let stop = trimmed_at(input, start, end);
        let value = if stop > start {
            Some(substring(input, start, stop))
        } else {
            None
        };
        Some((QualRule(substring(input, pos + 1, name_end), value), end))
    }

    /// Reads the head of an at-rule from the start of `input`; gives the rest
    /// of the text and the head.
    pub fn parse(input: &str) -> (r: Result<(String, QualRule), ParseError>)
        ensures
            match r {
                Ok((rest, rule)) => qual_rule_parsed(input@, 0) matches Some((view, end)) && rule@
                    == view && rest@ == input@.subrange(end, input@.len() as int),
                Err(e) => qual_rule_parsed(input@, 0) is None && e.kind == ErrorKind::Mismatch
                    && e.detail is None,
            },
    {
        let chars = chars_of(input);
        match QualRule::parse_at(&chars, 0) {
            Some((rule, end)) => Ok((substring(&chars, end, chars.len()), rule)),
            None => Err(ParseError::mismatch()),
        }
    }

    /// Whether the two heads stand for the same.
    pub fn same(&self, other: &QualRule) -> (r: bool)
        ensures
            r == (self@ == other@),
    {
        self.0 == other.0 && same_opt(&self.1, &other.1)
    }
}

impl RenderCss for QualRule {
    open spec fn css(&self) -> Seq<char> {
        qual_rule_text(self@)
    }

    fn render(&self, out: &mut String) {
        out.push('@');
        out.append(self.0.as_str());
        assert(out@ =~= old(out)@ + (seq!['@'] + self@.name));
        match &self.1 {
            Some(value) => {
                out.push(' ');
                out.append(value.as_str());
                assert(out@ =~= old(out)@ + (seq!['@'] + self@.name + seq![' '] + value@));
            },
            None => {},
        }
        assert(out@ =~= old(out)@ + qual_rule_text(self@));
        assert(self.css() == qual_rule_text(self@));
    }
}

} // verus!
