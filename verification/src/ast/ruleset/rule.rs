//! Declarations: a property and its value.

use vstd::prelude::*;
use vstd::string::StringExecFns;
use crate::ast::token::chars::CharClass;
use crate::ast::token::space::{comment0_at, comment0_end, squeezed, trim_whitespace};
use crate::ast::token::string::{lemma_string_literal_end, string_literal_at, string_literal_end};
use crate::ast::token::symbol::{symbol_at, symbol_end};
use crate::parser::{ErrorKind, ParseError};
use crate::render::RenderCss;
use crate::text::{at, chars_of, is_at, substring};

verus! {

/// A CSS rule, of the form `xxx: yyy` (delimited by `;` in a ruleset). The
/// value is kept as it was written.
#[derive(Debug, PartialEq, Eq)]
pub struct Rule {
    pub property: String,
    pub value: String,
}

/// What a `Rule` stands for.
pub struct RuleView {
    pub property: Seq<char>,
    pub value: Seq<char>,
}

impl View for Rule {
    type V = RuleView;

    open spec fn view(&self) -> RuleView {
        RuleView { property: self.property@, value: self.value@ }
    }
}

impl DeepView for Rule {
    type V = RuleView;

    open spec fn deep_view(&self) -> RuleView {
        self@
    }
}

/// The end of the value that starts at `pos`. A value is made of characters
/// other than `"`, `;` and `}` and of string literals, in which those three
/// characters do not count.
pub open spec fn value_end(s: Seq<char>, pos: int) -> int
    decreases s.len() - pos,
{
    if 0 <= pos < s.len() && CharClass::RuleValue.has(s[pos]) {
        value_end(s, pos + 1)
    } else {
        match string_literal_end(s, pos) {
            Some(end) => if pos < end <= s.len() {
                value_end(s, end)
            } else {
                pos
            },
            None => pos,
        }
    }
}

/// The rule at `pos` and its end: a symbol, then `:` with whitespace and
/// comments round it, then the value.
pub open spec fn rule_parsed(s: Seq<char>, pos: int) -> Option<(RuleView, int)> {
    match symbol_end(s, pos) {
        Some(name_end) => {
            let colon = comment0_end(s, name_end);
            if at(s, colon, ':') {
                let start = comment0_end(s, colon + 1);
                let end = value_end(s, start);
                Some(
                    (
                        RuleView {
                            property: s.subrange(pos, name_end),
                            value: s.subrange(start, end),
                        },
                        end,
                    ),
                )
            } else {
                None
            }
        },
        None => None,
    }
}

/// The text of a rule: the property, `:`, the value with its whitespace
/// squeezed, and `;`.
pub open spec fn rule_text(rule: RuleView) -> Seq<char> {
    rule.property + seq![':'] + squeezed(rule.value) + seq![';']
}

/// A value ends between its start and the end of the text.
pub proof fn lemma_value_end(s: Seq<char>, pos: int)
    requires
        0 <= pos <= s.len(),
    ensures
        pos <= value_end(s, pos) <= s.len(),
    decreases s.len() - pos,
{
    if pos < s.len() && CharClass::RuleValue.has(s[pos]) {
        lemma_value_end(s, pos + 1);
    } else {
        lemma_string_literal_end(s, pos);
        if let Some(end) = string_literal_end(s, pos) {
            lemma_value_end(s, end);
        }
    }
}

/// A value goes on to the end of a string literal that begins in it: what
/// the literal holds does not end the value.
pub proof fn lemma_value_covers_literal(s: Seq<char>, pos: int)
    requires
        0 <= pos <= s.len(),
        string_literal_end(s, pos) is Some,
    ensures
        value_end(s, pos) == value_end(s, string_literal_end(s, pos)->0),
        value_end(s, pos) >= string_literal_end(s, pos)->0,
{
    lemma_string_literal_end(s, pos);
    lemma_value_end(s, string_literal_end(s, pos)->0);
}

/// Skips the value that starts at `pos`.
fn value_at(input: &Vec<char>, pos: usize) -> (end: usize)
    requires
        pos <= input.len(),
    ensures
        end == value_end(input@, pos as int),
        pos <= end <= input.len(),
{
    let mut i: usize = pos;
    loop
        invariant
            pos <= i <= input.len(),
            value_end(input@, pos as int) == value_end(input@, i as int),
        ensures
            pos <= i <= input.len(),
            i == value_end(input@, pos as int),
        decreases input.len() - i,
    {
        if i < input.len() && CharClass::RuleValue.test(input[i]) {
            i += 1;
        } else {
            match string_literal_at(input, i) {
                Some(end) => {
                    i = end;
                },
                None => {
                    break ;
                },
            }
        }
    }
    i
}

impl Clone for Rule {
    fn clone(&self) -> (r: Self)
        ensures
            r@ == self@,
    {
        Rule { property: self.property.clone(), value: self.value.clone() }
    }
}

impl Rule {
    /// Reads the rule that starts at `pos`.
    pub fn parse_at(input: &Vec<char>, pos: usize) -> (r: Option<(Rule, usize)>)
        requires
            pos <= input.len(),
        ensures
            r matches Some((rule, end)) ==> rule_parsed(input@, pos as int) == Some(
                (rule@, end as int),
            ) && pos < end <= input.len(),
            r is None ==> rule_parsed(input@, pos as int) is None,
    {
        let name_end = match symbol_at(input, pos) {
            Some(end) => end,
            None => {
                return None;
            },
        };
        let colon = comment0_at(input, name_end);
        if !is_at(input, colon, ':') {
            return None;
        }
        let start = comment0_at(input, colon + 1);
        let end = value_at(input, start);
        Some(
            (
                Rule { property: substring(input, pos, name_end), value: substring(input, start, end) },
                end,
            ),
        )
    }

    /// Reads a rule from the start of `input`; gives the rest of the text and
    /// the rule.
    pub fn parse(input: &str) -> (r: Result<(String, Rule), ParseError>)
        ensures
            match r {
                Ok((rest, rule)) => rule_parsed(input@, 0) matches Some((view, end)) && rule@
                    == view && rest@ == input@.subrange(end, input@.len() as int),
                Err(e) => rule_parsed(input@, 0) is None && e.kind == ErrorKind::Mismatch
                    && e.detail is None,
            },
    {
        let chars = chars_of(input);
        match Rule::parse_at(&chars, 0) {
            Some((rule, end)) => Ok((substring(&chars, end, chars.len()), rule)),
            None => Err(ParseError::mismatch()),
        }
    }
}

impl RenderCss for Rule {
    open spec fn css(&self) -> Seq<char> {
        rule_text(self@)
    }

    fn render(&self, out: &mut String) {
        out.append(self.property.as_str());
        out.push(':');
        assert(out@ =~= old(out)@ + (self@.property + seq![':']));
        trim_whitespace(self.value.as_str(), out);
        assert(out@ =~= old(out)@ + (self@.property + seq![':'] + squeezed(self@.value)));
        out.push(';');
        assert(out@ =~= old(out)@ + rule_text(self@));
        assert(self.css() == rule_text(self@));
    }
}

/// A copy of the rules of `src`.
pub fn clone_rules(src: &Vec<Rule>) -> (out: Vec<Rule>)
    ensures
        out.deep_view() == src.deep_view(),
{
    let mut out: Vec<Rule> = Vec::new();
    extend_rules(&mut out, src);
    assert(out.deep_view() =~= src.deep_view());
    out
}

/// Appends copies of the rules of `src` to `dst`.
pub fn extend_rules(dst: &mut Vec<Rule>, src: &Vec<Rule>)
    ensures
        final(dst).deep_view() == old(dst).deep_view() + src.deep_view(),
{
    let mut i: usize = 0;
    while i < src.len()
        invariant
            i <= src.len(),
            dst.len() == old(dst).len() + i,
            forall|k: int| 0 <= k < old(dst).len() ==> dst[k]@ == old(dst)[k]@,
            forall|k: int| 0 <= k < i ==> dst[old(dst).len() + k]@ == src[k]@,
        decreases src.len() - i,
    {
        dst.push(src[i].clone());
        i += 1;
    }
    assert(dst.deep_view() =~= old(dst).deep_view() + src.deep_view());
}

/// The first `n` rules, one after the other.
pub open spec fn rules_text(rules: Seq<RuleView>, n: int) -> Seq<char>
    decreases n,
{
    if n <= 0 {
        seq![]
    } else {
        rules_text(rules, n - 1) + rule_text(rules[n - 1])
    }
}

/// Appends the text of the rules to `out`.
pub fn render_rules(rules: &Vec<Rule>, out: &mut String)
    ensures
        final(out)@ == old(out)@ + rules_text(rules.deep_view(), rules.len() as int),
{
    let mut i: usize = 0;
    assert(out@ =~= old(out)@ + rules_text(rules.deep_view(), 0));
    while i < rules.len()
        invariant
            i <= rules.len(),
            out@ == old(out)@ + rules_text(rules.deep_view(), i as int),
        decreases rules.len() - i,
    {
        rules[i].render(out);
        assert(rules.deep_view()[i as int] == rules[i as int]@);
        assert(out@ =~= old(out)@ + rules_text(rules.deep_view(), i + 1));
        i += 1;
    }
}

} // verus!
