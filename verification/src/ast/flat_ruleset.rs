//! Rulesets without nested selectors, as browsers read them.

use vstd::prelude::*;
use crate::ast::ruleset::rule::{clone_rules, render_rules, rules_text, Rule, RuleView};
use crate::ast::ruleset::{qual_rule_text, QualRule, QualRuleView};
use crate::ast::selector::{selector_text, Selector, SelectorPathView};
use crate::render::RenderCss;

verus! {

/// A ruleset whose body holds plain rules. Only an at-rule can hold other
/// rulesets, and then holds nothing else.
#[derive(Debug, PartialEq, Eq)]
pub enum FlatRuleset {
    /// A selector with its rules.
    SelectorRuleset(Selector, Vec<Rule>),
    /// An at-rule without a body, closed by `;`.
    QualRule(QualRule),
    /// An at-rule with a body of rules.
    QualRuleset(QualRule, Vec<Rule>),
    /// An at-rule with a body of rulesets.
    QualNestedRuleset(QualRule, Vec<FlatRuleset>),
}

/// What a `FlatRuleset` stands for.
pub enum FlatRulesetView {
    SelectorRuleset(Seq<SelectorPathView>, Seq<RuleView>),
    QualRule(QualRuleView),
    QualRuleset(QualRuleView, Seq<RuleView>),
    QualNestedRuleset(QualRuleView, Seq<FlatRulesetView>),
}

/// What the ruleset stands for.
pub open spec fn flat_ruleset_view(ruleset: FlatRuleset) -> FlatRulesetView
    decreases ruleset,
{
    match ruleset {
        FlatRuleset::SelectorRuleset(selector, rules) => FlatRulesetView::SelectorRuleset(
            selector@,
            rules.deep_view(),
        ),
        FlatRuleset::QualRule(rule) => FlatRulesetView::QualRule(rule@),
        FlatRuleset::QualRuleset(rule, rules) => FlatRulesetView::QualRuleset(
            rule@,
            rules.deep_view(),
        ),
        FlatRuleset::QualNestedRuleset(rule, body) => FlatRulesetView::QualNestedRuleset(
            rule@,
            Seq::new(
                body.len() as nat,
                |i: int|
                    if 0 <= i < body.len() {
                        flat_ruleset_view(body[i])
                    } else {
                        arbitrary()
                    },
            ),
        ),
    }
}

impl View for FlatRuleset {
    type V = FlatRulesetView;

    open spec fn view(&self) -> FlatRulesetView {
        flat_ruleset_view(*self)
    }
}

impl DeepView for FlatRuleset {
    type V = FlatRulesetView;

    open spec fn deep_view(&self) -> FlatRulesetView {
        flat_ruleset_view(*self)
    }
}

/// What an at-rule with a body of rulesets stands for.
pub proof fn lemma_nested_view(rule: QualRule, body: Vec<FlatRuleset>)
    ensures
        FlatRuleset::QualNestedRuleset(rule, body)@ == FlatRulesetView::QualNestedRuleset(
            rule@,
            body.deep_view(),
        ),
{
    assert(FlatRuleset::QualNestedRuleset(rule, body)@->QualNestedRuleset_1 =~= body.deep_view());
}

/// The first `n` rulesets, one after the other.
pub open spec fn flat_rulesets_text(rulesets: Seq<FlatRulesetView>, n: int) -> Seq<char>
    decreases rulesets, n,
{
    if 0 < n <= rulesets.len() {
        flat_rulesets_text(rulesets, n - 1) + flat_ruleset_text(rulesets[n - 1])
    } else {
        seq![]
    }
}

/// The text of a ruleset: the selector or the head of the at-rule, then the
/// body in braces; `;` after an at-rule without a body.
pub open spec fn flat_ruleset_text(ruleset: FlatRulesetView) -> Seq<char>
    decreases ruleset, 0int,
{
    match ruleset {
        FlatRulesetView::SelectorRuleset(selector, rules) => selector_text(
            selector,
            selector.len() as int,
        ) + seq!['{'] + rules_text(rules, rules.len() as int) + seq!['}'],
        FlatRulesetView::QualRule(rule) => qual_rule_text(rule) + seq![';'],
        FlatRulesetView::QualRuleset(rule, rules) => qual_rule_text(rule) + seq!['{'] + rules_text(
            rules,
            rules.len() as int,
        ) + seq!['}'],
        FlatRulesetView::QualNestedRuleset(rule, body) => qual_rule_text(rule) + seq!['{']
            + flat_rulesets_text(body, body.len() as int) + seq!['}'],
    }
}

/// A copy of the rulesets of `src`.
pub fn clone_flat(src: &Vec<FlatRuleset>) -> (out: Vec<FlatRuleset>)
    ensures
        out.deep_view() == src.deep_view(),
    decreases src,
{
    let mut out: Vec<FlatRuleset> = Vec::new();
    let mut i: usize = 0;
    while i < src.len()
        invariant
            i <= src.len(),
            out.len() == i,
            forall|k: int| 0 <= k < i ==> out[k]@ == src[k]@,
        decreases src.len() - i,
    {
        out.push(src[i].clone());
        i += 1;
    }
    assert(out.deep_view() =~= src.deep_view());
    out
}

impl Clone for FlatRuleset {
    fn clone(&self) -> (r: Self)
        ensures
            r@ == self@,
        decreases self,
    {
        match self {
            FlatRuleset::SelectorRuleset(selector, rules) => FlatRuleset::SelectorRuleset(
                selector.clone(),
                clone_rules(rules),
            ),
            FlatRuleset::QualRule(rule) => FlatRuleset::QualRule(rule.clone()),
            FlatRuleset::QualRuleset(rule, rules) => FlatRuleset::QualRuleset(
                rule.clone(),
                clone_rules(rules),
            ),
            FlatRuleset::QualNestedRuleset(rule, body) => {
                let r = FlatRuleset::QualNestedRuleset(rule.clone(), clone_flat(body));
                proof {
                    lemma_nested_view(*rule, *body);
                    lemma_nested_view(r->QualNestedRuleset_0, r->QualNestedRuleset_1);
                }
                r
            },
        }
    }
}

/// Appends the text of the rulesets to `out`.
pub fn render_flat(rulesets: &Vec<FlatRuleset>, out: &mut String)
    ensures
        final(out)@ == old(out)@ + flat_rulesets_text(rulesets.deep_view(), rulesets.len() as int),
    decreases rulesets,
{
    let mut i: usize = 0;
    assert(out@ =~= old(out)@ + flat_rulesets_text(rulesets.deep_view(), 0));
    while i < rulesets.len()
        invariant
            i <= rulesets.len(),
            out@ == old(out)@ + flat_rulesets_text(rulesets.deep_view(), i as int),
        decreases rulesets.len() - i,
    {
        rulesets[i].render_into(out);
        assert(rulesets.deep_view()[i as int] == rulesets[i as int]@);
        assert(out@ =~= old(out)@ + flat_rulesets_text(rulesets.deep_view(), i + 1));
        i += 1;
    }
}

impl FlatRuleset {
    /// Appends the text of the ruleset to `out`.
    pub fn render_into(&self, out: &mut String)
        ensures
            final(out)@ == old(out)@ + flat_ruleset_text(self@),
        decreases self,
    {
        match self {
            FlatRuleset::SelectorRuleset(selector, rules) => {
                selector.render_into(out);
                out.push('{');
                render_rules(rules, out);
                out.push('}');
            },
            FlatRuleset::QualRule(rule) => {
                rule.render(out);
                out.push(';');
            },
            FlatRuleset::QualRuleset(rule, rules) => {
                rule.render(out);
                out.push('{');
                render_rules(rules, out);
                out.push('}');
            },
            FlatRuleset::QualNestedRuleset(rule, body) => {
                proof {
                    lemma_nested_view(*rule, *body);
                }
                rule.render(out);
                out.push('{');
                render_flat(body, out);
                out.push('}');
            },
        }
        assert(out@ =~= old(out)@ + flat_ruleset_text(self@));
    }
}

impl RenderCss for FlatRuleset {
    open spec fn css(&self) -> Seq<char> {
        flat_ruleset_text(self@)
    }

    fn render(&self, out: &mut String) {
        self.render_into(out);
    }
}

} // verus!
