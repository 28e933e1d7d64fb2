//! Merging neighbouring rulesets that say the same of the same selector.

use vstd::prelude::*;
use crate::ast::flat_ruleset::{FlatRuleset, FlatRulesetView};
use crate::ast::ruleset::rule::extend_rules;
use crate::ast::Css;

verus! {

/// What the rulesets `x` and `y`, the one right after the other, merge to:
/// `x` where both are the same at-rule without a body; the ruleset of the
/// rules of both where both have the same selector. Others do not merge.
pub open spec fn merged(x: FlatRulesetView, y: FlatRulesetView) -> Option<FlatRulesetView> {
    match (x, y) {
        (FlatRulesetView::QualRule(a), FlatRulesetView::QualRule(b)) => if a == b {
            Some(x)
        } else {
            None
        },
        (
            FlatRulesetView::SelectorRuleset(s, rules),
            FlatRulesetView::SelectorRuleset(t, more),
        ) => if s == t {
            Some(FlatRulesetView::SelectorRuleset(s, rules + more))
        } else {
            None
        },
        _ => None,
    }
}

/// The first `n` rulesets of `css` with each one merged into the one before
/// it where the two merge. A ruleset merges with its neighbour only, never
/// across a ruleset that stands between.
pub open spec fn deduped_upto(css: Seq<FlatRulesetView>, n: int) -> Seq<FlatRulesetView>
    decreases n,
{
    if n <= 0 || n > css.len() {
        seq![]
    } else if n == 1 {
        seq![css[0]]
    } else {
        let before = deduped_upto(css, n - 1);
        if before.len() == 0 {
            seq![css[n - 1]]
        } else {
            match merged(before.last(), css[n - 1]) {
                Some(both) => before.drop_last().push(both),
                None => before.push(css[n - 1]),
            }
        }
    }
}

/// The stylesheet `css` with neighbouring rulesets merged.
pub open spec fn deduped(css: Seq<FlatRulesetView>) -> Seq<FlatRulesetView> {
    deduped_upto(css, css.len() as int)
}

/// Where no ruleset merges with the one right after it, nothing is merged:
/// two rulesets of the same selector stay apart as long as a ruleset that
/// merges with neither stands between them.
pub proof fn lemma_dedupe_merges_neighbours_only(css: Seq<FlatRulesetView>)
    requires
        forall|i: int| 0 <= i < css.len() - 1 ==> merged(#[trigger] css[i], css[i + 1]) is None,
    ensures
        deduped(css) == css,
{
    lemma_deduped_upto_apart(css, css.len() as int);
    assert(css.take(css.len() as int) =~= css);
}

/// Where no ruleset merges with the one right after it, the first `n`
/// rulesets stay as they are.
proof fn lemma_deduped_upto_apart(css: Seq<FlatRulesetView>, n: int)
    requires
        0 <= n <= css.len(),
        forall|i: int| 0 <= i < css.len() - 1 ==> merged(#[trigger] css[i], css[i + 1]) is None,
    ensures
        deduped_upto(css, n) == css.take(n),
    decreases n,
{
    if n <= 0 {
        assert(css.take(n) =~= seq![]);
    } else if n == 1 {
        assert(css.take(1) =~= seq![css[0]]);
    } else {
        lemma_deduped_upto_apart(css, n - 1);
        let before = css.take(n - 1);
        assert(before.last() == css[n - 2]);
        assert(merged(css[n - 2], css[n - 2 + 1]) is None);
        assert(before.push(css[n - 1]) =~= css.take(n));
    }
}

/// Merges each ruleset into the one before it where both are the same
/// at-rule without a body, or have the same selector: the rules of the second
/// then follow those of the first.
pub fn dedupe(css: &mut Css)
    ensures
        final(css)@ == deduped(old(css)@),
{
    let mut items: Vec<FlatRuleset> = Vec::new();
    core::mem::swap(&mut css.0, &mut items);
    let ghost all = items.deep_view();
    let mut res: Vec<FlatRuleset> = Vec::new();
    let mut i: usize = 0;
    assert(res.deep_view() =~= seq![]);
    while i < items.len()
        invariant
            i <= items.len(),
            all == items.deep_view(),
            res.deep_view() == deduped_upto(all, i as int),
            i > 0 ==> res.len() > 0,
        decreases items.len() - i,
    {
        assert(all[i as int] == items[i as int]@);
        let ghost before = res.deep_view();
        if res.len() == 0 {
            res.push(items[i].clone());
            assert(res.deep_view() =~= seq![all[i as int]]);
        } else {
            let last = res.pop().unwrap();
            assert(res.deep_view() =~= before.drop_last());
            assert(last@ == before.last());
            match (last, &items[i]) {
                (FlatRuleset::QualRule(a), FlatRuleset::QualRule(b)) => {
                    if a.same(b) {
                        res.push(FlatRuleset::QualRule(a));
                    } else {
                        res.push(FlatRuleset::QualRule(a));
                        res.push(items[i].clone());
                    }
                },
                (FlatRuleset::SelectorRuleset(s, rules), FlatRuleset::SelectorRuleset(t, more)) => {
                    if s.same(t) {
                        let mut rules = rules;
                        extend_rules(&mut rules, more);
                        res.push(FlatRuleset::SelectorRuleset(s, rules));
                    } else {
                        res.push(FlatRuleset::SelectorRuleset(s, rules));
                        res.push(items[i].clone());
                    }
                },
                (last, _) => {
                    res.push(last);
                    res.push(items[i].clone());
                },
            }
            assert(res.deep_view() =~= match merged(before.last(), all[i as int]) {
                Some(both) => before.drop_last().push(both),
                None => before.push(all[i as int]),
            });
        }
        i += 1;
    }
    css.0 = res;
}

} // verus!
