//! Keeping of a stylesheet what another one may refer to.

use vstd::prelude::*;
use crate::ast::tree_ruleset::{TreeRuleset, TreeRulesetView};
use crate::ast::Tree;

verus! {

/// Of the first `n` rulesets of `tree`, those that are at-rules. The
/// rulesets with a selector are left out; those inside an at-rule stay.
pub open spec fn refs_upto(tree: Seq<TreeRulesetView>, n: int) -> Seq<TreeRulesetView>
    decreases n,
{
    if 0 < n <= tree.len() {
        if tree[n - 1] is SelectorRuleset {
            refs_upto(tree, n - 1)
        } else {
            refs_upto(tree, n - 1).push(tree[n - 1])
        }
    } else {
        seq![]
    }
}

/// Removes the rulesets with a selector from the top level of `tree`, so
/// that bringing it into another stylesheet adds nothing to what that one
/// selects.
pub fn filter_refs(tree: &mut Tree)
    ensures
        final(tree)@ == refs_upto(old(tree)@, old(tree)@.len() as int),
{
    let mut items: Vec<TreeRuleset> = Vec::new();
    core::mem::swap(&mut tree.0, &mut items);
    let ghost all = items.deep_view();
    let mut kept: Vec<TreeRuleset> = Vec::new();
    let mut i: usize = 0;
    assert(kept.deep_view() =~= seq![]);
    while i < items.len()
        invariant
            i <= items.len(),
            all == items.deep_view(),
            kept.deep_view() == refs_upto(all, i as int),
        decreases items.len() - i,
    {
        assert(all[i as int] == items[i as int]@);
        match &items[i] {
            TreeRuleset::SelectorRuleset(_) => {},
            other => {
                let ghost before = kept.deep_view();
                kept.push(other.clone());
                assert(kept.deep_view() =~= before.push(all[i as int]));
            },
        }
        i += 1;
    }
    tree.0 = kept;
}

} // verus!
