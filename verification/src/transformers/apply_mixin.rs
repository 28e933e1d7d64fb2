//! Mixins: `@mixin name { .. }` at the top level declares, `@include name;`
//! in the body of a ruleset brings the declared body in.

use vstd::prelude::*;
use crate::ast::selector::selector_path::{SelectorPath, SelectorPathView};
use crate::ast::selector::selector_term::{bare_term, SelectorTerm};
use crate::ast::selector::Selector;
use crate::ast::tree_ruleset::{
    clone_body,
    clone_rulesets,
    lemma_tree_ruleset_view,
    TreeRule,
    TreeRuleView,
    TreeRuleset,
    TreeRulesetView,
    TreeSelectorRuleset,
};
use crate::ast::Tree;
use crate::text::text_is;
use crate::transform::{ruleset_fn, trees_each, TransformCss};

verus! {

/// The name and the body that the ruleset declares, where it declares a
/// mixin: an at-rule `mixin` with a value, the name, and with a body.
pub open spec fn mixin_of(ruleset: TreeRulesetView) -> Option<(Seq<char>, Seq<TreeRuleView>)> {
    match ruleset {
        TreeRulesetView::QualRuleset(rule, body) => match rule.value {
            Some(name) => if rule.name == "mixin"@ {
                Some((name, body))
            } else {
                None
            },
            None => None,
        },
        _ => None,
    }
}

/// The body that the first `n` rulesets of `tree` declare for the mixin
/// `name`; of several declarations the last one counts.
pub open spec fn mixin_body(tree: Seq<TreeRulesetView>, n: int, name: Seq<char>) -> Option<
    Seq<TreeRuleView>,
>
    decreases n,
{
    if 0 < n <= tree.len() {
        match mixin_of(tree[n - 1]) {
            Some((declared, body)) => if declared == name {
                Some(body)
            } else {
                mixin_body(tree, n - 1, name)
            },
            None => mixin_body(tree, n - 1, name),
        }
    } else {
        None
    }
}

/// The selector `&` alone: it stands for the selector of the enclosing
/// ruleset.
pub open spec fn self_selector() -> Seq<SelectorPathView> {
    seq![SelectorPathView::PartialCons(bare_term(None), seq![])]
}

/// The ruleset with its mixin brought in, where it is an `@include name;` of
/// a mixin that `tree` declares: a ruleset of the selector `&` with the body
/// of the mixin, as it was declared. Every other ruleset as it is, an
/// `@include` of a name that is not declared too.
pub open spec fn mixin_expanded(
    tree: Seq<TreeRulesetView>,
    ruleset: TreeRulesetView,
) -> TreeRulesetView {
    match ruleset {
        TreeRulesetView::QualRule(rule) => if rule.name == "include"@ && rule.value is Some {
            match mixin_body(tree, tree.len() as int, rule.value->0) {
                Some(body) => TreeRulesetView::SelectorRuleset(self_selector(), body),
                None => ruleset,
            }
        } else {
            ruleset
        },
        _ => ruleset,
    }
}

/// What bringing in the mixins that `tree` declares makes of a ruleset.
pub open spec fn expansion(tree: Seq<TreeRulesetView>) -> spec_fn(
    TreeRulesetView,
) -> TreeRulesetView {
    |ruleset: TreeRulesetView| mixin_expanded(tree, ruleset)
}

/// Of the first `n` rulesets of `tree`, those that declare no mixin.
pub open spec fn without_mixins(tree: Seq<TreeRulesetView>, n: int) -> Seq<TreeRulesetView>
    decreases n,
{
    if 0 < n <= tree.len() {
        if mixin_of(tree[n - 1]) is Some {
            without_mixins(tree, n - 1)
        } else {
            without_mixins(tree, n - 1).push(tree[n - 1])
        }
    } else {
        seq![]
    }
}

/// The stylesheet `tree` with the mixins that it declares at its top level
/// brought in, and without the declarations. An `@include` is looked for at
/// the top level and in the bodies of the rulesets with a selector, at any
/// depth. The body of a mixin comes in as it was declared: what it includes
/// in turn is not brought in.
pub open spec fn mixins_applied(tree: Seq<TreeRulesetView>) -> Seq<TreeRulesetView> {
    let expanded = trees_each(expansion(tree), tree, tree.len() as int);
    without_mixins(expanded, expanded.len() as int)
}

/// The name and the body that the ruleset declares, where it declares a
/// mixin.
fn mixin_in(ruleset: &TreeRuleset) -> (r: Option<(&String, &Vec<TreeRule>)>)
    ensures
        r matches Some((name, body)) ==> mixin_of(ruleset@) == Some((name@, body.deep_view())),
        r is None ==> mixin_of(ruleset@) is None,
{
    proof {
        lemma_tree_ruleset_view(*ruleset);
    }
    match ruleset {
        TreeRuleset::QualRuleset(rule, body) => match &rule.1 {
            Some(name) => if text_is(&rule.0, "mixin") {
                Some((name, body))
            } else {
                None
            },
            None => None,
        },
        _ => None,
    }
}

/// Finds the body that the rulesets declare for the mixin `name`.
fn find_mixin<'a>(tree: &'a Vec<TreeRuleset>, name: &String) -> (r: Option<&'a Vec<TreeRule>>)
    ensures
        r matches Some(body) ==> mixin_body(tree.deep_view(), tree.len() as int, name@) == Some(
            body.deep_view(),
        ),
        r is None ==> mixin_body(tree.deep_view(), tree.len() as int, name@) is None,
{
    let mut n: usize = tree.len();
    while n > 0
        invariant
            n <= tree.len(),
            mixin_body(tree.deep_view(), tree.len() as int, name@) == mixin_body(
                tree.deep_view(),
                n as int,
                name@,
            ),
        decreases n,
    {
        assert(tree.deep_view()[n - 1] == tree[n - 1]@);
        match mixin_in(&tree[n - 1]) {
            Some((declared, body)) => {
                if *declared == *name {
                    return Some(body);
                }
            },
            None => {},
        }
        n -= 1;
    }
    None
}

/// The selector `&` alone.
fn make_self_selector() -> (r: Selector)
    ensures
        r@ == self_selector(),
{
    let none: Vec<crate::ast::selector::SelType> = Vec::new();
    assert(none.deep_view() =~= seq![]);
    let term = SelectorTerm::new(None, &none);
    let tail: Vec<(crate::ast::selector::Combinator, SelectorTerm)> = Vec::new();
    assert(tail.deep_view() =~= seq![]);
    let r = Selector::from_paths(SelectorPath::PartialCons(term, tail), Vec::new());
    assert(r@ =~= self_selector());
    r
}

/// The rewrite that brings in the mixins that its rulesets declare.
pub struct Expansion<'a> {
    pub definitions: &'a Vec<TreeRuleset>,
}

impl<'a> TransformCss<TreeRuleset> for Expansion<'a> {
    open spec fn transformed(&self, ruleset: TreeRulesetView) -> TreeRulesetView {
        mixin_expanded(self.definitions.deep_view(), ruleset)
    }

    fn transform(&self, ruleset: &mut TreeRuleset) {
        proof {
            lemma_tree_ruleset_view(*ruleset);
        }
        let found = match &*ruleset {
            TreeRuleset::QualRule(rule) => {
                if text_is(&rule.0, "include") {
                    match &rule.1 {
                        Some(name) => find_mixin(self.definitions, name),
                        None => None,
                    }
                } else {
                    None
                }
            },
            _ => None,
        };
        match found {
            Some(body) => {
                let expanded = TreeRuleset::SelectorRuleset(
                    TreeSelectorRuleset(make_self_selector(), clone_body(body)),
                );
                proof {
                    lemma_tree_ruleset_view(expanded);
                }
                *ruleset = expanded;
            },
            None => {},
        }
    }
}

/// Replaces each `@include name;` by the body of the mixin that
/// `@mixin name { .. }` declares at the top level of `tree`, and removes the
/// declarations. The body comes in as it was declared, inside a ruleset of
/// the selector `&`. An `@include` of a name that is not declared stays.
pub fn apply_mixin(tree: &mut Tree)
    ensures
        final(tree)@ == mixins_applied(old(tree)@),
{
    let definitions = clone_rulesets(&tree.0);
    let f = Expansion { definitions: &definitions };
    assert(ruleset_fn(&f) =~= expansion(old(tree)@));
    tree.transform(&f);
    let mut items: Vec<TreeRuleset> = Vec::new();
    core::mem::swap(&mut tree.0, &mut items);
    let ghost expanded = items.deep_view();
    let mut kept: Vec<TreeRuleset> = Vec::new();
    let mut i: usize = 0;
    assert(kept.deep_view() =~= seq![]);
    while i < items.len()
        invariant
            i <= items.len(),
            expanded == items.deep_view(),
            kept.deep_view() == without_mixins(expanded, i as int),
        decreases items.len() - i,
    {
        assert(expanded[i as int] == items[i as int]@);
        if mixin_in(&items[i]).is_none() {
            let ghost before = kept.deep_view();
            kept.push(items[i].clone());
            assert(kept.deep_view() =~= before.push(expanded[i as int]));
        }
        i += 1;
    }
    tree.0 = kept;
}

} // verus!
