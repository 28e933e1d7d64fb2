//! Rewriting the nodes of a stylesheet in place.

use vstd::prelude::*;
use crate::ast::flat_ruleset::{lemma_nested_view, FlatRuleset, FlatRulesetView};
use crate::ast::ruleset::rule::{Rule, RuleView};
use crate::ast::tree_ruleset::{
    lemma_tree_ruleset_view,
    TreeRule,
    TreeRuleView,
    TreeRuleset,
    TreeRulesetView,
};
use crate::ast::{Css, Tree};

verus! {

/// A rewrite of the nodes of one type.
pub trait TransformCss<T: DeepView> {
    /// What the rewrite makes of a node; the node itself, unless the rewrite
    /// says otherwise.
    open spec fn transformed(&self, node: T::V) -> T::V {
        node
    }

    /// Rewrites `node`.
    fn transform(&self, node: &mut T)
        ensures
            final(node).deep_view() == self.transformed(old(node).deep_view()),
    ;
}

/// The rewrite `f` of rules, as a function.
pub open spec fn rule_fn<F: TransformCss<Rule>>(f: &F) -> spec_fn(RuleView) -> RuleView {
    |rule: RuleView| f.transformed(rule)
}

/// The rewrite `f` of nested rulesets, as a function.
pub open spec fn ruleset_fn<F: TransformCss<TreeRuleset>>(f: &F) -> spec_fn(
    TreeRulesetView,
) -> TreeRulesetView {
    |ruleset: TreeRulesetView| f.transformed(ruleset)
}

// ---------------------------------------------------------------------------
// The rules of a flat stylesheet
// ---------------------------------------------------------------------------
/// The rules with the first `n` of them rewritten by `g`.
pub open spec fn rules_mapped(g: spec_fn(RuleView) -> RuleView, rules: Seq<RuleView>, n: int) -> Seq<
    RuleView,
>
    decreases n,
{
    if 0 < n <= rules.len() {
        rules_mapped(g, rules, n - 1).update(n - 1, g(rules[n - 1]))
    } else {
        rules
    }
}

/// The flat rulesets with every rule of the first `n` of them rewritten by
/// `g`.
pub open spec fn flats_mapped(
    g: spec_fn(RuleView) -> RuleView,
    rulesets: Seq<FlatRulesetView>,
    n: int,
) -> Seq<FlatRulesetView>
    decreases rulesets, n,
{
    if 0 < n <= rulesets.len() {
        flats_mapped(g, rulesets, n - 1).update(n - 1, flat_mapped(g, rulesets[n - 1]))
    } else {
        rulesets
    }
}

/// The flat ruleset with every rule in it rewritten by `g`.
pub open spec fn flat_mapped(
    g: spec_fn(RuleView) -> RuleView,
    ruleset: FlatRulesetView,
) -> FlatRulesetView
    decreases ruleset, 0int,
{
    match ruleset {
        FlatRulesetView::SelectorRuleset(selector, rules) => FlatRulesetView::SelectorRuleset(
            selector,
            rules_mapped(g, rules, rules.len() as int),
        ),
        FlatRulesetView::QualRule(rule) => ruleset,
        FlatRulesetView::QualRuleset(rule, rules) => FlatRulesetView::QualRuleset(
            rule,
            rules_mapped(g, rules, rules.len() as int),
        ),
        FlatRulesetView::QualNestedRuleset(rule, body) => FlatRulesetView::QualNestedRuleset(
            rule,
            flats_mapped(g, body, body.len() as int),
        ),
    }
}

/// Rewriting the first `n` rules keeps their number, and the others as they
/// are.
proof fn lemma_rules_mapped(g: spec_fn(RuleView) -> RuleView, rules: Seq<RuleView>, n: int)
    requires
        0 <= n <= rules.len(),
    ensures
        rules_mapped(g, rules, n).len() == rules.len(),
        forall|k: int| n <= k < rules.len() ==> rules_mapped(g, rules, n)[k] == rules[k],
    decreases n,
{
    if n > 0 {
        lemma_rules_mapped(g, rules, n - 1);
    }
}

/// Rewriting the first `n` rulesets keeps their number, and the others as
/// they are.
proof fn lemma_flats_mapped(
    g: spec_fn(RuleView) -> RuleView,
    rulesets: Seq<FlatRulesetView>,
    n: int,
)
    requires
        0 <= n <= rulesets.len(),
    ensures
        flats_mapped(g, rulesets, n).len() == rulesets.len(),
        forall|k: int| n <= k < rulesets.len() ==> flats_mapped(g, rulesets, n)[k] == rulesets[k],
    decreases n,
{
    if n > 0 {
        lemma_flats_mapped(g, rulesets, n - 1);
    }
}

/// Rewrites each of the rules by `f`.
pub fn transform_rules<F: TransformCss<Rule>>(f: &F, rules: &mut Vec<Rule>)
    ensures
        final(rules).deep_view() == rules_mapped(
            rule_fn(f),
            old(rules).deep_view(),
            old(rules).len() as int,
        ),
{
    let ghost all = rules.deep_view();
    let mut i: usize = 0;
    while i < rules.len()
        invariant
            i <= rules.len(),
            rules.len() == all.len(),
            rules.deep_view() == rules_mapped(rule_fn(f), all, i as int),
        decreases rules.len() - i,
    {
        let ghost before = rules.deep_view();
        proof {
            lemma_rules_mapped(rule_fn(f), all, i as int);
        }
        f.transform(&mut rules[i]);
        assert(rules.deep_view() =~= before.update(i as int, f.transformed(all[i as int])));
        i += 1;
    }
}

/// Rewrites each rule of the flat rulesets by `f`.
pub fn transform_flat<F: TransformCss<Rule>>(f: &F, rulesets: &mut Vec<FlatRuleset>)
    ensures
        final(rulesets).deep_view() == flats_mapped(
            rule_fn(f),
            old(rulesets).deep_view(),
            old(rulesets).len() as int,
        ),
    decreases *old(rulesets),
{
    let ghost all = rulesets.deep_view();
    let mut i: usize = 0;
    while i < rulesets.len()
        invariant
            i <= rulesets.len(),
            rulesets.len() == all.len(),
            rulesets.len() == old(rulesets).len(),
            forall|k: int| i <= k < rulesets.len() ==> rulesets[k] == old(rulesets)[k],
            rulesets.deep_view() == flats_mapped(rule_fn(f), all, i as int),
        decreases rulesets.len() - i,
    {
        let ghost before = rulesets.deep_view();
        proof {
            lemma_flats_mapped(rule_fn(f), all, i as int);
        }
        rulesets[i].transform_rules(f);
        assert(rulesets.deep_view() =~= before.update(
            i as int,
            flat_mapped(rule_fn(f), all[i as int]),
        ));
        i += 1;
    }
}

impl FlatRuleset {
    /// Rewrites each rule of the ruleset, at any depth, by `f`.
    pub fn transform_rules<F: TransformCss<Rule>>(&mut self, f: &F)
        ensures
            final(self)@ == flat_mapped(rule_fn(f), old(self)@),
        decreases *old(self),
    {
        match self {
            FlatRuleset::SelectorRuleset(_, rules) => {
                transform_rules(f, rules);
            },
            FlatRuleset::QualRule(_) => {},
            FlatRuleset::QualRuleset(_, rules) => {
                transform_rules(f, rules);
            },
            FlatRuleset::QualNestedRuleset(rule, body) => {
                proof {
                    lemma_nested_view(*rule, *body);
                }
                transform_flat(f, body);
                proof {
                    lemma_nested_view(*rule, *body);
                }
            },
        }
    }
}

impl Css {
    /// Rewrites each rule of the stylesheet, at any depth, by `f`.
    pub fn transform<F: TransformCss<Rule>>(&mut self, f: &F)
        ensures
            final(self)@ == flats_mapped(rule_fn(f), old(self)@, old(self)@.len() as int),
    {
        transform_flat(f, &mut self.0);
    }
}


// ---------------------------------------------------------------------------
// The rules of a nested stylesheet
// ---------------------------------------------------------------------------
/// The item of a body with every rule in it rewritten by `g`.
pub open spec fn item_mapped(g: spec_fn(RuleView) -> RuleView, item: TreeRuleView) -> TreeRuleView
    decreases item, 0int,
{
    match item {
        TreeRuleView::Rule(rule) => TreeRuleView::Rule(g(rule)),
        TreeRuleView::Ruleset(ruleset) => TreeRuleView::Ruleset(tree_mapped(g, ruleset)),
    }
}

/// The body with every rule of its first `n` items rewritten by `g`.
pub open spec fn body_mapped(
    g: spec_fn(RuleView) -> RuleView,
    body: Seq<TreeRuleView>,
    n: int,
) -> Seq<TreeRuleView>
    decreases body, n,
{
    if 0 < n <= body.len() {
        body_mapped(g, body, n - 1).update(n - 1, item_mapped(g, body[n - 1]))
    } else {
        body
    }
}

/// The nested rulesets with every rule of the first `n` of them rewritten by
/// `g`.
pub open spec fn trees_mapped(
    g: spec_fn(RuleView) -> RuleView,
    rulesets: Seq<TreeRulesetView>,
    n: int,
) -> Seq<TreeRulesetView>
    decreases rulesets, n,
{
    if 0 < n <= rulesets.len() {
        trees_mapped(g, rulesets, n - 1).update(n - 1, tree_mapped(g, rulesets[n - 1]))
    } else {
        rulesets
    }
}

/// The nested ruleset with every rule in it, at any depth, rewritten by `g`.
pub open spec fn tree_mapped(
    g: spec_fn(RuleView) -> RuleView,
    ruleset: TreeRulesetView,
) -> TreeRulesetView
    decreases ruleset, 0int,
{
    match ruleset {
        TreeRulesetView::SelectorRuleset(selector, body) => TreeRulesetView::SelectorRuleset(
            selector,
            body_mapped(g, body, body.len() as int),
        ),
        TreeRulesetView::QualRule(rule) => ruleset,
        TreeRulesetView::QualRuleset(rule, body) => TreeRulesetView::QualRuleset(
            rule,
            body_mapped(g, body, body.len() as int),
        ),
        TreeRulesetView::QualNestedRuleset(rule, body) => TreeRulesetView::QualNestedRuleset(
            rule,
            trees_mapped(g, body, body.len() as int),
        ),
    }
}

/// Rewriting the first `n` items keeps their number, and the others as they
/// are.
proof fn lemma_body_mapped(g: spec_fn(RuleView) -> RuleView, body: Seq<TreeRuleView>, n: int)
    requires
        0 <= n <= body.len(),
    ensures
        body_mapped(g, body, n).len() == body.len(),
        forall|k: int| n <= k < body.len() ==> body_mapped(g, body, n)[k] == body[k],
    decreases n,
{
    if n > 0 {
        lemma_body_mapped(g, body, n - 1);
    }
}

/// Rewriting the first `n` rulesets keeps their number, and the others as
/// they are.
proof fn lemma_trees_mapped(
    g: spec_fn(RuleView) -> RuleView,
    rulesets: Seq<TreeRulesetView>,
    n: int,
)
    requires
        0 <= n <= rulesets.len(),
    ensures
        trees_mapped(g, rulesets, n).len() == rulesets.len(),
        forall|k: int| n <= k < rulesets.len() ==> trees_mapped(g, rulesets, n)[k] == rulesets[k],
    decreases n,
{
    if n > 0 {
        lemma_trees_mapped(g, rulesets, n - 1);
    }
}

/// Rewrites each rule of the items of a body by `f`.
pub fn transform_body<F: TransformCss<Rule>>(f: &F, body: &mut Vec<TreeRule>)
    ensures
        final(body).deep_view() == body_mapped(
            rule_fn(f),
            old(body).deep_view(),
            old(body).len() as int,
        ),
    decreases *old(body),
{
    let ghost all = body.deep_view();
    let mut i: usize = 0;
    while i < body.len()
        invariant
            i <= body.len(),
            body.len() == all.len(),
            body.len() == old(body).len(),
            forall|k: int| i <= k < body.len() ==> body[k] == old(body)[k],
            body.deep_view() == body_mapped(rule_fn(f), all, i as int),
        decreases body.len() - i,
    {
        let ghost before = body.deep_view();
        proof {
            lemma_body_mapped(rule_fn(f), all, i as int);
        }
        body[i].transform_rules(f);
        assert(body.deep_view() =~= before.update(i as int, item_mapped(rule_fn(f), all[i as int])));
        i += 1;
    }
}

/// Rewrites each rule of the nested rulesets by `f`.
pub fn transform_trees<F: TransformCss<Rule>>(f: &F, rulesets: &mut Vec<TreeRuleset>)
    ensures
        final(rulesets).deep_view() == trees_mapped(
            rule_fn(f),
            old(rulesets).deep_view(),
            old(rulesets).len() as int,
        ),
    decreases *old(rulesets),
{
    let ghost all = rulesets.deep_view();
    let mut i: usize = 0;
    while i < rulesets.len()
        invariant
            i <= rulesets.len(),
            rulesets.len() == all.len(),
            rulesets.len() == old(rulesets).len(),
            forall|k: int| i <= k < rulesets.len() ==> rulesets[k] == old(rulesets)[k],
            rulesets.deep_view() == trees_mapped(rule_fn(f), all, i as int),
        decreases rulesets.len() - i,
    {
        let ghost before = rulesets.deep_view();
        proof {
            lemma_trees_mapped(rule_fn(f), all, i as int);
        }
        rulesets[i].transform_rules(f);
        assert(rulesets.deep_view() =~= before.update(
            i as int,
            tree_mapped(rule_fn(f), all[i as int]),
        ));
        i += 1;
    }
}

impl TreeRule {
    /// Rewrites each rule of the item, at any depth, by `f`.
    pub fn transform_rules<F: TransformCss<Rule>>(&mut self, f: &F)
        ensures
            final(self)@ == item_mapped(rule_fn(f), old(self)@),
        decreases *old(self),
    {
        match self {
            TreeRule::Rule(rule) => {
                f.transform(rule);
            },
            TreeRule::Ruleset(ruleset) => {
                ruleset.transform_rules(f);
            },
        }
    }
}

impl TreeRuleset {
    /// Rewrites each rule of the ruleset, at any depth, by `f`.
    pub fn transform_rules<F: TransformCss<Rule>>(&mut self, f: &F)
        ensures
            final(self)@ == tree_mapped(rule_fn(f), old(self)@),
        decreases *old(self),
    {
        proof {
            lemma_tree_ruleset_view(*self);
        }
        match self {
            TreeRuleset::SelectorRuleset(inner) => {
                transform_body(f, &mut inner.1);
            },
            TreeRuleset::QualRule(_) => {},
            TreeRuleset::QualRuleset(_, body) => {
                transform_body(f, body);
            },
            TreeRuleset::QualNestedRuleset(_, body) => {
                transform_trees(f, body);
            },
        }
        proof {
            lemma_tree_ruleset_view(*self);
        }
    }
}

// ---------------------------------------------------------------------------
// The rulesets of a nested stylesheet
// ---------------------------------------------------------------------------
/// The item of a body with the rulesets in it rewritten by `h`.
pub open spec fn item_each(
    h: spec_fn(TreeRulesetView) -> TreeRulesetView,
    item: TreeRuleView,
) -> TreeRuleView
    decreases item, 0int,
{
    match item {
        TreeRuleView::Rule(rule) => item,
        TreeRuleView::Ruleset(ruleset) => TreeRuleView::Ruleset(tree_each(h, ruleset)),
    }
}

/// The body with the rulesets in its first `n` items rewritten by `h`.
pub open spec fn body_each(
    h: spec_fn(TreeRulesetView) -> TreeRulesetView,
    body: Seq<TreeRuleView>,
    n: int,
) -> Seq<TreeRuleView>
    decreases body, n,
{
    if 0 < n <= body.len() {
        body_each(h, body, n - 1).update(n - 1, item_each(h, body[n - 1]))
    } else {
        body
    }
}

/// The nested ruleset rewritten by `h`, after the rulesets in its body. The
/// body of a ruleset with a selector is gone through, at any depth; that of
/// an at-rule is not. What `h` puts in the place of a ruleset is not gone
/// through again.
pub open spec fn tree_each(
    h: spec_fn(TreeRulesetView) -> TreeRulesetView,
    ruleset: TreeRulesetView,
) -> TreeRulesetView
    decreases ruleset, 0int,
{
    match ruleset {
        TreeRulesetView::SelectorRuleset(selector, body) => h(
            TreeRulesetView::SelectorRuleset(selector, body_each(h, body, body.len() as int)),
        ),
        other => h(other),
    }
}

/// The nested rulesets with the first `n` of them rewritten by `h`, each
/// after the rulesets in its body.
pub open spec fn trees_each(
    h: spec_fn(TreeRulesetView) -> TreeRulesetView,
    rulesets: Seq<TreeRulesetView>,
    n: int,
) -> Seq<TreeRulesetView>
    decreases n,
{
    if 0 < n <= rulesets.len() {
        trees_each(h, rulesets, n - 1).update(n - 1, tree_each(h, rulesets[n - 1]))
    } else {
        rulesets
    }
}

/// Rewriting the first `n` items keeps their number, and the others as they
/// are.
proof fn lemma_body_each(
    h: spec_fn(TreeRulesetView) -> TreeRulesetView,
    body: Seq<TreeRuleView>,
    n: int,
)
    requires
        0 <= n <= body.len(),
    ensures
        body_each(h, body, n).len() == body.len(),
        forall|k: int| n <= k < body.len() ==> body_each(h, body, n)[k] == body[k],
    decreases n,
{
    if n > 0 {
        lemma_body_each(h, body, n - 1);
    }
}

/// Rewriting the first `n` rulesets keeps their number, and the others as
/// they are.
proof fn lemma_trees_each(
    h: spec_fn(TreeRulesetView) -> TreeRulesetView,
    rulesets: Seq<TreeRulesetView>,
    n: int,
)
    requires
        0 <= n <= rulesets.len(),
    ensures
        trees_each(h, rulesets, n).len() == rulesets.len(),
        forall|k: int| n <= k < rulesets.len() ==> trees_each(h, rulesets, n)[k] == rulesets[k],
    decreases n,
{
    if n > 0 {
        lemma_trees_each(h, rulesets, n - 1);
    }
}

/// Rewrites the rulesets in the items of a body by `f`.
fn transform_body_each<F: TransformCss<TreeRuleset>>(f: &F, body: &mut Vec<TreeRule>)
    ensures
        final(body).deep_view() == body_each(
            ruleset_fn(f),
            old(body).deep_view(),
            old(body).len() as int,
        ),
    decreases *old(body),
{
    let ghost all = body.deep_view();
    let mut i: usize = 0;
    while i < body.len()
        invariant
            i <= body.len(),
            body.len() == all.len(),
            body.len() == old(body).len(),
            forall|k: int| i <= k < body.len() ==> body[k] == old(body)[k],
            body.deep_view() == body_each(ruleset_fn(f), all, i as int),
        decreases body.len() - i,
    {
        let ghost before = body.deep_view();
        proof {
            lemma_body_each(ruleset_fn(f), all, i as int);
        }
        body[i].transform_each(f);
        assert(body.deep_view() =~= before.update(i as int, item_each(ruleset_fn(f), all[i as int])));
        i += 1;
    }
}

impl TreeRule {
    /// Rewrites the rulesets in the item by `f`.
    pub fn transform_each<F: TransformCss<TreeRuleset>>(&mut self, f: &F)
        ensures
            final(self)@ == item_each(ruleset_fn(f), old(self)@),
        decreases *old(self),
    {
        match self {
            TreeRule::Rule(_) => {},
            TreeRule::Ruleset(ruleset) => {
                ruleset.transform_each(f);
            },
        }
    }
}

impl TreeRuleset {
    /// Rewrites the ruleset by `f`, after the rulesets in its body.
    pub fn transform_each<F: TransformCss<TreeRuleset>>(&mut self, f: &F)
        ensures
            final(self)@ == tree_each(ruleset_fn(f), old(self)@),
        decreases *old(self),
    {
        proof {
            lemma_tree_ruleset_view(*self);
        }
        match self {
            TreeRuleset::SelectorRuleset(inner) => {
                transform_body_each(f, &mut inner.1);
            },
            _ => {},
        }
        proof {
            lemma_tree_ruleset_view(*self);
        }
        f.transform(self);
    }
}

impl Tree {
    /// Rewrites each ruleset of the stylesheet by `f`, after the rulesets in
    /// its body.
    pub fn transform<F: TransformCss<TreeRuleset>>(&mut self, f: &F)
        ensures
            final(self)@ == trees_each(ruleset_fn(f), old(self)@, old(self)@.len() as int),
    {
        let ghost all = self@;
        let mut i: usize = 0;
        while i < self.0.len()
            invariant
                i <= self.0.len(),
                self.0.len() == all.len(),
                self@ == trees_each(ruleset_fn(f), all, i as int),
            decreases self.0.len() - i,
        {
            let ghost before = self@;
            proof {
                lemma_trees_each(ruleset_fn(f), all, i as int);
            }
            self.0[i].transform_each(f);
            assert(self@ =~= before.update(i as int, tree_each(ruleset_fn(f), all[i as int])));
            i += 1;
        }
    }

    /// Rewrites each rule of the stylesheet, at any depth, by `f`.
    pub fn transform_rules<F: TransformCss<Rule>>(&mut self, f: &F)
        ensures
            final(self)@ == trees_mapped(rule_fn(f), old(self)@, old(self)@.len() as int),
    {
        transform_trees(f, &mut self.0);
    }
}

} // verus!
