//! Flattening: from nested rulesets to rulesets that hold plain rules.

use vstd::prelude::*;
use crate::ast::flat_ruleset::{
    flat_ruleset_text,
    flat_rulesets_text,
    lemma_nested_view,
    FlatRuleset,
    FlatRulesetView,
};
use crate::ast::ruleset::rule::{clone_rules, rule_text, rules_text, Rule, RuleView};
use crate::ast::ruleset::QualRuleView;
use crate::ast::selector::{selector_join, SelectorPathView};
use crate::ast::tree_ruleset::{
    lemma_tree_ruleset_view,
    tree_rule_text,
    tree_rules_text,
    tree_ruleset_text,
    tree_rulesets_text,
    TreeRule,
    TreeRuleView,
    TreeRuleset,
    TreeRulesetView,
    TreeSelectorRuleset,
};

verus! {

/// The ruleset of the rules gathered under `selector`; nothing where no rule
/// was gathered.
pub open spec fn flushed(selector: Seq<SelectorPathView>, group: Seq<RuleView>) -> Seq<
    FlatRulesetView,
> {
    if group.len() > 0 {
        seq![FlatRulesetView::SelectorRuleset(selector, group)]
    } else {
        seq![]
    }
}

/// The flat ruleset `ruleset` as it stands inside a ruleset of `selector`:
/// its selector is joined to `selector`. An at-rule stays as it is.
pub open spec fn joined_ruleset(
    selector: Seq<SelectorPathView>,
    ruleset: FlatRulesetView,
) -> FlatRulesetView {
    match ruleset {
        FlatRulesetView::SelectorRuleset(inner, rules) => FlatRulesetView::SelectorRuleset(
            selector_join(selector, inner),
            rules,
        ),
        other => other,
    }
}

/// Each of `rulesets` as it stands inside a ruleset of `selector`.
pub open spec fn joined_rulesets(
    selector: Seq<SelectorPathView>,
    rulesets: Seq<FlatRulesetView>,
) -> Seq<FlatRulesetView> {
    Seq::new(rulesets.len(), |i: int| joined_ruleset(selector, rulesets[i]))
}

/// Where the walk through the body of a ruleset of `selector` stands after
/// `n` items: the flat rulesets put out so far, and the rules gathered since
/// the last nested ruleset. A rule joins the gathered ones. A nested ruleset
/// puts out the gathered rules as one ruleset of `selector`, and then its own
/// flattening, joined to `selector`.
pub open spec fn selector_walk(
    selector: Seq<SelectorPathView>,
    body: Seq<TreeRuleView>,
    n: int,
) -> (Seq<FlatRulesetView>, Seq<RuleView>)
    decreases body, n,
{
    if 0 < n <= body.len() {
        let (out, group) = selector_walk(selector, body, n - 1);
        match body[n - 1] {
            TreeRuleView::Rule(rule) => (out, group.push(rule)),
            TreeRuleView::Ruleset(inner) => (
                out + flushed(selector, group) + joined_rulesets(selector, flattened(inner)),
                seq![],
            ),
        }
    } else {
        (seq![], seq![])
    }
}

/// Where the walk through the body of an at-rule stands after `n` items: the
/// rules met so far, and the flattenings of the rulesets met so far.
pub open spec fn qual_walk(body: Seq<TreeRuleView>, n: int) -> (
    Seq<RuleView>,
    Seq<FlatRulesetView>,
)
    decreases body, n,
{
    if 0 < n <= body.len() {
        let (rules, nested) = qual_walk(body, n - 1);
        match body[n - 1] {
            TreeRuleView::Rule(rule) => (rules.push(rule), nested),
            TreeRuleView::Ruleset(inner) => (rules, nested + flattened(inner)),
        }
    } else {
        (seq![], seq![])
    }
}

/// The flattenings of the first `n` rulesets, one after the other.
pub open spec fn flattened_all(rulesets: Seq<TreeRulesetView>, n: int) -> Seq<FlatRulesetView>
    decreases rulesets, n,
{
    if 0 < n <= rulesets.len() {
        flattened_all(rulesets, n - 1) + flattened(rulesets[n - 1])
    } else {
        seq![]
    }
}

/// The at-rule of the rules of a body, where it has any, and then the at-rule
/// that wraps the flattened rulesets of the body, where it has any.
pub open spec fn qual_parts(
    rule: QualRuleView,
    rules: Seq<RuleView>,
    nested: Seq<FlatRulesetView>,
) -> Seq<FlatRulesetView> {
    let first = if rules.len() > 0 {
        seq![FlatRulesetView::QualRuleset(rule, rules)]
    } else {
        seq![]
    };
    let second = if nested.len() > 0 {
        seq![FlatRulesetView::QualNestedRuleset(rule, nested)]
    } else {
        seq![]
    };
    first + second
}

/// The flat rulesets that a nested ruleset stands for.
///
/// The body of a ruleset with a selector is walked in order: each run of
/// rules becomes one ruleset of that selector, each nested ruleset is
/// flattened and joined to the selector, and all of them keep the order they
/// were written in. An at-rule without a body stays. An at-rule with a body
/// gives up to two rulesets: one of its rules, then one that wraps the
/// flattened rulesets of its body. An empty body gives nothing.
pub open spec fn flattened(ruleset: TreeRulesetView) -> Seq<FlatRulesetView>
    decreases ruleset, 0int,
{
    match ruleset {
        TreeRulesetView::SelectorRuleset(selector, body) => {
            let (out, group) = selector_walk(selector, body, body.len() as int);
            out + flushed(selector, group)
        },
        TreeRulesetView::QualRule(rule) => seq![FlatRulesetView::QualRule(rule)],
        TreeRulesetView::QualRuleset(rule, body) => {
            let (rules, nested) = qual_walk(body, body.len() as int);
            qual_parts(rule, rules, nested)
        },
        TreeRulesetView::QualNestedRuleset(rule, body) => seq![
            FlatRulesetView::QualNestedRuleset(rule, flattened_all(body, body.len() as int)),
        ],
    }
}

/// Appends the rulesets of `src` to `dst`.
pub fn append_flat(dst: &mut Vec<FlatRuleset>, src: Vec<FlatRuleset>)
    ensures
        final(dst).deep_view() == old(dst).deep_view() + src.deep_view(),
{
    let mut src = src;
    let ghost a = dst.deep_view();
    let ghost b = src.deep_view();
    dst.append(&mut src);
    assert(dst.deep_view() =~= a + b);
}

impl TreeSelectorRuleset {
    /// Join a flat ruleset as an extension of this ruleset's selector.
    pub fn join(&self, rhs: &FlatRuleset) -> (joined: FlatRuleset)
        ensures
            joined@ == joined_ruleset(self.0@, rhs@),
    {
        match rhs {
            FlatRuleset::SelectorRuleset(selector, rules) => FlatRuleset::SelectorRuleset(
                self.0.join(selector),
                clone_rules(rules),
            ),
            other => other.clone(),
        }
    }

    /// Flatten into rulesets that hold plain rules, merging any nested
    /// rulesets which are not allowed in them.
    pub fn flatten_tree(&self) -> (flat: Vec<FlatRuleset>)
        ensures
            flat.deep_view() == flattened(
                TreeRulesetView::SelectorRuleset(self.0@, self.1.deep_view()),
            ),
        decreases self,
    {
        let ghost selector = self.0@;
        let ghost body = self.1.deep_view();
        let mut new_rules: Vec<Rule> = Vec::new();
        let mut new_rulesets: Vec<FlatRuleset> = Vec::new();
        let mut i: usize = 0;
        assert(new_rules.deep_view() =~= seq![]);
        assert(new_rulesets.deep_view() =~= seq![]);
        while i < self.1.len()
            invariant
                i <= self.1.len(),
                selector == self.0@,
                body == self.1.deep_view(),
                selector_walk(selector, body, i as int) == (
                    new_rulesets.deep_view(),
                    new_rules.deep_view(),
                ),
            decreases self.1.len() - i,
        {
            assert(body[i as int] == self.1[i as int]@);
            let ghost out = new_rulesets.deep_view();
            let ghost group = new_rules.deep_view();
            match &self.1[i] {
                TreeRule::Rule(rule) => {
                    new_rules.push(rule.clone());
                    assert(new_rules.deep_view() =~= group.push(rule@));
                },
                TreeRule::Ruleset(ruleset) => {
                    if new_rules.len() > 0 {
                        new_rulesets.push(FlatRuleset::SelectorRuleset(self.0.clone(), new_rules));
                        new_rules = Vec::new();
                    }
                    assert(new_rulesets.deep_view() =~= out + flushed(selector, group));
                    assert(new_rules.deep_view() =~= seq![]);
                    let sub_rules = ruleset.flatten_tree();
                    let ghost done = new_rulesets.deep_view();
                    let mut k: usize = 0;
                    while k < sub_rules.len()
                        invariant
                            k <= sub_rules.len(),
                            selector == self.0@,
                            new_rulesets.len() == done.len() + k,
                            forall|j: int| 0 <= j < done.len() ==> new_rulesets[j]@ == done[j],
                            forall|j: int|
                                0 <= j < k ==> new_rulesets[done.len() + j]@ == joined_ruleset(
                                    selector,
                                    sub_rules[j]@,
                                ),
                        decreases sub_rules.len() - k,
                    {
                        new_rulesets.push(self.join(&sub_rules[k]));
                        k += 1;
                    }
                    assert(new_rulesets.deep_view() =~= done + joined_rulesets(
                        selector,
                        sub_rules.deep_view(),
                    ));
                },
            }
            i += 1;
        }
        let ghost out = new_rulesets.deep_view();
        let ghost group = new_rules.deep_view();
        if new_rules.len() > 0 {
            new_rulesets.push(FlatRuleset::SelectorRuleset(self.0.clone(), new_rules));
        }
        assert(new_rulesets.deep_view() =~= out + flushed(selector, group));
        new_rulesets
    }
}

impl TreeRuleset {
    /// Flatten into rulesets that hold plain rules, removing arbitrary
    /// nesting of the rulesets with a selector.
    pub fn flatten_tree(&self) -> (flat: Vec<FlatRuleset>)
        ensures
            flat.deep_view() == flattened(self@),
        decreases self,
    {
        proof {
            lemma_tree_ruleset_view(*self);
        }
        match self {
            TreeRuleset::SelectorRuleset(ruleset) => ruleset.flatten_tree(),
            TreeRuleset::QualRule(rule) => {
                let mut ret: Vec<FlatRuleset> = Vec::new();
                ret.push(FlatRuleset::QualRule(rule.clone()));
                assert(ret.deep_view() =~= seq![FlatRulesetView::QualRule(rule@)]);
                ret
            },
            TreeRuleset::QualRuleset(rule, body) => {
                let mut new_rules: Vec<Rule> = Vec::new();
                let mut new_rulesets: Vec<FlatRuleset> = Vec::new();
                let mut i: usize = 0;
                assert(new_rules.deep_view() =~= seq![]);
                assert(new_rulesets.deep_view() =~= seq![]);
                while i < body.len()
                    invariant
                        i <= body.len(),
                        *self is QualRuleset,
                        self->QualRuleset_1 == *body,
                        qual_walk(body.deep_view(), i as int) == (
                            new_rules.deep_view(),
                            new_rulesets.deep_view(),
                        ),
                    decreases body.len() - i,
                {
                    assert(body.deep_view()[i as int] == body[i as int]@);
                    match &body[i] {
                        TreeRule::Rule(rule) => {
                            let ghost before = new_rules.deep_view();
                            new_rules.push(rule.clone());
                            assert(new_rules.deep_view() =~= before.push(rule@));
                        },
                        TreeRule::Ruleset(ruleset) => {
                            append_flat(&mut new_rulesets, ruleset.flatten_tree());
                        },
                    }
                    i += 1;
                }
                let ghost rules = new_rules.deep_view();
                let ghost nested = new_rulesets.deep_view();
                let mut ret: Vec<FlatRuleset> = Vec::new();
                if new_rules.len() > 0 {
                    ret.push(FlatRuleset::QualRuleset(rule.clone(), new_rules));
                }
                if new_rulesets.len() > 0 {
                    let wrapper = FlatRuleset::QualNestedRuleset(rule.clone(), new_rulesets);
                    proof {
                        lemma_nested_view(wrapper->QualNestedRuleset_0, wrapper->QualNestedRuleset_1);
                    }
                    ret.push(wrapper);
                }
                assert(ret.deep_view() =~= qual_parts(rule@, rules, nested));
                ret
            },
            TreeRuleset::QualNestedRuleset(rule, body) => {
                let mut inner: Vec<FlatRuleset> = Vec::new();
                let mut i: usize = 0;
                assert(inner.deep_view() =~= seq![]);
                while i < body.len()
                    invariant
                        i <= body.len(),
                        *self is QualNestedRuleset,
                        self->QualNestedRuleset_1 == *body,
                        inner.deep_view() == flattened_all(body.deep_view(), i as int),
                    decreases body.len() - i,
                {
                    assert(body.deep_view()[i as int] == body[i as int]@);
                    append_flat(&mut inner, body[i].flatten_tree());
                    i += 1;
                }
                let wrapper = FlatRuleset::QualNestedRuleset(rule.clone(), inner);
                proof {
                    lemma_nested_view(wrapper->QualNestedRuleset_0, wrapper->QualNestedRuleset_1);
                }
                let mut ret: Vec<FlatRuleset> = Vec::new();
                ret.push(wrapper);
                assert(ret.deep_view() =~= seq![wrapper@]);
                ret
            },
        }
    }
}


// ---------------------------------------------------------------------------
// Flattening what is flat already
// ---------------------------------------------------------------------------
/// The rules as items of a body.
pub open spec fn rules_as_items(rules: Seq<RuleView>) -> Seq<TreeRuleView> {
    Seq::new(rules.len(), |i: int| TreeRuleView::Rule(rules[i]))
}

/// The first `n` flat rulesets as nested ones.
pub open spec fn all_as_tree(rulesets: Seq<FlatRulesetView>, n: int) -> Seq<TreeRulesetView>
    decreases rulesets, n,
{
    if 0 < n <= rulesets.len() {
        all_as_tree(rulesets, n - 1).push(as_tree(rulesets[n - 1]))
    } else {
        seq![]
    }
}

/// The flat ruleset as a nested one: the same selector or at-rule, with the
/// same rules and rulesets in its body.
pub open spec fn as_tree(ruleset: FlatRulesetView) -> TreeRulesetView
    decreases ruleset, 0int,
{
    match ruleset {
        FlatRulesetView::SelectorRuleset(selector, rules) => TreeRulesetView::SelectorRuleset(
            selector,
            rules_as_items(rules),
        ),
        FlatRulesetView::QualRule(rule) => TreeRulesetView::QualRule(rule),
        FlatRulesetView::QualRuleset(rule, rules) => TreeRulesetView::QualRuleset(
            rule,
            rules_as_items(rules),
        ),
        FlatRulesetView::QualNestedRuleset(rule, body) => TreeRulesetView::QualNestedRuleset(
            rule,
            all_as_tree(body, body.len() as int),
        ),
    }
}

/// Whether the first `n` flat rulesets are all settled.
pub open spec fn all_settled(rulesets: Seq<FlatRulesetView>, n: int) -> bool
    decreases rulesets, n,
{
    if 0 < n <= rulesets.len() {
        all_settled(rulesets, n - 1) && settled(rulesets[n - 1])
    } else {
        true
    }
}

/// Whether the flat ruleset is one that flattening puts out: a body of rules
/// is never empty in it, at any depth.
pub open spec fn settled(ruleset: FlatRulesetView) -> bool
    decreases ruleset, 0int,
{
    match ruleset {
        FlatRulesetView::SelectorRuleset(_, rules) => rules.len() > 0,
        FlatRulesetView::QualRule(_) => true,
        FlatRulesetView::QualRuleset(_, rules) => rules.len() > 0,
        FlatRulesetView::QualNestedRuleset(_, body) => all_settled(body, body.len() as int),
    }
}

/// `all_as_tree` turns each ruleset into its nested form, in place.
proof fn lemma_all_as_tree_len(rulesets: Seq<FlatRulesetView>, n: int)
    requires
        0 <= n <= rulesets.len(),
    ensures
        all_as_tree(rulesets, n).len() == n,
        forall|i: int| 0 <= i < n ==> all_as_tree(rulesets, n)[i] == as_tree(rulesets[i]),
    decreases n,
{
    if n > 0 {
        lemma_all_as_tree_len(rulesets, n - 1);
    }
}

/// A body of rules alone is gathered whole: nothing is put out on the way.
proof fn lemma_walk_of_rules(selector: Seq<SelectorPathView>, rules: Seq<RuleView>, n: int)
    requires
        0 <= n <= rules.len(),
    ensures
        selector_walk(selector, rules_as_items(rules), n) == (
            Seq::<FlatRulesetView>::empty(),
            rules.take(n),
        ),
        qual_walk(rules_as_items(rules), n) == (rules.take(n), Seq::<FlatRulesetView>::empty()),
    decreases n,
{
    if n > 0 {
        lemma_walk_of_rules(selector, rules, n - 1);
        assert(rules.take(n - 1).push(rules[n - 1]) =~= rules.take(n));
    } else {
        assert(rules.take(0) =~= Seq::<RuleView>::empty());
    }
}

/// Settled rulesets, taken as nested ones, flatten to themselves.
proof fn lemma_flattened_all_of_settled(rulesets: Seq<FlatRulesetView>, n: int)
    requires
        0 <= n <= rulesets.len(),
        all_settled(rulesets, n),
    ensures
        flattened_all(all_as_tree(rulesets, rulesets.len() as int), n) == rulesets.take(n),
    decreases rulesets, n,
{
    lemma_all_as_tree_len(rulesets, rulesets.len() as int);
    if n > 0 {
        lemma_flattened_all_of_settled(rulesets, n - 1);
        lemma_flatten_of_flat(rulesets[n - 1]);
        assert(rulesets.take(n - 1) + seq![rulesets[n - 1]] =~= rulesets.take(n));
    } else {
        assert(rulesets.take(0) =~= Seq::<FlatRulesetView>::empty());
    }
}

/// Flattening a ruleset that is flat already gives that ruleset and nothing
/// else.
pub proof fn lemma_flatten_of_flat(ruleset: FlatRulesetView)
    requires
        settled(ruleset),
    ensures
        flattened(as_tree(ruleset)) == seq![ruleset],
    decreases ruleset, 0int,
{
    match ruleset {
        FlatRulesetView::SelectorRuleset(selector, rules) => {
            lemma_walk_of_rules(selector, rules, rules.len() as int);
            assert(rules.take(rules.len() as int) =~= rules);
            assert(Seq::<FlatRulesetView>::empty() + flushed(selector, rules) =~= seq![ruleset]);
        },
        FlatRulesetView::QualRule(rule) => {},
        FlatRulesetView::QualRuleset(rule, rules) => {
            lemma_walk_of_rules(seq![], rules, rules.len() as int);
            assert(rules.take(rules.len() as int) =~= rules);
            assert(qual_parts(rule, rules, seq![]) =~= seq![ruleset]);
        },
        FlatRulesetView::QualNestedRuleset(rule, body) => {
            lemma_all_as_tree_len(body, body.len() as int);
            lemma_flattened_all_of_settled(body, body.len() as int);
            assert(body.take(body.len() as int) =~= body);
        },
    }
}

/// Flattening a stylesheet that is flat already gives that stylesheet.
pub proof fn lemma_flatten_of_flat_stylesheet(css: Seq<FlatRulesetView>)
    requires
        all_settled(css, css.len() as int),
    ensures
        flattened_all(all_as_tree(css, css.len() as int), css.len() as int) == css,
{
    lemma_all_as_tree_len(css, css.len() as int);
    lemma_flattened_all_of_settled(css, css.len() as int);
    assert(css.take(css.len() as int) =~= css);
}

/// Rulesets are all settled where each of them is.
proof fn lemma_all_settled_index(rulesets: Seq<FlatRulesetView>, n: int)
    requires
        0 <= n <= rulesets.len(),
    ensures
        all_settled(rulesets, n) <==> forall|i: int| 0 <= i < n ==> settled(#[trigger] rulesets[i]),
    decreases n,
{
    if n > 0 {
        lemma_all_settled_index(rulesets, n - 1);
    }
}

/// Whether each of the rulesets is settled.
spec fn each_settled(rulesets: Seq<FlatRulesetView>) -> bool {
    forall|i: int| 0 <= i < rulesets.len() ==> settled(#[trigger] rulesets[i])
}

/// Settled rulesets after settled rulesets are settled rulesets.
proof fn lemma_each_settled_concat(a: Seq<FlatRulesetView>, b: Seq<FlatRulesetView>)
    requires
        each_settled(a),
        each_settled(b),
    ensures
        each_settled(a + b),
{
    assert forall|i: int| 0 <= i < (a + b).len() implies settled(#[trigger] (a + b)[i]) by {
        if i < a.len() {
            assert((a + b)[i] == a[i]);
        } else {
            assert((a + b)[i] == b[i - a.len()]);
        }
    }
}

/// Joining to a selector keeps rulesets settled.
proof fn lemma_each_settled_joined(selector: Seq<SelectorPathView>, flat: Seq<FlatRulesetView>)
    requires
        each_settled(flat),
    ensures
        each_settled(joined_rulesets(selector, flat)),
{
    let joined = joined_rulesets(selector, flat);
    assert forall|i: int| 0 <= i < joined.len() implies settled(#[trigger] joined[i]) by {
        assert(settled(flat[i]));
        assert(joined[i] == joined_ruleset(selector, flat[i]));
    }
}

/// The walk through the body of a ruleset with a selector puts out settled
/// rulesets only.
proof fn lemma_selector_walk_settled(
    selector: Seq<SelectorPathView>,
    body: Seq<TreeRuleView>,
    n: int,
)
    requires
        0 <= n <= body.len(),
    ensures
        each_settled(selector_walk(selector, body, n).0),
    decreases body, n,
{
    if n > 0 {
        lemma_selector_walk_settled(selector, body, n - 1);
        let (out, group) = selector_walk(selector, body, n - 1);
        match body[n - 1] {
            TreeRuleView::Rule(rule) => {
                assert(selector_walk(selector, body, n).0 == out);
            },
            TreeRuleView::Ruleset(inner) => {
                lemma_flattened_settled(inner);
                let flat = flattened(inner);
                lemma_all_settled_index(flat, flat.len() as int);
                lemma_each_settled_joined(selector, flat);
                assert(each_settled(flushed(selector, group)));
                lemma_each_settled_concat(out, flushed(selector, group));
                lemma_each_settled_concat(
                    out + flushed(selector, group),
                    joined_rulesets(selector, flat),
                );
                assert(selector_walk(selector, body, n).0 == out + flushed(selector, group)
                    + joined_rulesets(selector, flat));
            },
        }
    }
}

/// The walk through the body of an at-rule gathers settled rulesets only.
proof fn lemma_qual_walk_settled(body: Seq<TreeRuleView>, n: int)
    requires
        0 <= n <= body.len(),
    ensures
        each_settled(qual_walk(body, n).1),
    decreases body, n,
{
    if n > 0 {
        lemma_qual_walk_settled(body, n - 1);
        let (rules, nested) = qual_walk(body, n - 1);
        match body[n - 1] {
            TreeRuleView::Rule(rule) => {
                assert(qual_walk(body, n).1 == nested);
            },
            TreeRuleView::Ruleset(inner) => {
                lemma_flattened_settled(inner);
                let flat = flattened(inner);
                lemma_all_settled_index(flat, flat.len() as int);
                lemma_each_settled_concat(nested, flat);
                assert(qual_walk(body, n).1 == nested + flat);
            },
        }
    }
}

/// The flattenings of several rulesets are settled.
proof fn lemma_flattened_all_settled(rulesets: Seq<TreeRulesetView>, n: int)
    requires
        0 <= n <= rulesets.len(),
    ensures
        all_settled(flattened_all(rulesets, n), flattened_all(rulesets, n).len() as int),
    decreases rulesets, n,
{
    let flat = flattened_all(rulesets, n);
    lemma_all_settled_index(flat, flat.len() as int);
    if n > 0 {
        lemma_flattened_all_settled(rulesets, n - 1);
        lemma_flattened_settled(rulesets[n - 1]);
        let before = flattened_all(rulesets, n - 1);
        let last = flattened(rulesets[n - 1]);
        lemma_all_settled_index(before, before.len() as int);
        lemma_all_settled_index(last, last.len() as int);
        lemma_each_settled_concat(before, last);
    }
}

/// What flattening puts out is settled: it holds no empty body of rules.
pub proof fn lemma_flattened_settled(ruleset: TreeRulesetView)
    ensures
        all_settled(flattened(ruleset), flattened(ruleset).len() as int),
    decreases ruleset, 0int,
{
    let flat = flattened(ruleset);
    lemma_all_settled_index(flat, flat.len() as int);
    match ruleset {
        TreeRulesetView::SelectorRuleset(selector, body) => {
            lemma_selector_walk_settled(selector, body, body.len() as int);
            let (out, group) = selector_walk(selector, body, body.len() as int);
            assert(each_settled(flushed(selector, group)));
            lemma_each_settled_concat(out, flushed(selector, group));
        },
        TreeRulesetView::QualRule(rule) => {},
        TreeRulesetView::QualRuleset(rule, body) => {
            lemma_qual_walk_settled(body, body.len() as int);
            let (rules, nested) = qual_walk(body, body.len() as int);
            lemma_all_settled_index(nested, nested.len() as int);
            let first = if rules.len() > 0 {
                seq![FlatRulesetView::QualRuleset(rule, rules)]
            } else {
                seq![]
            };
            let second = if nested.len() > 0 {
                seq![FlatRulesetView::QualNestedRuleset(rule, nested)]
            } else {
                seq![]
            };
            assert(each_settled(first));
            assert(each_settled(second));
            lemma_each_settled_concat(first, second);
        },
        TreeRulesetView::QualNestedRuleset(rule, body) => {
            lemma_flattened_all_settled(body, body.len() as int);
        },
    }
}

/// Flattening is idempotent: a stylesheet that flattening has put out is
/// flat, and flattening it once more gives it back unchanged.
pub proof fn lemma_flatten_idempotent(tree: Seq<TreeRulesetView>)
    ensures
        ({
            let css = flattened_all(tree, tree.len() as int);
            flattened_all(all_as_tree(css, css.len() as int), css.len() as int) == css
        }),
{
    lemma_flattened_all_settled(tree, tree.len() as int);
    lemma_flatten_of_flat_stylesheet(flattened_all(tree, tree.len() as int));
}

/// The text of rules is the same whether they stand in a flat ruleset or, as
/// items, in a nested one.
proof fn lemma_rules_text_as_items(rules: Seq<RuleView>, n: int)
    requires
        0 <= n <= rules.len(),
    ensures
        tree_rules_text(rules_as_items(rules), n) == rules_text(rules, n),
    decreases n,
{
    if n > 0 {
        lemma_rules_text_as_items(rules, n - 1);
        assert(rules_as_items(rules)[n - 1] == TreeRuleView::Rule(rules[n - 1]));
        assert(tree_rule_text(rules_as_items(rules)[n - 1]) == rule_text(rules[n - 1]));
    }
}

/// The text of flat rulesets is the text of their nested forms.
proof fn lemma_flats_text_as_tree(rulesets: Seq<FlatRulesetView>, n: int)
    requires
        0 <= n <= rulesets.len(),
    ensures
        tree_rulesets_text(all_as_tree(rulesets, rulesets.len() as int), n) == flat_rulesets_text(
            rulesets,
            n,
        ),
    decreases rulesets, n,
{
    lemma_all_as_tree_len(rulesets, rulesets.len() as int);
    if n > 0 {
        lemma_flats_text_as_tree(rulesets, n - 1);
        lemma_flat_text_as_tree(rulesets[n - 1]);
    }
}

/// A flat ruleset is written as its nested form is.
pub proof fn lemma_flat_text_as_tree(ruleset: FlatRulesetView)
    ensures
        tree_ruleset_text(as_tree(ruleset)) == flat_ruleset_text(ruleset),
    decreases ruleset, 0int,
{
    match ruleset {
        FlatRulesetView::SelectorRuleset(selector, rules) => {
            lemma_rules_text_as_items(rules, rules.len() as int);
        },
        FlatRulesetView::QualRule(rule) => {},
        FlatRulesetView::QualRuleset(rule, rules) => {
            lemma_rules_text_as_items(rules, rules.len() as int);
        },
        FlatRulesetView::QualNestedRuleset(rule, body) => {
            lemma_all_as_tree_len(body, body.len() as int);
            lemma_flats_text_as_tree(body, body.len() as int);
        },
    }
}

/// A flat stylesheet is written as its nested form is: the text alone does
/// not tell the two apart.
pub proof fn lemma_css_text_as_tree(css: Seq<FlatRulesetView>)
    ensures
        ({
            let tree = all_as_tree(css, css.len() as int);
            tree_rulesets_text(tree, tree.len() as int) == flat_rulesets_text(
                css,
                css.len() as int,
            )
        }),
{
    lemma_all_as_tree_len(css, css.len() as int);
    lemma_flats_text_as_tree(css, css.len() as int);
}

/// Flattening is idempotent over text too, as far as the text of what
/// flattening has put out is read back as the stylesheet it was written
/// from: flattening what was read then gives the same text once more.
pub proof fn lemma_flatten_text_idempotent(
    tree: Seq<TreeRulesetView>,
    read_back: Seq<TreeRulesetView>,
)
    requires
        read_back == ({
            let css = flattened_all(tree, tree.len() as int);
            all_as_tree(css, css.len() as int)
        }),
    ensures
        ({
            let css = flattened_all(tree, tree.len() as int);
            let again = flattened_all(read_back, read_back.len() as int);
            &&& tree_rulesets_text(read_back, read_back.len() as int) == flat_rulesets_text(
                css,
                css.len() as int,
            )
            &&& flat_rulesets_text(again, again.len() as int) == flat_rulesets_text(
                css,
                css.len() as int,
            )
        }),
{
    let css = flattened_all(tree, tree.len() as int);
    lemma_flatten_idempotent(tree);
    lemma_css_text_as_tree(css);
    lemma_all_as_tree_len(css, css.len() as int);
}


// ---------------------------------------------------------------------------
// The order of the rules
// ---------------------------------------------------------------------------
/// The rules of an item of a body, in the order they are written in.
pub open spec fn item_declarations(item: TreeRuleView) -> Seq<RuleView>
    decreases item, 0int,
{
    match item {
        TreeRuleView::Rule(rule) => seq![rule],
        TreeRuleView::Ruleset(ruleset) => tree_declarations(ruleset),
    }
}

/// The rules of the first `n` items of a body, in the order they are written
/// in.
pub open spec fn body_declarations(body: Seq<TreeRuleView>, n: int) -> Seq<RuleView>
    decreases body, n,
{
    if 0 < n <= body.len() {
        body_declarations(body, n - 1) + item_declarations(body[n - 1])
    } else {
        seq![]
    }
}

/// The rules of the first `n` nested rulesets, in the order they are written
/// in.
pub open spec fn trees_declarations(rulesets: Seq<TreeRulesetView>, n: int) -> Seq<RuleView>
    decreases rulesets, n,
{
    if 0 < n <= rulesets.len() {
        trees_declarations(rulesets, n - 1) + tree_declarations(rulesets[n - 1])
    } else {
        seq![]
    }
}

/// The rules of a nested ruleset, at any depth, in the order they are
/// written in.
pub open spec fn tree_declarations(ruleset: TreeRulesetView) -> Seq<RuleView>
    decreases ruleset, 0int,
{
    match ruleset {
        TreeRulesetView::SelectorRuleset(_, body) => body_declarations(body, body.len() as int),
        TreeRulesetView::QualRule(_) => seq![],
        TreeRulesetView::QualRuleset(_, body) => body_declarations(body, body.len() as int),
        TreeRulesetView::QualNestedRuleset(_, body) => trees_declarations(body, body.len() as int),
    }
}

/// The rules of the first `n` flat rulesets, in order.
pub open spec fn flats_declarations(rulesets: Seq<FlatRulesetView>, n: int) -> Seq<RuleView>
    decreases rulesets, n,
{
    if 0 < n <= rulesets.len() {
        flats_declarations(rulesets, n - 1) + flat_declarations(rulesets[n - 1])
    } else {
        seq![]
    }
}

/// The rules of a flat ruleset, in order.
pub open spec fn flat_declarations(ruleset: FlatRulesetView) -> Seq<RuleView>
    decreases ruleset, 0int,
{
    match ruleset {
        FlatRulesetView::SelectorRuleset(_, rules) => rules,
        FlatRulesetView::QualRule(_) => seq![],
        FlatRulesetView::QualRuleset(_, rules) => rules,
        FlatRulesetView::QualNestedRuleset(_, body) => flats_declarations(body, body.len() as int),
    }
}

/// Whether among the first `n` items of a body every rule stands before
/// every ruleset.
pub open spec fn rules_lead(body: Seq<TreeRuleView>, n: int) -> bool {
    forall|i: int, j: int| 0 <= i < j < n && j < body.len() && body[j] is Rule ==> body[i] is Rule
}

/// Whether the rulesets among the first `n` items of a body are all orderly.
pub open spec fn body_orderly(body: Seq<TreeRuleView>, n: int) -> bool
    decreases body, n,
{
    if 0 < n <= body.len() {
        body_orderly(body, n - 1) && match body[n - 1] {
            TreeRuleView::Rule(_) => true,
            TreeRuleView::Ruleset(inner) => orderly(inner),
        }
    } else {
        true
    }
}

/// Whether the first `n` rulesets are all orderly.
pub open spec fn trees_orderly(rulesets: Seq<TreeRulesetView>, n: int) -> bool
    decreases rulesets, n,
{
    if 0 < n <= rulesets.len() {
        trees_orderly(rulesets, n - 1) && orderly(rulesets[n - 1])
    } else {
        true
    }
}

/// Whether no at-rule in the ruleset, at any depth, has a rule in its body
/// after a ruleset. Flattening puts the rules of the body of an at-rule
/// before its rulesets; in an orderly ruleset they stand so already.
pub open spec fn orderly(ruleset: TreeRulesetView) -> bool
    decreases ruleset, 0int,
{
    match ruleset {
        TreeRulesetView::SelectorRuleset(_, body) => body_orderly(body, body.len() as int),
        TreeRulesetView::QualRule(_) => true,
        TreeRulesetView::QualRuleset(_, body) => rules_lead(body, body.len() as int)
            && body_orderly(body, body.len() as int),
        TreeRulesetView::QualNestedRuleset(_, body) => trees_orderly(body, body.len() as int),
    }
}

/// The rules of the first `n` rulesets are those of the first `n - 1` and
/// then those of the last.
proof fn lemma_flats_declarations_unfold(rulesets: Seq<FlatRulesetView>, n: int)
    ensures
        0 < n <= rulesets.len() ==> flats_declarations(rulesets, n) == flats_declarations(
            rulesets,
            n - 1,
        ) + flat_declarations(rulesets[n - 1]),
        !(0 < n <= rulesets.len()) ==> flats_declarations(rulesets, n) == Seq::<RuleView>::empty(),
{
}

/// The rules of one ruleset alone.
proof fn lemma_flats_declarations_one(ruleset: FlatRulesetView)
    ensures
        flats_declarations(seq![ruleset], 1) == flat_declarations(ruleset),
{
    let one = seq![ruleset];
    lemma_flats_declarations_unfold(one, 1);
    lemma_flats_declarations_unfold(one, 0);
    assert(one[0] == ruleset);
    assert(Seq::<RuleView>::empty() + flat_declarations(ruleset) =~= flat_declarations(ruleset));
}

/// Joining to a selector leaves the rules of a ruleset as they are.
proof fn lemma_flat_declarations_joined(selector: Seq<SelectorPathView>, ruleset: FlatRulesetView)
    ensures
        flat_declarations(joined_ruleset(selector, ruleset)) == flat_declarations(ruleset),
{
    match ruleset {
        FlatRulesetView::SelectorRuleset(inner, rules) => {
            assert(joined_ruleset(selector, ruleset) == FlatRulesetView::SelectorRuleset(
                selector_join(selector, inner),
                rules,
            ));
            assert(flat_declarations(ruleset) == rules);
            assert(flat_declarations(joined_ruleset(selector, ruleset)) == rules);
        },
        FlatRulesetView::QualRule(_) => {},
        FlatRulesetView::QualRuleset(_, _) => {},
        FlatRulesetView::QualNestedRuleset(_, _) => {},
    }
}

/// The rules of the first `n` rulesets depend on these rulesets alone.
proof fn lemma_flats_declarations_prefix(a: Seq<FlatRulesetView>, b: Seq<FlatRulesetView>, n: int)
    requires
        0 <= n <= a.len(),
        n <= b.len(),
        forall|i: int| 0 <= i < n ==> a[i] == b[i],
    ensures
        flats_declarations(a, n) == flats_declarations(b, n),
    decreases n,
{
    lemma_flats_declarations_unfold(a, n);
    lemma_flats_declarations_unfold(b, n);
    if n > 0 {
        lemma_flats_declarations_prefix(a, b, n - 1);
    }
}

/// The rules of rulesets put one after the other are their rules put one
/// after the other.
proof fn lemma_flats_declarations_concat(a: Seq<FlatRulesetView>, b: Seq<FlatRulesetView>, n: int)
    requires
        0 <= n <= b.len(),
    ensures
        flats_declarations(a + b, a.len() + n) == flats_declarations(a, a.len() as int)
            + flats_declarations(b, n),
    decreases n,
{
    lemma_flats_declarations_unfold(a + b, a.len() + n);
    lemma_flats_declarations_unfold(b, n);
    if n > 0 {
        lemma_flats_declarations_concat(a, b, n - 1);
        assert((a + b)[a.len() + n - 1] == b[n - 1]);
        assert(flats_declarations(a + b, a.len() + n) == flats_declarations(a + b, a.len() + n - 1)
            + flat_declarations(b[n - 1]));
        assert(flats_declarations(a, a.len() as int) + flats_declarations(b, n - 1)
            + flat_declarations(b[n - 1]) =~= flats_declarations(a, a.len() as int) + (
        flats_declarations(b, n - 1) + flat_declarations(b[n - 1])));
    } else {
        lemma_flats_declarations_prefix(a + b, a, a.len() as int);
        assert(flats_declarations(a, a.len() as int) + Seq::<RuleView>::empty()
            =~= flats_declarations(a, a.len() as int));
    }
}

/// Joining to a selector leaves the rules of rulesets as they are.
proof fn lemma_flats_declarations_joined(
    selector: Seq<SelectorPathView>,
    flat: Seq<FlatRulesetView>,
    n: int,
)
    requires
        0 <= n <= flat.len(),
    ensures
        flats_declarations(joined_rulesets(selector, flat), n) == flats_declarations(flat, n),
    decreases n,
{
    lemma_flats_declarations_unfold(joined_rulesets(selector, flat), n);
    lemma_flats_declarations_unfold(flat, n);
    if n > 0 {
        lemma_flats_declarations_joined(selector, flat, n - 1);
        assert(joined_rulesets(selector, flat)[n - 1] == joined_ruleset(selector, flat[n - 1]));
        lemma_flat_declarations_joined(selector, flat[n - 1]);
    }
}

/// The rules of what is put out for gathered rules are the gathered rules.
proof fn lemma_flats_declarations_flushed(selector: Seq<SelectorPathView>, group: Seq<RuleView>)
    ensures
        flats_declarations(flushed(selector, group), flushed(selector, group).len() as int)
            == group,
{
    if group.len() > 0 {
        lemma_flats_declarations_one(FlatRulesetView::SelectorRuleset(selector, group));
    } else {
        lemma_flats_declarations_unfold(flushed(selector, group), 0);
        assert(group =~= Seq::<RuleView>::empty());
    }
}

/// The walk through the body of a ruleset with a selector keeps the rules
/// in order: those put out and then those gathered are those of the items
/// gone through.
proof fn lemma_selector_walk_order(selector: Seq<SelectorPathView>, body: Seq<TreeRuleView>, n: int)
    requires
        0 <= n <= body.len(),
        body_orderly(body, n),
    ensures
        ({
            let (out, group) = selector_walk(selector, body, n);
            flats_declarations(out, out.len() as int) + group == body_declarations(body, n)
        }),
    decreases body, n,
{
    if n > 0 {
        lemma_selector_walk_order(selector, body, n - 1);
        let (out, group) = selector_walk(selector, body, n - 1);
        let before = flats_declarations(out, out.len() as int);
        assert(before + group == body_declarations(body, n - 1));
        assert(body_declarations(body, n) == body_declarations(body, n - 1) + item_declarations(
            body[n - 1],
        ));
        match body[n - 1] {
            TreeRuleView::Rule(rule) => {
                assert(selector_walk(selector, body, n) == (out, group.push(rule)));
                assert(item_declarations(body[n - 1]) == seq![rule]);
                assert(before + group.push(rule) =~= (before + group) + seq![rule]);
            },
            TreeRuleView::Ruleset(inner) => {
                assert(orderly(inner));
                lemma_flatten_keeps_order(inner);
                let flat = flattened(inner);
                let joined = joined_rulesets(selector, flat);
                let flush = flushed(selector, group);
                lemma_flats_declarations_flushed(selector, group);
                lemma_flats_declarations_concat(out, flush, flush.len() as int);
                lemma_flats_declarations_joined(selector, flat, flat.len() as int);
                lemma_flats_declarations_concat(out + flush, joined, joined.len() as int);
                let next = out + flush + joined;
                assert(selector_walk(selector, body, n) == (next, Seq::<RuleView>::empty()));
                assert(item_declarations(body[n - 1]) == tree_declarations(inner));
                assert(flats_declarations(next, next.len() as int) == before + group
                    + tree_declarations(inner));
                assert(flats_declarations(next, next.len() as int) + Seq::<RuleView>::empty()
                    =~= flats_declarations(next, next.len() as int));
            },
        }
    } else {
        lemma_flats_declarations_unfold(Seq::<FlatRulesetView>::empty(), 0);
        assert(Seq::<RuleView>::empty() + Seq::<RuleView>::empty() =~= Seq::<RuleView>::empty());
    }
}

/// As long as the walk through the body of an at-rule meets rules only, it
/// gathers no ruleset.
proof fn lemma_qual_walk_of_rules(body: Seq<TreeRuleView>, n: int)
    requires
        0 <= n <= body.len(),
        forall|i: int| 0 <= i < n ==> body[i] is Rule,
    ensures
        qual_walk(body, n).1 == Seq::<FlatRulesetView>::empty(),
    decreases n,
{
    if n > 0 {
        lemma_qual_walk_of_rules(body, n - 1);
    }
}

/// The walk through the body of an at-rule whose rules stand first keeps
/// the rules in order.
proof fn lemma_qual_walk_order(body: Seq<TreeRuleView>, n: int)
    requires
        0 <= n <= body.len(),
        body_orderly(body, n),
        rules_lead(body, n),
    ensures
        ({
            let (rules, nested) = qual_walk(body, n);
            rules + flats_declarations(nested, nested.len() as int) == body_declarations(body, n)
        }),
    decreases body, n,
{
    if n > 0 {
        assert(rules_lead(body, n - 1));
        lemma_qual_walk_order(body, n - 1);
        let (rules, nested) = qual_walk(body, n - 1);
        let inner_rules = flats_declarations(nested, nested.len() as int);
        assert(rules + inner_rules == body_declarations(body, n - 1));
        assert(body_declarations(body, n) == body_declarations(body, n - 1) + item_declarations(
            body[n - 1],
        ));
        match body[n - 1] {
            TreeRuleView::Rule(rule) => {
                assert forall|i: int| 0 <= i < n - 1 implies body[i] is Rule by {
                    assert(body[n - 1] is Rule);
                }
                lemma_qual_walk_of_rules(body, n - 1);
                lemma_flats_declarations_unfold(nested, 0);
                assert(inner_rules =~= Seq::<RuleView>::empty());
                assert(qual_walk(body, n) == (rules.push(rule), nested));
                assert(item_declarations(body[n - 1]) == seq![rule]);
                assert(rules.push(rule) + inner_rules =~= (rules + inner_rules) + seq![rule]);
            },
            TreeRuleView::Ruleset(inner) => {
                assert(orderly(inner));
                lemma_flatten_keeps_order(inner);
                let flat = flattened(inner);
                lemma_flats_declarations_concat(nested, flat, flat.len() as int);
                assert(qual_walk(body, n) == (rules, nested + flat));
                assert(item_declarations(body[n - 1]) == tree_declarations(inner));
                assert(rules + (inner_rules + tree_declarations(inner)) =~= (rules + inner_rules)
                    + tree_declarations(inner));
            },
        }
    } else {
        lemma_flats_declarations_unfold(Seq::<FlatRulesetView>::empty(), 0);
        assert(Seq::<RuleView>::empty() + Seq::<RuleView>::empty() =~= Seq::<RuleView>::empty());
    }
}

/// Flattening several orderly rulesets keeps their rules in order.
proof fn lemma_flattened_all_order(rulesets: Seq<TreeRulesetView>, n: int)
    requires
        0 <= n <= rulesets.len(),
        trees_orderly(rulesets, n),
    ensures
        flats_declarations(flattened_all(rulesets, n), flattened_all(rulesets, n).len() as int)
            == trees_declarations(rulesets, n),
    decreases rulesets, n,
{
    if n > 0 {
        lemma_flattened_all_order(rulesets, n - 1);
        lemma_flatten_keeps_order(rulesets[n - 1]);
        let last = flattened(rulesets[n - 1]);
        lemma_flats_declarations_concat(flattened_all(rulesets, n - 1), last, last.len() as int);
    }
}

/// Flattening keeps the rules in the order they are written in: read one
/// after the other, the rules of the flat rulesets are the rules of the
/// nested ruleset. Rules and nested rulesets that alternate in the body of a
/// ruleset with a selector are not moved past one another.
pub proof fn lemma_flatten_keeps_order(ruleset: TreeRulesetView)
    requires
        orderly(ruleset),
    ensures
        flats_declarations(flattened(ruleset), flattened(ruleset).len() as int)
            == tree_declarations(ruleset),
    decreases ruleset, 0int,
{
    let flat = flattened(ruleset);
    match ruleset {
        TreeRulesetView::SelectorRuleset(selector, body) => {
            lemma_selector_walk_order(selector, body, body.len() as int);
            let (out, group) = selector_walk(selector, body, body.len() as int);
            let flush = flushed(selector, group);
            lemma_flats_declarations_flushed(selector, group);
            lemma_flats_declarations_concat(out, flush, flush.len() as int);
        },
        TreeRulesetView::QualRule(rule) => {
            lemma_flats_declarations_one(FlatRulesetView::QualRule(rule));
        },
        TreeRulesetView::QualRuleset(rule, body) => {
            lemma_qual_walk_order(body, body.len() as int);
            let (rules, nested) = qual_walk(body, body.len() as int);
            let first = if rules.len() > 0 {
                seq![FlatRulesetView::QualRuleset(rule, rules)]
            } else {
                seq![]
            };
            let second = if nested.len() > 0 {
                seq![FlatRulesetView::QualNestedRuleset(rule, nested)]
            } else {
                seq![]
            };
            assert(flats_declarations(first, first.len() as int) =~= rules) by {
                if rules.len() > 0 {
                    lemma_flats_declarations_one(FlatRulesetView::QualRuleset(rule, rules));
                } else {
                    lemma_flats_declarations_unfold(first, 0);
                }
            }
            assert(flats_declarations(second, second.len() as int) =~= flats_declarations(
                nested,
                nested.len() as int,
            )) by {
                if nested.len() > 0 {
                    lemma_flats_declarations_one(FlatRulesetView::QualNestedRuleset(rule, nested));
                } else {
                    lemma_flats_declarations_unfold(second, 0);
                    lemma_flats_declarations_unfold(nested, 0);
                }
            }
            lemma_flats_declarations_concat(first, second, second.len() as int);
            assert(flat == first + second);
        },
        TreeRulesetView::QualNestedRuleset(rule, body) => {
            lemma_flattened_all_order(body, body.len() as int);
            lemma_flats_declarations_one(
                FlatRulesetView::QualNestedRuleset(rule, flattened_all(body, body.len() as int)),
            );
        },
    }
}

/// Flattening a stylesheet keeps its rules in the order they are written in.
pub proof fn lemma_flatten_tree_keeps_order(tree: Seq<TreeRulesetView>)
    requires
        trees_orderly(tree, tree.len() as int),
    ensures
        ({
            let css = flattened_all(tree, tree.len() as int);
            flats_declarations(css, css.len() as int) == trees_declarations(tree, tree.len() as int)
        }),
{
    lemma_flattened_all_order(tree, tree.len() as int);
}

} // verus!
