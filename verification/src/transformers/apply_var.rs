//! Variables: `@name: value;` at the top level binds, `@name` in the value
//! of a rule refers.

use vstd::prelude::*;
use vstd::string::StringExecFns;
use crate::ast::ruleset::rule::{Rule, RuleView};
use crate::ast::ruleset::{trimmed_end, QualRule};
use crate::ast::token::chars::{run_end, scan, CharClass};
use crate::ast::token::symbol::{lemma_symbol_end, symbol_at, symbol_end};
use crate::ast::tree_ruleset::{clone_rulesets, TreeRuleset, TreeRulesetView};
use crate::ast::Tree;
use crate::text::{chars_of, push_range, substring};
use crate::transform::{rule_fn, trees_mapped, TransformCss};

verus! {

/// What the ruleset binds, where it is a binding: an at-rule without a body
/// whose value begins with `:`. The name is that of the at-rule; the bound
/// text is what follows the `:`, without the space characters round it.
pub open spec fn binding_of(ruleset: TreeRulesetView) -> Option<(Seq<char>, Seq<char>)> {
    match ruleset {
        TreeRulesetView::QualRule(rule) => match rule.value {
            Some(value) => if value.len() > 0 && value[0] == ':' {
                let start = run_end(value, 1, CharClass::Space);
                let end = trimmed_end(value, start, value.len() as int);
                Some((rule.name, value.subrange(start, end)))
            } else {
                None
            },
            None => None,
        },
        _ => None,
    }
}

/// What the first `n` rulesets of `tree` bind to `name`; of several bindings
/// the last one counts.
pub open spec fn bound_value(tree: Seq<TreeRulesetView>, n: int, name: Seq<char>) -> Option<
    Seq<char>,
>
    decreases n,
{
    if 0 < n <= tree.len() {
        match binding_of(tree[n - 1]) {
            Some((bound, text)) => if bound == name {
                Some(text)
            } else {
                bound_value(tree, n - 1, name)
            },
            None => bound_value(tree, n - 1, name),
        }
    } else {
        None
    }
}

/// The value `value` from `pos` on, appended to `out`, with each `@` and the
/// symbol after it replaced by what `tree` binds to the symbol. A symbol that
/// nothing is bound to stays as it is written.
pub open spec fn substituted_from(
    tree: Seq<TreeRulesetView>,
    value: Seq<char>,
    pos: int,
    out: Seq<char>,
) -> Seq<char>
    decreases value.len() - pos,
{
    if 0 <= pos < value.len() {
        if value[pos] == '@' {
            match symbol_end(value, pos + 1) {
                Some(end) => {
                    proof {
                        lemma_symbol_end(value, pos + 1);
                    }
                    match bound_value(tree, tree.len() as int, value.subrange(pos + 1, end)) {
                        Some(text) => substituted_from(tree, value, end, out + text),
                        None => substituted_from(tree, value, end, out + value.subrange(pos, end)),
                    }
                },
                None => substituted_from(tree, value, pos + 1, out.push('@')),
            }
        } else {
            substituted_from(tree, value, pos + 1, out.push(value[pos]))
        }
    } else {
        out
    }
}

/// The rule with the variables in its value replaced.
pub open spec fn rule_with_vars(tree: Seq<TreeRulesetView>, rule: RuleView) -> RuleView {
    RuleView { property: rule.property, value: substituted_from(tree, rule.value, 0, seq![]) }
}

/// What replacing the variables that `tree` binds makes of a rule.
pub open spec fn substitution(tree: Seq<TreeRulesetView>) -> spec_fn(RuleView) -> RuleView {
    |rule: RuleView| rule_with_vars(tree, rule)
}

/// Of the first `n` rulesets of `tree`, those that are no bindings.
pub open spec fn without_bindings(tree: Seq<TreeRulesetView>, n: int) -> Seq<TreeRulesetView>
    decreases n,
{
    if 0 < n <= tree.len() {
        if binding_of(tree[n - 1]) is Some {
            without_bindings(tree, n - 1)
        } else {
            without_bindings(tree, n - 1).push(tree[n - 1])
        }
    } else {
        seq![]
    }
}

/// The stylesheet `tree` with the variables replaced in every rule, at any
/// depth, by what the bindings at its top level give them, and without those
/// bindings.
pub open spec fn vars_applied(tree: Seq<TreeRulesetView>) -> Seq<TreeRulesetView> {
    let replaced = trees_mapped(substitution(tree), tree, tree.len() as int);
    without_bindings(replaced, replaced.len() as int)
}

/// What the ruleset binds, where it is a binding.
fn binding_in(ruleset: &TreeRuleset) -> (r: Option<(&String, String)>)
    ensures
        r matches Some((name, text)) ==> binding_of(ruleset@) == Some((name@, text@)),
        r is None ==> binding_of(ruleset@) is None,
{
    match ruleset {
        TreeRuleset::QualRule(QualRule(name, Some(value))) => {
            let chars = chars_of(value.as_str());
            if chars.len() > 0 && chars[0] == ':' {
                let start = scan(&chars, 1, CharClass::Space);
                let mut end = chars.len();
                while end > start && CharClass::Space.test(chars[end - 1])
                    invariant
                        start <= end <= chars.len(),
                        trimmed_end(chars@, start as int, chars.len() as int) == trimmed_end(
                            chars@,
                            start as int,
                            end as int,
                        ),
                    decreases end - start,
                {
                    end -= 1;
                }
                Some((name, substring(&chars, start, end)))
            } else {
                None
            }
        },
        _ => None,
    }
}

/// Finds what the rulesets bind to the name `name[from..to]`.
fn find_binding(tree: &Vec<TreeRuleset>, name: &Vec<char>, from: usize, to: usize) -> (r: Option<
    String,
>)
    requires
        from <= to <= name.len(),
    ensures
        r.deep_view() == bound_value(
            tree.deep_view(),
            tree.len() as int,
            name@.subrange(from as int, to as int),
        ),
{
    let wanted = substring(name, from, to);
    let mut n: usize = tree.len();
    while n > 0
        invariant
            n <= tree.len(),
            wanted@ == name@.subrange(from as int, to as int),
            bound_value(tree.deep_view(), tree.len() as int, wanted@) == bound_value(
                tree.deep_view(),
                n as int,
                wanted@,
            ),
        decreases n,
    {
        assert(tree.deep_view()[n - 1] == tree[n - 1]@);
        match binding_in(&tree[n - 1]) {
            Some((bound, text)) => {
                if *bound == wanted {
                    return Some(text);
                }
            },
            None => {},
        }
        n -= 1;
    }
    None
}

/// The value with its variables replaced by what `tree` binds to them.
pub fn substitute(tree: &Vec<TreeRuleset>, value: &String) -> (out: String)
    ensures
        out@ == substituted_from(tree.deep_view(), value@, 0, seq![]),
{
    let chars = chars_of(value.as_str());
    let mut out = String::new();
    let mut pos: usize = 0;
    while pos < chars.len()
        invariant
            pos <= chars.len(),
            chars@ == value@,
            substituted_from(tree.deep_view(), value@, 0, seq![]) == substituted_from(
                tree.deep_view(),
                value@,
                pos as int,
                out@,
            ),
        decreases chars.len() - pos,
    {
        if chars[pos] == '@' {
            match symbol_at(&chars, pos + 1) {
                Some(end) => {
                    match find_binding(tree, &chars, pos + 1, end) {
                        Some(text) => {
                            out.append(text.as_str());
                        },
                        None => {
                            push_range(&mut out, &chars, pos, end);
                        },
                    }
                    pos = end;
                },
                None => {
                    out.push('@');
                    pos += 1;
                },
            }
        } else {
            out.push(chars[pos]);
            pos += 1;
        }
    }
    out
}

/// The rewrite that replaces the variables that its rulesets bind.
pub struct Substitution<'a> {
    pub definitions: &'a Vec<TreeRuleset>,
}

impl<'a> TransformCss<Rule> for Substitution<'a> {
    open spec fn transformed(&self, rule: RuleView) -> RuleView {
        rule_with_vars(self.definitions.deep_view(), rule)
    }

    fn transform(&self, rule: &mut Rule) {
        let value = substitute(self.definitions, &rule.value);
        rule.value = value;
    }
}

/// Replaces each `@name` in the value of a rule by what a binding
/// `@name: value;` at the top level of `tree` gives it, and removes the
/// bindings. A name without a binding stays as it is written.
pub fn apply_var(tree: &mut Tree)
    ensures
        final(tree)@ == vars_applied(old(tree)@),
{
    let definitions = clone_rulesets(&tree.0);
    let f = Substitution { definitions: &definitions };
    assert(rule_fn(&f) =~= substitution(old(tree)@));
    tree.transform_rules(&f);
    let mut items: Vec<TreeRuleset> = Vec::new();
    core::mem::swap(&mut tree.0, &mut items);
    let ghost replaced = items.deep_view();
    let mut kept: Vec<TreeRuleset> = Vec::new();
    let mut i: usize = 0;
    assert(kept.deep_view() =~= seq![]);
    while i < items.len()
        invariant
            i <= items.len(),
            replaced == items.deep_view(),
            kept.deep_view() == without_bindings(replaced, i as int),
        decreases items.len() - i,
    {
        assert(replaced[i as int] == items[i as int]@);
        if binding_in(&items[i]).is_none() {
            let ghost before = kept.deep_view();
            kept.push(items[i].clone());
            assert(kept.deep_view() =~= before.push(replaced[i as int]));
        }
        i += 1;
    }
    tree.0 = kept;
}

} // verus!
