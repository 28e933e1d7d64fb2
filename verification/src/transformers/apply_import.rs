//! Imports: `@import "path";` brings in another stylesheet.

use vstd::prelude::*;
use crate::ast::tree_ruleset::{clone_rulesets, TreeRuleset, TreeRulesetView};
use crate::ast::Tree;
use crate::text::{chars_of, has_at, starts_with, substring, text_is};
use crate::transformers::filter_refs::{filter_refs, refs_upto};

verus! {

/// What an `@import` asks for: a whole stylesheet, or of a stylesheet only
/// what can be referred to.
#[derive(Debug, PartialEq, Eq)]
pub enum ImportTarget {
    /// `@import "path";`
    Whole(String),
    /// `@import url("ref://path");`
    Refs(String),
}

/// What an `ImportTarget` stands for.
pub enum ImportTargetView {
    Whole(Seq<char>),
    Refs(Seq<char>),
}

impl View for ImportTarget {
    type V = ImportTargetView;

    open spec fn view(&self) -> ImportTargetView {
        match self {
            ImportTarget::Whole(path) => ImportTargetView::Whole(path@),
            ImportTarget::Refs(path) => ImportTargetView::Refs(path@),
        }
    }
}

/// What the value of an `@import` asks for: the path between double quotes,
/// or the path between `url("ref://` and `")`.
pub open spec fn import_target(value: Seq<char>) -> Option<ImportTargetView> {
    let open = "url(\"ref://"@;
    let close = "\")"@;
    if value.len() >= 2 && value[0] == '"' && value[value.len() - 1] == '"' {
        Some(ImportTargetView::Whole(value.subrange(1, value.len() - 1)))
    } else if starts_with(value, 0, open) && value.len() >= open.len() + close.len()
        && starts_with(value, value.len() - close.len(), close) {
        Some(ImportTargetView::Refs(value.subrange(open.len() as int, value.len() - close.len())))
    } else {
        None
    }
}

/// The stylesheet that `trees` holds under `path`, looked for from the entry
/// `from` on; the first entry of that path counts.
pub open spec fn found_tree(
    trees: Seq<(Seq<char>, Seq<TreeRulesetView>)>,
    from: int,
    path: Seq<char>,
) -> Option<Seq<TreeRulesetView>>
    decreases trees.len() - from,
{
    if 0 <= from < trees.len() {
        if trees[from].0 == path {
            Some(trees[from].1)
        } else {
            found_tree(trees, from + 1, path)
        }
    } else {
        None
    }
}

/// What stands in the place of the ruleset once the imports are resolved. An
/// `@import` of a path that `trees` holds gives way to the rulesets of that
/// stylesheet: to all of them, or to those that can be referred to. Every
/// other ruleset stays, an `@import` of a path that `trees` does not hold too.
pub open spec fn import_of(
    trees: Seq<(Seq<char>, Seq<TreeRulesetView>)>,
    ruleset: TreeRulesetView,
) -> Seq<TreeRulesetView> {
    match ruleset {
        TreeRulesetView::QualRule(rule) => if rule.name == "import"@ && rule.value is Some {
            match import_target(rule.value->0) {
                Some(ImportTargetView::Whole(path)) => match found_tree(trees, 0, path) {
                    Some(tree) => tree,
                    None => seq![ruleset],
                },
                Some(ImportTargetView::Refs(path)) => match found_tree(trees, 0, path) {
                    Some(tree) => refs_upto(tree, tree.len() as int),
                    None => seq![ruleset],
                },
                None => seq![ruleset],
            }
        } else {
            seq![ruleset]
        },
        _ => seq![ruleset],
    }
}

/// The first `n` rulesets of `tree` with the imports among them resolved.
pub open spec fn imports_applied(
    trees: Seq<(Seq<char>, Seq<TreeRulesetView>)>,
    tree: Seq<TreeRulesetView>,
    n: int,
) -> Seq<TreeRulesetView>
    decreases n,
{
    if 0 < n <= tree.len() {
        imports_applied(trees, tree, n - 1) + import_of(trees, tree[n - 1])
    } else {
        seq![]
    }
}

/// Reads what the value of an `@import` asks for.
pub fn parse_import(value: &String) -> (r: Option<ImportTarget>)
    ensures
        r.deep_view() == import_target(value@),
{
    let chars = chars_of(value.as_str());
    let open = chars_of("url(\"ref://");
    let close = chars_of("\")");
    let n = chars.len();
    if n >= 2 && chars[0] == '"' && chars[n - 1] == '"' {
        Some(ImportTarget::Whole(substring(&chars, 1, n - 1)))
    } else if has_at(&chars, 0, &open) && n - open.len() >= close.len() && has_at(
        &chars,
        n - close.len(),
        &close,
    ) {
        Some(ImportTarget::Refs(substring(&chars, open.len(), n - close.len())))
    } else {
        None
    }
}

impl DeepView for ImportTarget {
    type V = ImportTargetView;

    open spec fn deep_view(&self) -> ImportTargetView {
        self@
    }
}

/// Finds the stylesheet that `trees` holds under `path`.
fn find_tree<'a>(trees: &'a Vec<(String, Tree)>, path: &String) -> (r: Option<&'a Tree>)
    ensures
        r matches Some(tree) ==> found_tree(trees.deep_view(), 0, path@) == Some(tree@),
        r is None ==> found_tree(trees.deep_view(), 0, path@) is None,
{
    let mut i: usize = 0;
    while i < trees.len()
        invariant
            i <= trees.len(),
            found_tree(trees.deep_view(), 0, path@) == found_tree(trees.deep_view(), i as int, path@),
        decreases trees.len() - i,
    {
        assert(trees.deep_view()[i as int] == (trees[i as int].0@, trees[i as int].1@));
        if trees[i].0 == *path {
            return Some(&trees[i].1);
        }
        i += 1;
    }
    None
}

/// The rulesets that stand in the place of `ruleset` once its import is
/// resolved.
fn import_in(trees: &Vec<(String, Tree)>, ruleset: &TreeRuleset) -> (r: Vec<TreeRuleset>)
    ensures
        r.deep_view() == import_of(trees.deep_view(), ruleset@),
{
    let mut alone: Vec<TreeRuleset> = Vec::new();
    alone.push(ruleset.clone());
    assert(alone.deep_view() =~= seq![ruleset@]);
    match ruleset {
        TreeRuleset::QualRule(rule) => {
            if !text_is(&rule.0, "import") {
                return alone;
            }
            let value = match &rule.1 {
                Some(value) => value,
                None => {
                    return alone;
                },
            };
            match parse_import(value) {
                Some(ImportTarget::Whole(path)) => match find_tree(trees, &path) {
                    Some(tree) => clone_rulesets(&tree.0),
                    None => alone,
                },
                Some(ImportTarget::Refs(path)) => match find_tree(trees, &path) {
                    Some(tree) => {
                        let mut refs = tree.clone();
                        filter_refs(&mut refs);
                        refs.0
                    },
                    None => alone,
                },
                None => alone,
            }
        },
        _ => alone,
    }
}

/// Replaces each `@import "path";` at the top level of `tree` by the
/// rulesets of the stylesheet that `trees` holds under that path, and each
/// `@import url("ref://path");` by those of them that are no rulesets with a
/// selector. An import of a path that `trees` does not hold stays.
pub fn apply_import(trees: &Vec<(String, Tree)>, tree: &mut Tree)
    ensures
        final(tree)@ == imports_applied(trees.deep_view(), old(tree)@, old(tree)@.len() as int),
{
    let mut out: Vec<TreeRuleset> = Vec::new();
    let mut i: usize = 0;
    assert(out.deep_view() =~= seq![]);
    while i < tree.0.len()
        invariant
            i <= tree.0.len(),
            *tree == *old(tree),
            out.deep_view() == imports_applied(trees.deep_view(), tree@, i as int),
        decreases tree.0.len() - i,
    {
        assert(tree@[i as int] == tree.0[i as int]@);
        let ghost before = out.deep_view();
        let mut more = import_in(trees, &tree.0[i]);
        let ghost added = more.deep_view();
        out.append(&mut more);
        assert(out.deep_view() =~= before + added);
        i += 1;
    }
    tree.0 = out;
}

} // verus!
