//! The syntax tree of a stylesheet, its grammar and its rendering.

pub mod flat_ruleset;
pub mod flatten;
pub mod ruleset;
pub mod selector;
pub mod token;
pub mod tree_ruleset;

pub use self::flat_ruleset::{FlatRuleset, FlatRulesetView};
pub use self::ruleset::{QualRule, QualRuleView, Rule, RuleView};
pub use self::selector::{
    Combinator,
    Pseudo,
    PseudoMode,
    Selector,
    SelectorAttr,
    SelectorPath,
    SelectorTerm,
};
pub use self::tree_ruleset::{
    TreeRule,
    TreeRuleView,
    TreeRuleset,
    TreeRulesetView,
    TreeSelectorRuleset,
};

use vstd::prelude::*;
use crate::ast::flat_ruleset::{clone_flat, flat_rulesets_text, render_flat};
use crate::ast::flatten::{append_flat, flattened_all};
use crate::ast::token::space::{sep0_at, sep0_end};
use crate::ast::tree_ruleset::{
    clone_rulesets,
    render_rulesets,
    tree_ruleset_parsed,
    tree_rulesets_text,
};
use crate::render::RenderCss;

verus! {

/// A flat stylesheet: rulesets that hold plain rules, ready to be written
/// out for a browser.
#[derive(Debug, PartialEq, Eq)]
pub struct Css(pub Vec<FlatRuleset>);

/// A nested stylesheet, as the parser reads it.
#[derive(Debug, PartialEq, Eq)]
pub struct Tree(pub Vec<TreeRuleset>);

impl View for Css {
    type V = Seq<FlatRulesetView>;

    open spec fn view(&self) -> Seq<FlatRulesetView> {
        self.0.deep_view()
    }
}

impl View for Tree {
    type V = Seq<TreeRulesetView>;

    open spec fn view(&self) -> Seq<TreeRulesetView> {
        self.0.deep_view()
    }
}

impl DeepView for Css {
    type V = Seq<FlatRulesetView>;

    open spec fn deep_view(&self) -> Seq<FlatRulesetView> {
        self@
    }
}

impl DeepView for Tree {
    type V = Seq<TreeRulesetView>;

    open spec fn deep_view(&self) -> Seq<TreeRulesetView> {
        self@
    }
}

/// The rulesets that follow one another from `pos` on, each with the
/// separators after it, after those of `found`; and their end.
pub open spec fn rulesets_parsed(s: Seq<char>, pos: int, found: Seq<TreeRulesetView>) -> (
    Seq<TreeRulesetView>,
    int,
)
    decreases s.len() - pos,
{
    match tree_ruleset_parsed(s, pos) {
        Some((ruleset, next)) => {
            let end = sep0_end(s, next);
            if pos < end <= s.len() {
                rulesets_parsed(s, end, found.push(ruleset))
            } else {
                (found, pos)
            }
        },
        None => (found, pos),
    }
}

/// The stylesheet at the start of `s`, and its end: separators, then any
/// number of rulesets. A text that begins with no ruleset holds the empty
/// stylesheet.
pub open spec fn tree_parsed(s: Seq<char>) -> (Seq<TreeRulesetView>, int) {
    rulesets_parsed(s, sep0_end(s, 0), seq![])
}

impl Clone for Css {
    fn clone(&self) -> (r: Self)
        ensures
            r@ == self@,
    {
        Css(clone_flat(&self.0))
    }
}

impl Clone for Tree {
    fn clone(&self) -> (r: Self)
        ensures
            r@ == self@,
    {
        Tree(clone_rulesets(&self.0))
    }
}

impl Tree {
    /// Reads the stylesheet at the start of `input`.
    pub fn parse_at(input: &Vec<char>) -> (r: (Tree, usize))
        ensures
            tree_parsed(input@) == (r.0@, r.1 as int),
            r.1 <= input.len(),
    {
        let start = sep0_at(input, 0);
        let mut found: Vec<TreeRuleset> = Vec::new();
        let mut i: usize = start;
        assert(found.deep_view() =~= seq![]);
        loop
            invariant
                start <= i <= input.len(),
                rulesets_parsed(input@, start as int, seq![]) == rulesets_parsed(
                    input@,
                    i as int,
                    found.deep_view(),
                ),
            ensures
                i <= input.len(),
                rulesets_parsed(input@, start as int, seq![]) == (found.deep_view(), i as int),
            decreases input.len() - i,
        {
            match TreeRuleset::parse_at(input, i) {
                Some((ruleset, next)) => {
                    let ghost before = found.deep_view();
                    let ghost view = ruleset@;
                    found.push(ruleset);
                    assert(found.deep_view() =~= before.push(view));
                    i = sep0_at(input, next);
                },
                None => {
                    break ;
                },
            }
        }
        (Tree(found), i)
    }

    /// Flatten into a stylesheet without nested selectors: the flattenings
    /// of the rulesets, one after the other.
    pub fn flatten_tree(&self) -> (css: Css)
        ensures
            css@ == flattened_all(self@, self@.len() as int),
    {
        let mut out: Vec<FlatRuleset> = Vec::new();
        let mut i: usize = 0;
        assert(out.deep_view() =~= seq![]);
        while i < self.0.len()
            invariant
                i <= self.0.len(),
                out.deep_view() == flattened_all(self@, i as int),
            decreases self.0.len() - i,
        {
            assert(self@[i as int] == self.0[i as int]@);
            append_flat(&mut out, self.0[i].flatten_tree());
            i += 1;
        }
        Css(out)
    }
}

impl RenderCss for Css {
    open spec fn css(&self) -> Seq<char> {
        flat_rulesets_text(self@, self@.len() as int)
    }

    fn render(&self, out: &mut String) {
        render_flat(&self.0, out);
    }
}

impl RenderCss for Tree {
    open spec fn css(&self) -> Seq<char> {
        tree_rulesets_text(self@, self@.len() as int)
    }

    fn render(&self, out: &mut String) {
        render_rulesets(&self.0, out);
    }
}

} // verus!
