//! Nested rulesets, as the parser reads them.

use vstd::prelude::*;
use crate::ast::ruleset::rule::{rule_parsed, rule_text, Rule, RuleView};
use crate::ast::ruleset::{qual_rule_parsed, qual_rule_text, QualRule, QualRuleView};
use crate::ast::selector::{selector_parsed, selector_text, Selector, SelectorPathView};
use crate::ast::token::space::{comment0_at, comment0_end, sep0_at, sep0_end};
use crate::parser::{ErrorKind, ParseError};
use crate::render::RenderCss;
use crate::text::{at, chars_of, is_at, substring};

verus! {

/// A tree node which is a rule or, again, a ruleset. With it in the place of
/// a plain rule, rulesets nest, to be flattened later.
#[derive(Debug, PartialEq, Eq)]
pub enum TreeRule {
    Rule(Rule),
    Ruleset(TreeRuleset),
}

/// A selector and the rules and rulesets in its braces.
#[derive(Debug, PartialEq, Eq)]
pub struct TreeSelectorRuleset(pub Selector, pub Vec<TreeRule>);

/// A nested recursive block, in the manner of popular CSS tools and of the
/// CSS nesting proposal.
///
/// ```css
/// div {
///     color: green;
///     &#my_elem {
///         color: red;
///     }
///     .sub_elem {
///         color: purple;
///     }
/// }
/// ```
#[derive(Debug, PartialEq, Eq)]
pub enum TreeRuleset {
    /// A selector with its body.
    SelectorRuleset(TreeSelectorRuleset),
    /// An at-rule without a body, closed by `;`.
    QualRule(QualRule),
    /// An at-rule with a body of rules and rulesets.
    QualRuleset(QualRule, Vec<TreeRule>),
    /// An at-rule with a body of rulesets. The parser makes none of these.
    QualNestedRuleset(QualRule, Vec<TreeRuleset>),
}

/// What a `TreeRule` stands for.
pub enum TreeRuleView {
    Rule(RuleView),
    Ruleset(TreeRulesetView),
}

/// What a `TreeRuleset` stands for.
pub enum TreeRulesetView {
    SelectorRuleset(Seq<SelectorPathView>, Seq<TreeRuleView>),
    QualRule(QualRuleView),
    QualRuleset(QualRuleView, Seq<TreeRuleView>),
    QualNestedRuleset(QualRuleView, Seq<TreeRulesetView>),
}

/// What the item of a body stands for.
pub open spec fn tree_rule_view(rule: TreeRule) -> TreeRuleView
    decreases rule,
{
    match rule {
        TreeRule::Rule(rule) => TreeRuleView::Rule(rule@),
        TreeRule::Ruleset(ruleset) => TreeRuleView::Ruleset(tree_ruleset_view(ruleset)),
    }
}

/// What the items of a body stand for.
pub open spec fn tree_body_view(body: Vec<TreeRule>) -> Seq<TreeRuleView>
    decreases body,
{
    Seq::new(
        body.len() as nat,
        |i: int|
            if 0 <= i < body.len() {
                tree_rule_view(body[i])
            } else {
                arbitrary()
            },
    )
}

/// What the ruleset stands for.
pub open spec fn tree_ruleset_view(ruleset: TreeRuleset) -> TreeRulesetView
    decreases ruleset,
{
    match ruleset {
        TreeRuleset::SelectorRuleset(inner) => TreeRulesetView::SelectorRuleset(
            inner.0@,
            tree_body_view(inner.1),
        ),
        TreeRuleset::QualRule(rule) => TreeRulesetView::QualRule(rule@),
        TreeRuleset::QualRuleset(rule, body) => TreeRulesetView::QualRuleset(
            rule@,
            tree_body_view(body),
        ),
        TreeRuleset::QualNestedRuleset(rule, body) => TreeRulesetView::QualNestedRuleset(
            rule@,
            Seq::new(
                body.len() as nat,
                |i: int|
                    if 0 <= i < body.len() {
                        tree_ruleset_view(body[i])
                    } else {
                        arbitrary()
                    },
            ),
        ),
    }
}

impl View for TreeRule {
    type V = TreeRuleView;

    open spec fn view(&self) -> TreeRuleView {
        tree_rule_view(*self)
    }
}

impl DeepView for TreeRule {
    type V = TreeRuleView;

    open spec fn deep_view(&self) -> TreeRuleView {
        tree_rule_view(*self)
    }
}

impl View for TreeRuleset {
    type V = TreeRulesetView;

    open spec fn view(&self) -> TreeRulesetView {
        tree_ruleset_view(*self)
    }
}

impl DeepView for TreeRuleset {
    type V = TreeRulesetView;

    open spec fn deep_view(&self) -> TreeRulesetView {
        tree_ruleset_view(*self)
    }
}

impl View for TreeSelectorRuleset {
    type V = (Seq<SelectorPathView>, Seq<TreeRuleView>);

    open spec fn view(&self) -> (Seq<SelectorPathView>, Seq<TreeRuleView>) {
        (self.0@, self.1.deep_view())
    }
}

/// A body, seen through the view of its ruleset, is the list of the views of
/// its items.
pub proof fn lemma_tree_body_view(body: Vec<TreeRule>)
    ensures
        tree_body_view(body) == body.deep_view(),
{
    assert(tree_body_view(body) =~= body.deep_view());
}

/// What a ruleset stands for, by its kind.
pub proof fn lemma_tree_ruleset_view(ruleset: TreeRuleset)
    ensures
        match ruleset {
            TreeRuleset::SelectorRuleset(inner) => ruleset@ == TreeRulesetView::SelectorRuleset(
                inner.0@,
                inner.1.deep_view(),
            ),
            TreeRuleset::QualRule(rule) => ruleset@ == TreeRulesetView::QualRule(rule@),
            TreeRuleset::QualRuleset(rule, body) => ruleset@ == TreeRulesetView::QualRuleset(
                rule@,
                body.deep_view(),
            ),
            TreeRuleset::QualNestedRuleset(rule, body) => ruleset@
                == TreeRulesetView::QualNestedRuleset(rule@, body.deep_view()),
        },
{
    match ruleset {
        TreeRuleset::SelectorRuleset(inner) => {
            lemma_tree_body_view(inner.1);
        },
        TreeRuleset::QualRule(rule) => {},
        TreeRuleset::QualRuleset(rule, body) => {
            lemma_tree_body_view(body);
        },
        TreeRuleset::QualNestedRuleset(rule, body) => {
            assert(ruleset@->QualNestedRuleset_1 =~= body.deep_view());
        },
    }
}

// ---------------------------------------------------------------------------
// Copies
// ---------------------------------------------------------------------------
impl Clone for TreeRule {
    fn clone(&self) -> (r: Self)
        ensures
            r@ == self@,
        decreases self,
    {
        match self {
            TreeRule::Rule(rule) => TreeRule::Rule(rule.clone()),
            TreeRule::Ruleset(ruleset) => TreeRule::Ruleset(ruleset.clone()),
        }
    }
}

/// A copy of the items of `src`.
pub fn clone_body(src: &Vec<TreeRule>) -> (out: Vec<TreeRule>)
    ensures
        out.deep_view() == src.deep_view(),
    decreases src,
{
    let mut out: Vec<TreeRule> = Vec::new();
    let mut i: usize = 0;
    while i < src.len()
        invariant
            i <= src.len(),
            out.len() == i,
            forall|k: int| 0 <= k < i ==> out[k]@ == src[k]@,
        decreases src.len() - i,
    {
        out.push(src[i].clone());
        i += 1;
    }
    assert(out.deep_view() =~= src.deep_view());
    out
}

/// A copy of the rulesets of `src`.
pub fn clone_rulesets(src: &Vec<TreeRuleset>) -> (out: Vec<TreeRuleset>)
    ensures
        out.deep_view() == src.deep_view(),
    decreases src,
{
    let mut out: Vec<TreeRuleset> = Vec::new();
    let mut i: usize = 0;
    while i < src.len()
        invariant
            i <= src.len(),
            out.len() == i,
            forall|k: int| 0 <= k < i ==> out[k]@ == src[k]@,
        decreases src.len() - i,
    {
        out.push(src[i].clone());
        i += 1;
    }
    assert(out.deep_view() =~= src.deep_view());
    out
}

impl Clone for TreeSelectorRuleset {
    fn clone(&self) -> (r: Self)
        ensures
            r@ == self@,
        decreases self,
    {
        TreeSelectorRuleset(self.0.clone(), clone_body(&self.1))
    }
}

impl Clone for TreeRuleset {
    fn clone(&self) -> (r: Self)
        ensures
            r@ == self@,
        decreases self,
    {
        proof {
            lemma_tree_ruleset_view(*self);
        }
        let r = match self {
            TreeRuleset::SelectorRuleset(inner) => TreeRuleset::SelectorRuleset(inner.clone()),
            TreeRuleset::QualRule(rule) => TreeRuleset::QualRule(rule.clone()),
            TreeRuleset::QualRuleset(rule, body) => TreeRuleset::QualRuleset(
                rule.clone(),
                clone_body(body),
            ),
            TreeRuleset::QualNestedRuleset(rule, body) => TreeRuleset::QualNestedRuleset(
                rule.clone(),
                clone_rulesets(body),
            ),
        };
        proof {
            lemma_tree_ruleset_view(r);
        }
        r
    }
}


// ---------------------------------------------------------------------------
// The grammar
// ---------------------------------------------------------------------------
/// The ruleset at `pos` and its end. Where the text begins with `@`, it is
/// the head of an at-rule and then `;`, or a body in braces of one item or
/// more. Where not, it is a selector and a body in braces of any number of
/// items. Separators may follow `{`, whitespace and comments may stand before
/// `{` of a selector and before `}`.
pub open spec fn tree_ruleset_parsed(s: Seq<char>, pos: int) -> Option<(TreeRulesetView, int)>
    decreases s.len() - pos, 0int,
{
    if at(s, pos, '@') {
        match qual_rule_parsed(s, pos) {
            Some((rule, next)) => {
                let start = sep0_end(s, next + 1);
                if at(s, next, ';') {
                    Some((TreeRulesetView::QualRule(rule), next + 1))
                } else if at(s, next, '{') && pos < start <= s.len() {
                    let (body, end) = tree_rules_parsed(s, start, seq![]);
                    let close = comment0_end(s, end);
                    if body.len() >= 1 && at(s, close, '}') {
                        Some((TreeRulesetView::QualRuleset(rule, body), close + 1))
                    } else {
                        None
                    }
                } else {
                    None
                }
            },
            None => None,
        }
    } else {
        match selector_parsed(s, pos) {
            Some((selector, next)) => {
                let open = comment0_end(s, next);
                let start = sep0_end(s, open + 1);
                if at(s, open, '{') && pos < start <= s.len() {
                    let (body, end) = tree_rules_parsed(s, start, seq![]);
                    let close = comment0_end(s, end);
                    if at(s, close, '}') {
                        Some((TreeRulesetView::SelectorRuleset(selector, body), close + 1))
                    } else {
                        None
                    }
                } else {
                    None
                }
            },
            None => None,
        }
    }
}

/// The item of a body at `pos`, and its end: a ruleset or, where there is
/// none, a rule; and the separators after it.
pub open spec fn tree_rule_parsed(s: Seq<char>, pos: int) -> Option<(TreeRuleView, int)>
    decreases s.len() - pos, 1int,
{
    match tree_ruleset_parsed(s, pos) {
        Some((ruleset, end)) => Some((TreeRuleView::Ruleset(ruleset), sep0_end(s, end))),
        None => match rule_parsed(s, pos) {
            Some((rule, end)) => Some((TreeRuleView::Rule(rule), sep0_end(s, end))),
            None => None,
        },
    }
}

/// The items of a body that follow one another from `pos` on, after those of
/// `found`; and their end.
pub open spec fn tree_rules_parsed(s: Seq<char>, pos: int, found: Seq<TreeRuleView>) -> (
    Seq<TreeRuleView>,
    int,
)
    decreases s.len() - pos, 2int,
{
    match tree_rule_parsed(s, pos) {
        Some((rule, end)) => if pos < end <= s.len() {
            tree_rules_parsed(s, end, found.push(rule))
        } else {
            (found, pos)
        },
        None => (found, pos),
    }
}

/// Reads the items of a body that follow one another from `pos` on.
fn tree_rules_at(input: &Vec<char>, pos: usize) -> (r: (Vec<TreeRule>, usize))
    requires
        pos <= input.len(),
    ensures
        tree_rules_parsed(input@, pos as int, seq![]) == (r.0.deep_view(), r.1 as int),
        pos <= r.1 <= input.len(),
    decreases input.len() - pos, 2int,
{
    let mut found: Vec<TreeRule> = Vec::new();
    let mut i: usize = pos;
    assert(found.deep_view() =~= seq![]);
    loop
        invariant
            pos <= i <= input.len(),
            tree_rules_parsed(input@, pos as int, seq![]) == tree_rules_parsed(
                input@,
                i as int,
                found.deep_view(),
            ),
        ensures
            pos <= i <= input.len(),
            tree_rules_parsed(input@, pos as int, seq![]) == (found.deep_view(), i as int),
        decreases input.len() - i,
    {
        match TreeRule::parse_at(input, i) {
            Some((rule, end)) => {
                let ghost before = found.deep_view();
                let ghost view = rule@;
                found.push(rule);
                assert(found.deep_view() =~= before.push(view));
                i = end;
            },
            None => {
                break ;
            },
        }
    }
    (found, i)
}

impl TreeRule {
    /// Reads the item of a body that starts at `pos`, and the separators
    /// after it.
    pub fn parse_at(input: &Vec<char>, pos: usize) -> (r: Option<(TreeRule, usize)>)
        requires
            pos <= input.len(),
        ensures
            r matches Some((rule, end)) ==> tree_rule_parsed(input@, pos as int) == Some(
                (rule@, end as int),
            ) && pos < end <= input.len(),
            r is None ==> tree_rule_parsed(input@, pos as int) is None,
        decreases input.len() - pos, 1int,
    {
        match TreeRuleset::parse_at(input, pos) {
            Some((ruleset, end)) => Some((TreeRule::Ruleset(ruleset), sep0_at(input, end))),
            None => match Rule::parse_at(input, pos) {
                Some((rule, end)) => Some((TreeRule::Rule(rule), sep0_at(input, end))),
                None => None,
            },
        }
    }

    /// Reads an item of a body from the start of `input`; gives the rest of
    /// the text and the item.
    pub fn parse(input: &str) -> (r: Result<(String, TreeRule), ParseError>)
        ensures
            match r {
                Ok((rest, rule)) => tree_rule_parsed(input@, 0) matches Some((view, end)) && rule@
                    == view && rest@ == input@.subrange(end, input@.len() as int),
                Err(e) => tree_rule_parsed(input@, 0) is None && e.kind == ErrorKind::Mismatch
                    && e.detail is None,
            },
    {
        let chars = chars_of(input);
        match TreeRule::parse_at(&chars, 0) {
            Some((rule, end)) => Ok((substring(&chars, end, chars.len()), rule)),
            None => Err(ParseError::mismatch()),
        }
    }
}

impl TreeRuleset {
    /// Reads the ruleset that starts at `pos`.
    pub fn parse_at(input: &Vec<char>, pos: usize) -> (r: Option<(TreeRuleset, usize)>)
        requires
            pos <= input.len(),
        ensures
            r matches Some((ruleset, end)) ==> tree_ruleset_parsed(input@, pos as int) == Some(
                (ruleset@, end as int),
            ) && pos < end <= input.len(),
            r is None ==> tree_ruleset_parsed(input@, pos as int) is None,
        decreases input.len() - pos, 0int,
    {
        if is_at(input, pos, '@') {
            let (rule, next) = match QualRule::parse_at(input, pos) {
                Some(r) => r,
                None => {
                    return None;
                },
            };
            if is_at(input, next, ';') {
                Some((TreeRuleset::QualRule(rule), next + 1))
            } else if is_at(input, next, '{') {
                let start = sep0_at(input, next + 1);
                let (body, end) = tree_rules_at(input, start);
                let close = comment0_at(input, end);
                if body.len() >= 1 && is_at(input, close, '}') {
                    let ruleset = TreeRuleset::QualRuleset(rule, body);
                    proof {
                        lemma_tree_ruleset_view(ruleset);
                    }
                    Some((ruleset, close + 1))
                } else {
                    None
                }
            } else {
                None
            }
        } else {
            let (selector, next) = match Selector::parse_at(input, pos) {
                Some(r) => r,
                None => {
                    return None;
                },
            };
            let open = comment0_at(input, next);
            if !is_at(input, open, '{') {
                return None;
            }
            let start = sep0_at(input, open + 1);
            let (body, end) = tree_rules_at(input, start);
            let close = comment0_at(input, end);
            if is_at(input, close, '}') {
                let ruleset = TreeRuleset::SelectorRuleset(TreeSelectorRuleset(selector, body));
                proof {
                    lemma_tree_ruleset_view(ruleset);
                }
                Some((ruleset, close + 1))
            } else {
                None
            }
        }
    }

    /// Reads a ruleset from the start of `input`; gives the rest of the text
    /// and the ruleset.
    pub fn parse(input: &str) -> (r: Result<(String, TreeRuleset), ParseError>)
        ensures
            match r {
                Ok((rest, ruleset)) => tree_ruleset_parsed(input@, 0) matches Some((view, end))
                    && ruleset@ == view && rest@ == input@.subrange(end, input@.len() as int),
                Err(e) => tree_ruleset_parsed(input@, 0) is None && e.kind == ErrorKind::Mismatch
                    && e.detail is None,
            },
    {
        let chars = chars_of(input);
        match TreeRuleset::parse_at(&chars, 0) {
            Some((ruleset, end)) => Ok((substring(&chars, end, chars.len()), ruleset)),
            None => Err(ParseError::mismatch()),
        }
    }
}

// ---------------------------------------------------------------------------
// Rendering
// ---------------------------------------------------------------------------
/// The text of an item of a body.
pub open spec fn tree_rule_text(rule: TreeRuleView) -> Seq<char>
    decreases rule, 0int,
{
    match rule {
        TreeRuleView::Rule(rule) => rule_text(rule),
        TreeRuleView::Ruleset(ruleset) => tree_ruleset_text(ruleset),
    }
}

/// The first `n` items of a body, one after the other.
pub open spec fn tree_rules_text(rules: Seq<TreeRuleView>, n: int) -> Seq<char>
    decreases rules, n,
{
    if 0 < n <= rules.len() {
        tree_rules_text(rules, n - 1) + tree_rule_text(rules[n - 1])
    } else {
        seq![]
    }
}

/// The first `n` rulesets, one after the other.
pub open spec fn tree_rulesets_text(rulesets: Seq<TreeRulesetView>, n: int) -> Seq<char>
    decreases rulesets, n,
{
    if 0 < n <= rulesets.len() {
        tree_rulesets_text(rulesets, n - 1) + tree_ruleset_text(rulesets[n - 1])
    } else {
        seq![]
    }
}

/// The text of a ruleset: the selector or the head of the at-rule, then the
/// body in braces; `;` after an at-rule without a body.
pub open spec fn tree_ruleset_text(ruleset: TreeRulesetView) -> Seq<char>
    decreases ruleset, 0int,
{
    match ruleset {
        TreeRulesetView::SelectorRuleset(selector, body) => selector_text(
            selector,
            selector.len() as int,
        ) + seq!['{'] + tree_rules_text(body, body.len() as int) + seq!['}'],
        TreeRulesetView::QualRule(rule) => qual_rule_text(rule) + seq![';'],
        TreeRulesetView::QualRuleset(rule, body) => qual_rule_text(rule) + seq!['{']
            + tree_rules_text(body, body.len() as int) + seq!['}'],
        TreeRulesetView::QualNestedRuleset(rule, body) => qual_rule_text(rule) + seq!['{']
            + tree_rulesets_text(body, body.len() as int) + seq!['}'],
    }
}

/// Appends the text of the items of a body to `out`.
fn render_body(body: &Vec<TreeRule>, out: &mut String)
    ensures
        final(out)@ == old(out)@ + tree_rules_text(body.deep_view(), body.len() as int),
    decreases body,
{
    let mut i: usize = 0;
    assert(out@ =~= old(out)@ + tree_rules_text(body.deep_view(), 0));
    while i < body.len()
        invariant
            i <= body.len(),
            out@ == old(out)@ + tree_rules_text(body.deep_view(), i as int),
        decreases body.len() - i,
    {
        body[i].render_into(out);
        assert(body.deep_view()[i as int] == body[i as int]@);
        assert(out@ =~= old(out)@ + tree_rules_text(body.deep_view(), i + 1));
        i += 1;
    }
}

/// Appends the text of the rulesets to `out`.
pub fn render_rulesets(rulesets: &Vec<TreeRuleset>, out: &mut String)
    ensures
        final(out)@ == old(out)@ + tree_rulesets_text(rulesets.deep_view(), rulesets.len() as int),
    decreases rulesets,
{
    let mut i: usize = 0;
    assert(out@ =~= old(out)@ + tree_rulesets_text(rulesets.deep_view(), 0));
    while i < rulesets.len()
        invariant
            i <= rulesets.len(),
            out@ == old(out)@ + tree_rulesets_text(rulesets.deep_view(), i as int),
        decreases rulesets.len() - i,
    {
        rulesets[i].render_into(out);
        assert(rulesets.deep_view()[i as int] == rulesets[i as int]@);
        assert(out@ =~= old(out)@ + tree_rulesets_text(rulesets.deep_view(), i + 1));
        i += 1;
    }
}

impl TreeRule {
    /// Appends the text of the item to `out`.
    pub fn render_into(&self, out: &mut String)
        ensures
            final(out)@ == old(out)@ + tree_rule_text(self@),
        decreases self,
    {
        match self {
            TreeRule::Rule(rule) => rule.render(out),
            TreeRule::Ruleset(ruleset) => ruleset.render_into(out),
        }
    }
}

impl TreeRuleset {
    /// Appends the text of the ruleset to `out`.
    pub fn render_into(&self, out: &mut String)
        ensures
            final(out)@ == old(out)@ + tree_ruleset_text(self@),
        decreases self,
    {
        proof {
            lemma_tree_ruleset_view(*self);
        }
        match self {
            TreeRuleset::SelectorRuleset(inner) => {
                inner.0.render_into(out);
                out.push('{');
                render_body(&inner.1, out);
                out.push('}');
            },
            TreeRuleset::QualRule(rule) => {
                rule.render(out);
                out.push(';');
            },
            TreeRuleset::QualRuleset(rule, body) => {
                rule.render(out);
                out.push('{');
                render_body(body, out);
                out.push('}');
            },
            TreeRuleset::QualNestedRuleset(rule, body) => {
                rule.render(out);
                out.push('{');
                render_rulesets(body, out);
                out.push('}');
            },
        }
        assert(out@ =~= old(out)@ + tree_ruleset_text(self@));
    }
}

impl RenderCss for TreeRule {
    open spec fn css(&self) -> Seq<char> {
        tree_rule_text(self@)
    }

    fn render(&self, out: &mut String) {
        self.render_into(out);
    }
}

impl RenderCss for TreeRuleset {
    open spec fn css(&self) -> Seq<char> {
        tree_ruleset_text(self@)
    }

    fn render(&self, out: &mut String) {
        self.render_into(out);
    }
}

} // verus!
