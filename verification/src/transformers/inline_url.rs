//! Inlining: a `url(..)` value gives way to the file it names, as a `data:`
//! URI.

use vstd::prelude::*;
use vstd::string::StringExecFns;
use crate::ast::flat_ruleset::{lemma_nested_view, FlatRuleset, FlatRulesetView};
use crate::ast::ruleset::rule::{Rule, RuleView};
use crate::ast::token::chars::{run_end, scan, CharClass};
use crate::ast::Css;
use crate::text::{at, chars_of, has_at, is_at, starts_with, substring};
use crate::transform::{flats_mapped, rule_fn, TransformCss};
use crate::utils::{join, joined_text};

verus! {

/// A file that a stylesheet refers to, as the caller has read it.
#[derive(Debug, PartialEq, Eq)]
pub struct Asset {
    /// The path that the file was read from.
    pub path: String,
    /// The bytes of the file.
    pub contents: Vec<u8>,
}

/// What an `Asset` stands for.
pub struct AssetView {
    pub path: Seq<char>,
    pub contents: Seq<u8>,
}

impl View for Asset {
    type V = AssetView;

    open spec fn view(&self) -> AssetView {
        AssetView { path: self.path@, contents: self.contents@ }
    }
}

impl DeepView for Asset {
    type V = AssetView;

    open spec fn deep_view(&self) -> AssetView {
        self@
    }
}

/// The text that `base64::encode` gives for `bytes`: their base64 encoding
/// in the standard alphabet, with padding.
pub uninterp spec fn base64_text(bytes: Seq<u8>) -> Seq<char>;

/// Whether bytes of this number can be encoded: the encoding is a third
/// longer, and a text holds `isize::MAX` bytes at most.
pub open spec fn encodable(bytes: Seq<u8>) -> bool {
    bytes.len() <= isize::MAX / 4 * 3
}

/// Calls `base64::encode`, which encodes with the standard alphabet and
/// padding. The result depends on the bytes alone; the crate fails on bytes
/// whose encoding is too long for a buffer, which `requires` leaves out.
#[verifier::external_body]
fn base64_encode(bytes: &Vec<u8>) -> (text: String)
    requires
        encodable(bytes@),
    ensures
        text@ == base64_text(bytes@),
{
    #[allow(deprecated)]
    base64::encode(bytes)
}

/// What a value refers to, where the whole value is one `url(..)`: the text
/// between `url("` and `")`, or else between `url(` and `)`. The text is not
/// empty and holds no `"` in the first form, no `)` in the second.
pub open spec fn url_argument(value: Seq<char>) -> Option<Seq<char>> {
    let quoted = "url(\""@;
    let close = "\")"@;
    let plain = "url("@;
    let quoted_end = run_end(value, quoted.len() as int, CharClass::UrlQuoted);
    let plain_end = run_end(value, plain.len() as int, CharClass::UrlPlain);
    if starts_with(value, 0, quoted) && quoted_end > quoted.len() && starts_with(
        value,
        quoted_end,
        close,
    ) {
        if quoted_end + close.len() == value.len() {
            Some(value.subrange(quoted.len() as int, quoted_end))
        } else {
            None
        }
    } else if starts_with(value, 0, plain) && plain_end > plain.len() && at(value, plain_end, ')') {
        if plain_end + 1 == value.len() {
            Some(value.subrange(plain.len() as int, plain_end))
        } else {
            None
        }
    } else {
        None
    }
}

/// The `url(..)` value of the `data:` URI of an image of the given encoded
/// content.
pub open spec fn data_uri_text(encoded: Seq<char>) -> Seq<char> {
    "url(\"data:image/svg+xml;base64,"@ + encoded + "\")"@
}

/// Whether the path names a file of the project: it begins at the root, with
/// `/`, or at the current directory, with `./`.
pub open spec fn is_local(path: Seq<char>) -> bool {
    path.len() > 0 && (path[0] == '/' || (path[0] == '.' && (path.len() == 1 || path[1] == '/')))
}

/// The path of the file that `reference` names in a stylesheet of the
/// directory `srcdir`, where it names a file of the project.
pub open spec fn asset_path_text(srcdir: Seq<char>, reference: Seq<char>) -> Option<Seq<char>> {
    let path = joined_text(srcdir, reference);
    if is_local(path) {
        Some(path)
    } else {
        None
    }
}

/// Of the first `n` references, those that name a file of the project, as
/// the paths of their files.
pub open spec fn asset_paths_upto(srcdir: Seq<char>, references: Seq<Seq<char>>, n: int) -> Seq<
    Seq<char>,
>
    decreases n,
{
    if 0 < n <= references.len() {
        match asset_path_text(srcdir, references[n - 1]) {
            Some(path) => asset_paths_upto(srcdir, references, n - 1).push(path),
            None => asset_paths_upto(srcdir, references, n - 1),
        }
    } else {
        seq![]
    }
}

/// The asset that was read from `path`, looked for from the entry `from` on;
/// the first one counts.
pub open spec fn found_asset(assets: Seq<AssetView>, from: int, path: Seq<char>) -> Option<
    AssetView,
>
    decreases assets.len() - from,
{
    if 0 <= from < assets.len() {
        if assets[from].path == path {
            Some(assets[from])
        } else {
            found_asset(assets, from + 1, path)
        }
    } else {
        None
    }
}

/// The value, in a stylesheet of the directory `srcdir`, with the file it
/// refers to inlined. The value has to be one `url(..)` that names a file of
/// the project, the file has to be among `assets`, and its content has to be
/// such that it can be encoded; else the value stays as it is.
pub open spec fn inlined_value(
    srcdir: Seq<char>,
    assets: Seq<AssetView>,
    value: Seq<char>,
) -> Seq<char> {
    match url_argument(value) {
        Some(reference) => match asset_path_text(srcdir, reference) {
            Some(path) => match found_asset(assets, 0, path) {
                Some(asset) => if encodable(asset.contents) {
                    data_uri_text(base64_text(asset.contents))
                } else {
                    value
                },
                None => value,
            },
            None => value,
        },
        None => value,
    }
}

/// The rule with the file its value refers to inlined.
pub open spec fn rule_inlined(
    srcdir: Seq<char>,
    assets: Seq<AssetView>,
    rule: RuleView,
) -> RuleView {
    RuleView { property: rule.property, value: inlined_value(srcdir, assets, rule.value) }
}

/// What inlining `assets` makes of a rule of a stylesheet of the directory
/// `srcdir`.
pub open spec fn inlining(srcdir: Seq<char>, assets: Seq<AssetView>) -> spec_fn(
    RuleView,
) -> RuleView {
    |rule: RuleView| rule_inlined(srcdir, assets, rule)
}

/// What the first `n` rules refer to, in order.
pub open spec fn rules_references(rules: Seq<RuleView>, n: int) -> Seq<Seq<char>>
    decreases n,
{
    if 0 < n <= rules.len() {
        match url_argument(rules[n - 1].value) {
            Some(reference) => rules_references(rules, n - 1).push(reference),
            None => rules_references(rules, n - 1),
        }
    } else {
        seq![]
    }
}

/// What the first `n` rulesets refer to, in order.
pub open spec fn rulesets_references(rulesets: Seq<FlatRulesetView>, n: int) -> Seq<Seq<char>>
    decreases rulesets, n,
{
    if 0 < n <= rulesets.len() {
        rulesets_references(rulesets, n - 1) + ruleset_references(rulesets[n - 1])
    } else {
        seq![]
    }
}

/// What the rules of the ruleset refer to, in order.
pub open spec fn ruleset_references(ruleset: FlatRulesetView) -> Seq<Seq<char>>
    decreases ruleset, 0int,
{
    match ruleset {
        FlatRulesetView::SelectorRuleset(_, rules) => rules_references(rules, rules.len() as int),
        FlatRulesetView::QualRule(_) => seq![],
        FlatRulesetView::QualRuleset(_, rules) => rules_references(rules, rules.len() as int),
        FlatRulesetView::QualNestedRuleset(_, body) => rulesets_references(body, body.len() as int),
    }
}

/// Reads what a value refers to, where the whole value is one `url(..)`.
pub fn parse_url(value: &String) -> (r: Option<String>)
    ensures
        r.deep_view() == url_argument(value@),
{
    let chars = chars_of(value.as_str());
    let quoted = chars_of("url(\"");
    let close = chars_of("\")");
    let plain = chars_of("url(");
    if has_at(&chars, 0, &quoted) {
        let end = scan(&chars, quoted.len(), CharClass::UrlQuoted);
        if end > quoted.len() && has_at(&chars, end, &close) {
            if chars.len() - end == close.len() {
                return Some(substring(&chars, quoted.len(), end));
            } else {
                return None;
            }
        }
    }
    if has_at(&chars, 0, &plain) {
        let end = scan(&chars, plain.len(), CharClass::UrlPlain);
        if end > plain.len() && is_at(&chars, end, ')') {
            if chars.len() - end == 1 {
                return Some(substring(&chars, plain.len(), end));
            } else {
                return None;
            }
        }
    }
    None
}

/// The `url(..)` value of the `data:` URI of an image of the given encoded
/// content.
pub fn data_uri(encoded: &str) -> (uri: String)
    ensures
        uri@ == data_uri_text(encoded@),
{
    let mut uri = String::from_str("url(\"data:image/svg+xml;base64,");
    uri.append(encoded);
    uri.append("\")");
    uri
}

/// The path of the file that `reference` names in a stylesheet of the
/// directory `srcdir`, where it names a file of the project.
pub fn asset_path(srcdir: &str, reference: &str) -> (r: Option<String>)
    ensures
        r.deep_view() == asset_path_text(srcdir@, reference@),
{
    let path = join(srcdir, reference);
    let chars = chars_of(path.as_str());
    let n = chars.len();
    if n > 0 && (chars[0] == '/' || (chars[0] == '.' && (n == 1 || chars[1] == '/'))) {
        Some(path)
    } else {
        None
    }
}

/// Finds the asset that was read from `path`.
fn find_asset<'a>(assets: &'a Vec<Asset>, path: &String) -> (r: Option<&'a Asset>)
    ensures
        r matches Some(asset) ==> found_asset(assets.deep_view(), 0, path@) == Some(asset@),
        r is None ==> found_asset(assets.deep_view(), 0, path@) is None,
{
    let mut i: usize = 0;
    while i < assets.len()
        invariant
            i <= assets.len(),
            found_asset(assets.deep_view(), 0, path@) == found_asset(
                assets.deep_view(),
                i as int,
                path@,
            ),
        decreases assets.len() - i,
    {
        assert(assets.deep_view()[i as int] == assets[i as int]@);
        if assets[i].path == *path {
            return Some(&assets[i]);
        }
        i += 1;
    }
    None
}

/// The value, in a stylesheet of the directory `srcdir`, with the file it
/// refers to inlined.
pub fn inline_value(srcdir: &str, assets: &Vec<Asset>, value: &String) -> (out: String)
    ensures
        out@ == inlined_value(srcdir@, assets.deep_view(), value@),
{
    let reference = match parse_url(value) {
        Some(reference) => reference,
        None => {
            return value.clone();
        },
    };
    let path = match asset_path(srcdir, reference.as_str()) {
        Some(path) => path,
        None => {
            return value.clone();
        },
    };
    match find_asset(assets, &path) {
        Some(asset) => {
            if asset.contents.len() <= isize::MAX as usize / 4 * 3 {
                let encoded = base64_encode(&asset.contents);
                data_uri(encoded.as_str())
            } else {
                value.clone()
            }
        },
        None => value.clone(),
    }
}

/// The rewrite that inlines the files of its assets into the stylesheets of
/// its directory.
pub struct Inliner<'a> {
    pub srcdir: &'a str,
    pub assets: &'a Vec<Asset>,
}

impl<'a> TransformCss<Rule> for Inliner<'a> {
    open spec fn transformed(&self, rule: RuleView) -> RuleView {
        rule_inlined(self.srcdir@, self.assets.deep_view(), rule)
    }

    fn transform(&self, rule: &mut Rule) {
        let value = inline_value(self.srcdir, self.assets, &rule.value);
        rule.value = value;
    }
}

/// Appends what the rules refer to to `out`.
fn collect_rules(rules: &Vec<Rule>, out: &mut Vec<String>)
    ensures
        final(out).deep_view() == old(out).deep_view() + rules_references(
            rules.deep_view(),
            rules.len() as int,
        ),
{
    let mut i: usize = 0;
    assert(out.deep_view() =~= old(out).deep_view() + rules_references(rules.deep_view(), 0));
    while i < rules.len()
        invariant
            i <= rules.len(),
            out.deep_view() == old(out).deep_view() + rules_references(
                rules.deep_view(),
                i as int,
            ),
        decreases rules.len() - i,
    {
        assert(rules.deep_view()[i as int] == rules[i as int]@);
        let ghost before = out.deep_view();
        match parse_url(&rules[i].value) {
            Some(reference) => {
                let ghost view = reference@;
                out.push(reference);
                assert(out.deep_view() =~= before.push(view));
            },
            None => {},
        }
        assert(out.deep_view() =~= old(out).deep_view() + rules_references(
            rules.deep_view(),
            i + 1,
        ));
        i += 1;
    }
}

/// Appends what the rulesets refer to to `out`.
fn collect_rulesets(rulesets: &Vec<FlatRuleset>, out: &mut Vec<String>)
    ensures
        final(out).deep_view() == old(out).deep_view() + rulesets_references(
            rulesets.deep_view(),
            rulesets.len() as int,
        ),
    decreases rulesets,
{
    let mut i: usize = 0;
    assert(out.deep_view() =~= old(out).deep_view() + rulesets_references(
        rulesets.deep_view(),
        0,
    ));
    while i < rulesets.len()
        invariant
            i <= rulesets.len(),
            out.deep_view() == old(out).deep_view() + rulesets_references(
                rulesets.deep_view(),
                i as int,
            ),
        decreases rulesets.len() - i,
    {
        assert(rulesets.deep_view()[i as int] == rulesets[i as int]@);
        let ghost before = out.deep_view();
        match &rulesets[i] {
            FlatRuleset::SelectorRuleset(_, rules) => collect_rules(rules, out),
            FlatRuleset::QualRule(_) => {},
            FlatRuleset::QualRuleset(_, rules) => collect_rules(rules, out),
            FlatRuleset::QualNestedRuleset(rule, body) => {
                proof {
                    lemma_nested_view(*rule, *body);
                }
                collect_rulesets(body, out);
            },
        }
        assert(out.deep_view() =~= before + ruleset_references(rulesets[i as int]@));
        assert(out.deep_view() =~= old(out).deep_view() + rulesets_references(
            rulesets.deep_view(),
            i + 1,
        ));
        i += 1;
    }
}

/// What the `url(..)` values of the stylesheet refer to, in the order of the
/// rules.
pub fn url_references(css: &Css) -> (references: Vec<String>)
    ensures
        references.deep_view() == rulesets_references(css@, css@.len() as int),
{
    let mut out: Vec<String> = Vec::new();
    assert(out.deep_view() =~= seq![]);
    collect_rulesets(&css.0, &mut out);
    assert(out.deep_view() =~= rulesets_references(css@, css@.len() as int));
    out
}

/// The paths of the files that the `url(..)` values of a stylesheet of the
/// directory `srcdir` name, in the order of the rules. These are the files
/// that `inline_url` can inline, once they are read.
pub fn asset_paths(srcdir: &str, css: &Css) -> (paths: Vec<String>)
    ensures
        paths.deep_view() == asset_paths_upto(
            srcdir@,
            rulesets_references(css@, css@.len() as int),
            rulesets_references(css@, css@.len() as int).len() as int,
        ),
{
    let references = url_references(css);
    let mut out: Vec<String> = Vec::new();
    let mut i: usize = 0;
    assert(out.deep_view() =~= seq![]);
    while i < references.len()
        invariant
            i <= references.len(),
            out.deep_view() == asset_paths_upto(srcdir@, references.deep_view(), i as int),
        decreases references.len() - i,
    {
        assert(references.deep_view()[i as int] == references[i as int]@);
        match asset_path(srcdir, references[i].as_str()) {
            Some(path) => {
                let ghost before = out.deep_view();
                let ghost view = path@;
                out.push(path);
                assert(out.deep_view() =~= before.push(view));
            },
            None => {},
        }
        i += 1;
    }
    out
}

/// Inline `url()` properties with the base64 encoded contents of their
/// files. In a stylesheet of the directory `srcdir`, a value that is one
/// `url(..)` becomes a `data:` URI of the content of the file it names, where
/// that file is among `assets`; every other value stays.
pub fn inline_url(srcdir: &str, assets: &Vec<Asset>, css: &mut Css)
    ensures
        final(css)@ == flats_mapped(
            inlining(srcdir@, assets.deep_view()),
            old(css)@,
            old(css)@.len() as int,
        ),
{
    let f = Inliner { srcdir, assets };
    assert(rule_fn(&f) =~= inlining(srcdir@, assets.deep_view()));
    css.transform(&f);
}

} // verus!
