//! Building a project: several stylesheets which may import one another.

use vstd::prelude::*;
use vstd::string::StringExecFns;
use crate::ast::flat_ruleset::{flat_rulesets_text, FlatRulesetView};
use crate::ast::flatten::flattened_all;
use crate::ast::tree_ruleset::TreeRulesetView;
use crate::ast::{Css, Tree};
use crate::parser::{parse, parse_outcome, ErrorKind, ParseError};
use crate::render::RenderCss;
use crate::transform::flats_mapped;
use crate::transformers::apply_import::{apply_import, imports_applied};
use crate::transformers::apply_mixin::{apply_mixin, mixins_applied};
use crate::transformers::apply_var::{apply_var, vars_applied};
use crate::transformers::dedupe::{dedupe, deduped};
use crate::transformers::inline_url::{
    asset_paths,
    asset_paths_upto,
    inline_url,
    inlining,
    rulesets_references,
    Asset,
    AssetView,
};
use crate::utils::{file_prefix, file_prefix_text, join, join_paths, joined_text, parent_text};

verus! {

/// A CSS+ project build, comprising a collection of CSS+ files which may
/// reference each other (via `@import`). No path occurs twice among the
/// files of a build.
#[derive(Debug, PartialEq, Eq)]
pub struct BuildCss {
    /// The directory that the paths of the files are relative to.
    rootdir: String,
    /// The files in the order they were added, each with its text once it is
    /// known.
    files: Vec<(String, Option<String>)>,
}

/// The compiled output of a [`BuildCss`] collection, obtained from
/// [`BuildCss::compile`]: each file with its flat stylesheet.
#[derive(Debug, PartialEq, Eq)]
pub struct CompiledCss(pub Vec<(String, Css)>);

/// Why a build failed.
#[derive(Clone, Debug, PartialEq, Eq)]
pub enum BuildError {
    /// The file of this path was added without its text.
    Missing(String),
    /// The text of the file of this path was refused.
    Parse(String, ParseError),
}

/// Whether no path occurs twice among the entries.
pub open spec fn distinct_paths<T>(files: Seq<(Seq<char>, T)>) -> bool {
    forall|i: int, j: int| 0 <= i < j < files.len() ==> files[i].0 != files[j].0
}

/// The place of the entry of `path` among the first `n` entries; `n` where
/// it is not among them.
pub open spec fn file_index<T>(files: Seq<(Seq<char>, T)>, n: int, path: Seq<char>) -> int
    decreases n,
{
    if 0 < n <= files.len() {
        let before = file_index(files, n - 1, path);
        if before < n - 1 {
            before
        } else if files[n - 1].0 == path {
            n - 1
        } else {
            n
        }
    } else {
        0
    }
}

/// The files with `path` added: at the end, without a text, unless it is
/// among them.
pub open spec fn with_file(files: Seq<(Seq<char>, Option<Seq<char>>)>, path: Seq<char>) -> Seq<
    (Seq<char>, Option<Seq<char>>),
> {
    if file_index(files, files.len() as int, path) < files.len() {
        files
    } else {
        files.push((path, None))
    }
}

/// The files with `path` and its text added: in the place of the file of
/// that path, where it is among them, at the end where not.
pub open spec fn with_content(
    files: Seq<(Seq<char>, Option<Seq<char>>)>,
    path: Seq<char>,
    text: Seq<char>,
) -> Seq<(Seq<char>, Option<Seq<char>>)> {
    let index = file_index(files, files.len() as int, path);
    if index < files.len() {
        files.update(index, (path, Some(text)))
    } else {
        files.push((path, Some(text)))
    }
}

/// Why the first `n` files do not all parse: the place of the first one
/// without a text or with a text that is refused, and for a text its error.
/// Where they all parse, their stylesheets.
pub open spec fn sources_parsed(files: Seq<(Seq<char>, Option<Seq<char>>)>, n: int) -> Result<
    Seq<(Seq<char>, Seq<TreeRulesetView>)>,
    (int, Option<int>),
>
    decreases n,
{
    if 0 < n <= files.len() {
        match sources_parsed(files, n - 1) {
            Ok(trees) => match files[n - 1].1 {
                Some(text) => match parse_outcome(text) {
                    Ok(tree) => Ok(trees.push((files[n - 1].0, tree))),
                    Err(error) => Err((n - 1, Some(error))),
                },
                None => Err((n - 1, None)),
            },
            Err(error) => Err(error),
        }
    } else {
        Ok(seq![])
    }
}

/// What the stylesheet `tree` compiles to beside the stylesheets `trees`:
/// imports resolved, then mixins brought in, then variables replaced, then
/// flattened, then neighbouring rulesets merged.
pub open spec fn compiled_tree(
    trees: Seq<(Seq<char>, Seq<TreeRulesetView>)>,
    tree: Seq<TreeRulesetView>,
) -> Seq<FlatRulesetView> {
    let bound = vars_applied(mixins_applied(imports_applied(trees, tree, tree.len() as int)));
    deduped(flattened_all(bound, bound.len() as int))
}

/// What the first `n` of the stylesheets `trees` compile to, each under its
/// path.
pub open spec fn compiled_upto(trees: Seq<(Seq<char>, Seq<TreeRulesetView>)>, n: int) -> Seq<
    (Seq<char>, Seq<FlatRulesetView>),
>
    decreases n,
{
    if 0 < n <= trees.len() {
        compiled_upto(trees, n - 1).push((trees[n - 1].0, compiled_tree(trees, trees[n - 1].1)))
    } else {
        seq![]
    }
}

/// Of the first `n` compiled files, those whose path names a file: the name
/// of the output, which is the name of the file up to its first `.` and then
/// `.css`; the text of the stylesheet; and the path.
pub open spec fn outputs_upto(files: Seq<(Seq<char>, Seq<FlatRulesetView>)>, n: int) -> Seq<
    (Seq<char>, Seq<char>, Seq<char>),
>
    decreases n,
{
    if 0 < n <= files.len() {
        let before = outputs_upto(files, n - 1);
        match file_prefix_text(files[n - 1].0) {
            Some(prefix) => before.push(
                (
                    prefix + ".css"@,
                    flat_rulesets_text(files[n - 1].1, files[n - 1].1.len() as int),
                    files[n - 1].0,
                ),
            ),
            None => before,
        }
    } else {
        seq![]
    }
}

/// The first `n` outputs as pairs of the name and the text, each name once.
/// Where several outputs have one name, the name stays where it first came
/// and has the text of the last of them.
pub open spec fn named_upto(outputs: Seq<(Seq<char>, Seq<char>, Seq<char>)>, n: int) -> Seq<
    (Seq<char>, Seq<char>),
>
    decreases n,
{
    if 0 < n <= outputs.len() {
        let before = named_upto(outputs, n - 1);
        let index = file_index(before, before.len() as int, outputs[n - 1].0);
        if index < before.len() {
            before.update(index, (outputs[n - 1].0, outputs[n - 1].1))
        } else {
            before.push((outputs[n - 1].0, outputs[n - 1].1))
        }
    } else {
        seq![]
    }
}

/// The first `n` outputs as pairs of the path of the output below `outdir`
/// and the text. The output lies below `outdir` as its source lies below the
/// root of the build.
pub open spec fn placed_upto(
    outputs: Seq<(Seq<char>, Seq<char>, Seq<char>)>,
    outdir: Seq<char>,
    n: int,
) -> Seq<(Seq<char>, Seq<char>)>
    decreases n,
{
    if 0 < n <= outputs.len() {
        placed_upto(outputs, outdir, n - 1).push(
            (
                joined_text(joined_text(outdir, parent_text(outputs[n - 1].2)), outputs[n - 1].0),
                outputs[n - 1].1,
            ),
        )
    } else {
        seq![]
    }
}

/// The directory of the file `path` of a build rooted at `rootdir`.
pub open spec fn srcdir_text(rootdir: Seq<char>, path: Seq<char>) -> Seq<char> {
    joined_text(rootdir, parent_text(path))
}

/// The paths of the files that the first `n` compiled files of a build
/// rooted at `rootdir` name in their `url(..)` values, in order.
pub open spec fn files_asset_paths(
    rootdir: Seq<char>,
    files: Seq<(Seq<char>, Seq<FlatRulesetView>)>,
    n: int,
) -> Seq<Seq<char>>
    decreases n,
{
    if 0 < n <= files.len() {
        let references = rulesets_references(files[n - 1].1, files[n - 1].1.len() as int);
        files_asset_paths(rootdir, files, n - 1) + asset_paths_upto(
            srcdir_text(rootdir, files[n - 1].0),
            references,
            references.len() as int,
        )
    } else {
        seq![]
    }
}

/// The compiled files of a build rooted at `rootdir`, with `assets` inlined
/// into the first `n` of them.
pub open spec fn files_inlined(
    rootdir: Seq<char>,
    assets: Seq<AssetView>,
    files: Seq<(Seq<char>, Seq<FlatRulesetView>)>,
    n: int,
) -> Seq<(Seq<char>, Seq<FlatRulesetView>)>
    decreases n,
{
    if 0 < n <= files.len() {
        files_inlined(rootdir, assets, files, n - 1).update(
            n - 1,
            (
                files[n - 1].0,
                flats_mapped(
                    inlining(srcdir_text(rootdir, files[n - 1].0), assets),
                    files[n - 1].1,
                    files[n - 1].1.len() as int,
                ),
            ),
        )
    } else {
        files
    }
}

/// Inlining into the first `n` files keeps their number, and the others as
/// they are.
proof fn lemma_files_inlined(
    rootdir: Seq<char>,
    assets: Seq<AssetView>,
    files: Seq<(Seq<char>, Seq<FlatRulesetView>)>,
    n: int,
)
    requires
        0 <= n <= files.len(),
    ensures
        files_inlined(rootdir, assets, files, n).len() == files.len(),
        forall|k: int| n <= k < files.len() ==> files_inlined(rootdir, assets, files, n)[k] == files[k],
    decreases n,
{
    if n > 0 {
        lemma_files_inlined(rootdir, assets, files, n - 1);
    }
}

/// Finds the place of the entry of `path`.
fn find_path<T: DeepView>(files: &Vec<(String, T)>, path: &String) -> (index: usize)
    ensures
        index == file_index(files.deep_view(), files.len() as int, path@),
        index <= files.len(),
        index < files.len() ==> files[index as int].0@ == path@,
{
    let mut i: usize = 0;
    while i < files.len()
        invariant
            i <= files.len(),
            file_index(files.deep_view(), i as int, path@) == i,
        decreases files.len() - i,
    {
        assert(files.deep_view()[i as int].0 == files[i as int].0@);
        if files[i].0 == *path {
            let ghost views = files.deep_view();
            assert forall|n: int| i < n <= views.len() implies #[trigger] file_index(
                views,
                n,
                path@,
            ) == i by {
                lemma_file_index_stays(views, i as int, n, path@);
            }
            return i;
        }
        i += 1;
    }
    i
}

/// An incremental build struct for compiling a project's CSS sources.
impl BuildCss {
    /// The directory that the paths of the files are relative to.
    pub closed spec fn root(&self) -> Seq<char> {
        self.rootdir@
    }

    /// The files in the order they were added, each with its text once it is
    /// known.
    pub closed spec fn sources(&self) -> Seq<(Seq<char>, Option<Seq<char>>)> {
        self.files.deep_view()
    }

    /// No path occurs twice among the files.
    #[verifier::type_invariant]
    spec fn no_path_twice(self) -> bool {
        distinct_paths(self.files.deep_view())
    }

    /// The directory that the paths of the files are relative to.
    pub fn rootdir(&self) -> (r: &String)
        ensures
            r@ == self.root(),
    {
        &self.rootdir
    }

    /// The files in the order they were added, each with its text once it is
    /// known. No path occurs twice among them.
    pub fn files(&self) -> (r: &Vec<(String, Option<String>)>)
        ensures
            r.deep_view() == self.sources(),
            distinct_paths(self.sources()),
    {
        proof {
            use_type_invariant(self);
        }
        &self.files
    }

    /// Create a new [`BuildCss`] rooted at `rootdir`.
    pub fn new(rootdir: &str) -> (build: BuildCss)
        ensures
            build.root() == rootdir@,
            build.sources() == Seq::<(Seq<char>, Option<Seq<char>>)>::empty(),
            distinct_paths(build.sources()),
    {
        let files: Vec<(String, Option<String>)> = Vec::new();
        assert(files.deep_view() =~= Seq::<(Seq<char>, Option<Seq<char>>)>::empty());
        BuildCss { rootdir: String::from_str(rootdir), files }
    }

    /// Finds the place of the file `path`.
    fn find(&self, path: &String) -> (index: usize)
        ensures
            index == file_index(self.files.deep_view(), self.files.len() as int, path@),
            index <= self.files.len(),
            index < self.files.len() ==> self.files[index as int].0@ == path@,
    {
        find_path(&self.files, path)
    }

    /// The path of the file `path` of this build: `path` below the root.
    pub fn source_path(&self, path: &str) -> (r: String)
        ensures
            r@ == joined_text(self.root(), path@),
    {
        join(self.rootdir.as_str(), path)
    }

    /// Add a file `path` to this build, whose text the caller has yet to
    /// read. A path that the build holds already is not added again.
    pub fn add(&mut self, path: &str)
        ensures
            final(self).root() == old(self).root(),
            final(self).sources() == with_file(old(self).sources(), path@),
            distinct_paths(final(self).sources()),
    {
        proof {
            use_type_invariant(&*self);
        }
        let path = String::from_str(path);
        let index = self.find(&path);
        if index == self.files.len() {
            let ghost before = self.files.deep_view();
            let mut files: Vec<(String, Option<String>)> = Vec::new();
            assert(files.deep_view() =~= Seq::<(Seq<char>, Option<Seq<char>>)>::empty());
            core::mem::swap(&mut self.files, &mut files);
            files.push((path, None));
            proof {
                lemma_file_index_absent(before, before.len() as int, path@);
                assert(files.deep_view() =~= before.push((path@, None)));
            }
            self.files = files;
        }
    }

    /// Add a file `path` with its text to this build. Where the build holds
    /// the path already, the text takes the place of the one it had.
    pub fn add_content(&mut self, path: &str, scss: String)
        ensures
            final(self).root() == old(self).root(),
            final(self).sources() == with_content(old(self).sources(), path@, scss@),
            distinct_paths(final(self).sources()),
    {
        proof {
            use_type_invariant(&*self);
        }
        let path = String::from_str(path);
        let index = self.find(&path);
        let ghost before = self.files.deep_view();
        let mut files: Vec<(String, Option<String>)> = Vec::new();
        assert(files.deep_view() =~= Seq::<(Seq<char>, Option<Seq<char>>)>::empty());
        core::mem::swap(&mut self.files, &mut files);
        if index == files.len() {
            files.push((path, Some(scss)));
            proof {
                lemma_file_index_absent(before, before.len() as int, path@);
                assert(files.deep_view() =~= before.push((path@, Some(scss@))));
            }
        } else {
            assert(before[index as int].0 == path@);
            files.set(index, (path, Some(scss)));
            let ghost after = before.update(index as int, (path@, Some(scss@)));
            assert(files.deep_view() =~= after);
            assert(distinct_paths(after)) by {
                assert forall|i: int, j: int| 0 <= i < j < after.len() implies after[i].0
                    != after[j].0 by {
                    assert(after[i].0 == before[i].0);
                    assert(after[j].0 == before[j].0);
                }
            }
        }
        self.files = files;
    }

    /// Parses the files of this build.
    fn parse_sources(&self) -> (r: Result<Vec<(String, Tree)>, BuildError>)
        ensures
            match r {
                Ok(trees) => sources_parsed(self.sources(), self.sources().len() as int) == Ok::<
                    Seq<(Seq<char>, Seq<TreeRulesetView>)>,
                    (int, Option<int>),
                >(trees.deep_view()),
                Err(error) => sources_parsed(self.sources(), self.sources().len() as int)
                    matches Err((index, cause)) && error.fits(self.sources(), index, cause),
            },
    {
        let mut trees: Vec<(String, Tree)> = Vec::new();
        let mut i: usize = 0;
        assert(trees.deep_view() =~= seq![]);
        while i < self.files.len()
            invariant
                i <= self.files.len(),
                sources_parsed(self.files.deep_view(), i as int) == Ok::<
                    Seq<(Seq<char>, Seq<TreeRulesetView>)>,
                    (int, Option<int>),
                >(trees.deep_view()),
            decreases self.files.len() - i,
        {
            let ghost files = self.files.deep_view();
            assert(files[i as int] == (self.files[i as int].0@, self.files[i as int].1.deep_view()));
            let path = self.files[i].0.clone();
            match &self.files[i].1 {
                Some(text) => match parse(text.as_str()) {
                    Ok(tree) => {
                        let ghost before = trees.deep_view();
                        let ghost view = tree@;
                        trees.push((path, tree));
                        assert(trees.deep_view() =~= before.push((files[i as int].0, view)));
                    },
                    Err(error) => {
                        proof {
                            lemma_sources_parsed_stays(files, i + 1, files.len() as int);
                        }
                        return Err(BuildError::Parse(path, error));
                    },
                },
                None => {
                    proof {
                        lemma_sources_parsed_stays(files, i + 1, files.len() as int);
                    }
                    return Err(BuildError::Missing(path));
                },
            }
            i += 1;
        }
        Ok(trees)
    }

    /// Compile this [`BuildCss`] start-to-finish, applying all transforms
    /// along the way: every file is parsed; then, for each of them, imports
    /// are resolved against the others, mixins are brought in, variables are
    /// replaced, the stylesheet is flattened and neighbouring rulesets are
    /// merged. The first file without a text, or with a text that is
    /// refused, fails the build.
    pub fn compile(&self) -> (r: Result<CompiledCss, BuildError>)
        ensures
            match r {
                Ok(compiled) => sources_parsed(self.sources(), self.sources().len() as int)
                    matches Ok(trees) && compiled@ == compiled_upto(trees, trees.len() as int)
                    && distinct_paths(compiled@),
                Err(error) => sources_parsed(self.sources(), self.sources().len() as int)
                    matches Err((index, cause)) && error.fits(self.sources(), index, cause),
            },
    {
        let trees = match self.parse_sources() {
            Ok(trees) => trees,
            Err(error) => {
                return Err(error);
            },
        };
        proof {
            use_type_invariant(self);
            lemma_sources_parsed_paths(self.sources(), self.sources().len() as int);
            lemma_compiled_paths(trees.deep_view(), trees.len() as int);
        }
        let mut out: Vec<(String, Css)> = Vec::new();
        let mut i: usize = 0;
        assert(out.deep_view() =~= seq![]);
        while i < trees.len()
            invariant
                i <= trees.len(),
                out.deep_view() == compiled_upto(trees.deep_view(), i as int),
            decreases trees.len() - i,
        {
            assert(trees.deep_view()[i as int] == (trees[i as int].0@, trees[i as int].1@));
            let mut tree = trees[i].1.clone();
            apply_import(&trees, &mut tree);
            apply_mixin(&mut tree);
            apply_var(&mut tree);
            let mut flat = tree.flatten_tree();
            dedupe(&mut flat);
            let ghost before = out.deep_view();
            let ghost view = flat@;
            out.push((trees[i].0.clone(), flat));
            assert(out.deep_view() =~= before.push((trees[i as int].0@, view)));
            i += 1;
        }
        Ok(CompiledCss(out))
    }
}

impl BuildError {
    /// Whether the error is that of the file at `index`, for the given
    /// cause: no text, or a text that is refused with something left over
    /// at that place.
    pub open spec fn fits(
        &self,
        files: Seq<(Seq<char>, Option<Seq<char>>)>,
        index: int,
        cause: Option<int>,
    ) -> bool {
        &&& 0 <= index < files.len()
        &&& match (self, cause) {
            (BuildError::Missing(path), None) => path@ == files[index].0,
            (BuildError::Parse(path, error), Some(offset)) => {
                &&& path@ == files[index].0
                &&& error.kind == ErrorKind::Unconsumed
                &&& files[index].1 matches Some(text)
                &&& error.detail matches Some(detail)
                &&& detail.describes(text, offset)
            },
            _ => false,
        }
    }
}

/// A path that is not found is the path of no entry.
proof fn lemma_file_index_absent<T>(files: Seq<(Seq<char>, T)>, n: int, path: Seq<char>)
    requires
        0 <= n <= files.len(),
        file_index(files, n, path) == n,
    ensures
        forall|k: int| 0 <= k < n ==> files[k].0 != path,
    decreases n,
{
    if n > 0 {
        lemma_file_index_absent(files, n - 1, path);
    }
}

/// Once an entry is found, it is found at the same place among more entries.
proof fn lemma_file_index_stays<T>(files: Seq<(Seq<char>, T)>, i: int, n: int, path: Seq<char>)
    requires
        0 <= i < n <= files.len(),
        file_index(files, i, path) == i,
        files[i].0 == path,
    ensures
        file_index(files, n, path) == i,
    decreases n - i,
{
    if n > i + 1 {
        lemma_file_index_stays(files, i, n - 1, path);
    }
}

/// The stylesheets of files that all parse stand under the paths of the
/// files, in their order.
proof fn lemma_sources_parsed_paths(files: Seq<(Seq<char>, Option<Seq<char>>)>, n: int)
    requires
        0 <= n <= files.len(),
    ensures
        sources_parsed(files, n) matches Ok(trees) ==> trees.len() == n && forall|k: int|
            0 <= k < n ==> (#[trigger] trees[k]).0 == files[k].0,
    decreases n,
{
    if n > 0 {
        lemma_sources_parsed_paths(files, n - 1);
    }
}

/// What stylesheets compile to stands under their paths, in their order.
proof fn lemma_compiled_paths(trees: Seq<(Seq<char>, Seq<TreeRulesetView>)>, n: int)
    requires
        0 <= n <= trees.len(),
    ensures
        compiled_upto(trees, n).len() == n,
        forall|k: int| 0 <= k < n ==> (#[trigger] compiled_upto(trees, n)[k]).0 == trees[k].0,
    decreases n,
{
    if n > 0 {
        lemma_compiled_paths(trees, n - 1);
    }
}

/// Once a file fails, the failure is that of all the files.
proof fn lemma_sources_parsed_stays(files: Seq<(Seq<char>, Option<Seq<char>>)>, k: int, n: int)
    requires
        0 < k <= n <= files.len(),
        sources_parsed(files, k) is Err,
    ensures
        sources_parsed(files, n) == sources_parsed(files, k),
    decreases n - k,
{
    if n > k {
        lemma_sources_parsed_stays(files, k, n - 1);
    }
}

impl View for CompiledCss {
    type V = Seq<(Seq<char>, Seq<FlatRulesetView>)>;

    open spec fn view(&self) -> Seq<(Seq<char>, Seq<FlatRulesetView>)> {
        self.0.deep_view()
    }
}

impl CompiledCss {
    /// The outputs of the build: for each file whose path names a file, the
    /// name of the output, the text of its stylesheet and the path.
    pub fn iter_files(&self) -> (r: Vec<(String, String, String)>)
        ensures
            r.deep_view() == outputs_upto(self@, self@.len() as int),
    {
        let mut out: Vec<(String, String, String)> = Vec::new();
        let mut i: usize = 0;
        assert(out.deep_view() =~= seq![]);
        while i < self.0.len()
            invariant
                i <= self.0.len(),
                out.deep_view() == outputs_upto(self@, i as int),
            decreases self.0.len() - i,
        {
            assert(self@[i as int] == (self.0[i as int].0@, self.0[i as int].1@));
            match file_prefix(self.0[i].0.as_str()) {
                Some(prefix) => {
                    let mut outfile = prefix;
                    outfile.append(".css");
                    let css = self.0[i].1.as_css_string();
                    let path = self.0[i].0.clone();
                    let ghost before = out.deep_view();
                    let ghost view = (outfile@, css@, path@);
                    out.push((outfile, css, path));
                    assert(out.deep_view() =~= before.push(view));
                },
                None => {},
            }
            i += 1;
        }
        out
    }

    /// Render this struct's compiled data in memory: each output under its
    /// name, and each name once. Where several outputs have one name, the
    /// text of the last of them stands under it.
    pub fn as_strings(&self) -> (r: Vec<(String, String)>)
        ensures
            r.deep_view() == named_upto(
                outputs_upto(self@, self@.len() as int),
                outputs_upto(self@, self@.len() as int).len() as int,
            ),
            distinct_paths(r.deep_view()),
    {
        let outputs = self.iter_files();
        let mut out: Vec<(String, String)> = Vec::new();
        let mut i: usize = 0;
        assert(out.deep_view() =~= seq![]);
        while i < outputs.len()
            invariant
                i <= outputs.len(),
                out.deep_view() == named_upto(outputs.deep_view(), i as int),
                distinct_paths(out.deep_view()),
            decreases outputs.len() - i,
        {
            assert(outputs.deep_view()[i as int] == (
                outputs[i as int].0@,
                outputs[i as int].1@,
                outputs[i as int].2@,
            ));
            let ghost before = out.deep_view();
            let pair = (outputs[i].0.clone(), outputs[i].1.clone());
            let ghost view = (pair.0@, pair.1@);
            let index = find_path(&out, &pair.0);
            if index == out.len() {
                out.push(pair);
                proof {
                    lemma_file_index_absent(before, before.len() as int, view.0);
                    assert(out.deep_view() =~= before.push(view));
                }
            } else {
                assert(before[index as int].0 == view.0);
                out.set(index, pair);
                let ghost after = before.update(index as int, view);
                assert(out.deep_view() =~= after);
                assert(distinct_paths(after)) by {
                    assert forall|a: int, b: int| 0 <= a < b < after.len() implies after[a].0
                        != after[b].0 by {
                        assert(after[a].0 == before[a].0);
                        assert(after[b].0 == before[b].0);
                    }
                }
            }
            i += 1;
        }
        out
    }

    /// The paths of the files that the stylesheets of a build rooted at
    /// `rootdir` name in their `url(..)` values: what `inline_url` can
    /// inline, once it is read.
    pub fn asset_paths(&self, rootdir: &str) -> (paths: Vec<String>)
        ensures
            paths.deep_view() == files_asset_paths(rootdir@, self@, self@.len() as int),
    {
        let mut out: Vec<String> = Vec::new();
        let mut i: usize = 0;
        assert(out.deep_view() =~= seq![]);
        while i < self.0.len()
            invariant
                i <= self.0.len(),
                out.deep_view() == files_asset_paths(rootdir@, self@, i as int),
            decreases self.0.len() - i,
        {
            assert(self@[i as int] == (self.0[i as int].0@, self.0[i as int].1@));
            let srcdir = join_paths(rootdir, self.0[i].0.as_str());
            let mut more = asset_paths(srcdir.as_str(), &self.0[i].1);
            let ghost before = out.deep_view();
            let ghost added = more.deep_view();
            out.append(&mut more);
            assert(out.deep_view() =~= before + added);
            i += 1;
        }
        out
    }

    /// Inlines the files of `assets` into the stylesheets of a build rooted
    /// at `rootdir`: each `url(..)` is taken relative to the directory of
    /// its stylesheet.
    pub fn inline_url(&mut self, rootdir: &str, assets: &Vec<Asset>)
        ensures
            final(self)@ == files_inlined(
                rootdir@,
                assets.deep_view(),
                old(self)@,
                old(self)@.len() as int,
            ),
    {
        let ghost all = self@;
        let mut i: usize = 0;
        while i < self.0.len()
            invariant
                i <= self.0.len(),
                self.0.len() == all.len(),
                self@ == files_inlined(rootdir@, assets.deep_view(), all, i as int),
            decreases self.0.len() - i,
        {
            let ghost before = self@;
            proof {
                lemma_files_inlined(rootdir@, assets.deep_view(), all, i as int);
            }
            assert(before[i as int] == (self.0[i as int].0@, self.0[i as int].1@));
            let srcdir = join_paths(rootdir, self.0[i].0.as_str());
            inline_url(srcdir.as_str(), assets, &mut self.0[i].1);
            assert(self@ =~= before.update(
                i as int,
                (
                    all[i as int].0,
                    flats_mapped(
                        inlining(srcdir_text(rootdir@, all[i as int].0), assets.deep_view()),
                        all[i as int].1,
                        all[i as int].1.len() as int,
                    ),
                ),
            ));
            i += 1;
        }
    }

    /// What is to be written to disk below `outdir`: each output under its
    /// path, which preserves the relative subdirectory structure of the
    /// sources.
    pub fn output_files(&self, outdir: &str) -> (r: Vec<(String, String)>)
        ensures
            r.deep_view() == placed_upto(
                outputs_upto(self@, self@.len() as int),
                outdir@,
                outputs_upto(self@, self@.len() as int).len() as int,
            ),
    {
        let outputs = self.iter_files();
        let mut out: Vec<(String, String)> = Vec::new();
        let mut i: usize = 0;
        assert(out.deep_view() =~= seq![]);
        while i < outputs.len()
            invariant
                i <= outputs.len(),
                out.deep_view() == placed_upto(outputs.deep_view(), outdir@, i as int),
            decreases outputs.len() - i,
        {
            assert(outputs.deep_view()[i as int] == (
                outputs[i as int].0@,
                outputs[i as int].1@,
                outputs[i as int].2@,
            ));
            let ghost before = out.deep_view();
            let dir = join_paths(outdir, outputs[i].2.as_str());
            let pair = (join(dir.as_str(), outputs[i].0.as_str()), outputs[i].1.clone());
            let ghost view = (pair.0@, pair.1@);
            out.push(pair);
            assert(out.deep_view() =~= before.push(view));
            i += 1;
        }
        out
    }
}

} // verus!
