//! Selectors: what a ruleset applies to.

pub mod attribute;
pub mod combinator;
pub mod selector_path;
pub mod selector_term;

pub use self::attribute::{SelectorAttr, SelectorAttrView};
pub use self::combinator::Combinator;
pub use self::selector_path::{SelectorPath, SelectorPathView};
pub use self::selector_term::{
    Pseudo,
    PseudoMode,
    PseudoView,
    SelType,
    SelTypeView,
    SelectorTerm,
    SelectorTermView,
};

use vstd::prelude::*;
use crate::ast::selector::selector_path::{path_join, path_parsed, path_text};
use crate::ast::token::space::{comment0_at, comment0_end};
use crate::parser::{ErrorKind, ParseError};
use crate::render::RenderCss;
use crate::text::{at, chars_of, is_at, substring};
use crate::utils::MinVec;

verus! {

/// A selector: one path or more, with `,` between them. It stands for the
/// list of its paths.
#[derive(Debug, PartialEq, Eq, Hash)]
pub struct Selector(pub MinVec<SelectorPath, 1>);

impl View for Selector {
    type V = Seq<SelectorPathView>;

    open spec fn view(&self) -> Seq<SelectorPathView> {
        Seq::new(self.0@.len(), |i: int| self.0@[i]@)
    }
}

impl DeepView for Selector {
    type V = Seq<SelectorPathView>;

    open spec fn deep_view(&self) -> Seq<SelectorPathView> {
        self@
    }
}

/// The paths that follow one another from `pos` on, each after a `,` with
/// whitespace and comments round it, after those of `found`; and their end.
pub open spec fn more_paths_parsed(s: Seq<char>, pos: int, found: Seq<SelectorPathView>) -> (
    Seq<SelectorPathView>,
    int,
)
    decreases s.len() - pos,
{
    let comma = comment0_end(s, pos);
    if at(s, comma, ',') {
        match path_parsed(s, comment0_end(s, comma + 1)) {
            Some((path, end)) => if pos < end <= s.len() {
                more_paths_parsed(s, end, found.push(path))
            } else {
                (found, pos)
            },
            None => (found, pos),
        }
    } else {
        (found, pos)
    }
}

/// The selector at `pos` and its end.
pub open spec fn selector_parsed(s: Seq<char>, pos: int) -> Option<(Seq<SelectorPathView>, int)> {
    match path_parsed(s, pos) {
        Some((first, next)) => Some(more_paths_parsed(s, next, seq![first])),
        None => None,
    }
}

/// The path `parent` joined with each of the first `n` paths of `child`.
pub open spec fn joined_row(
    parent: SelectorPathView,
    child: Seq<SelectorPathView>,
    n: int,
) -> Seq<SelectorPathView>
    decreases n,
{
    if n <= 0 {
        seq![]
    } else {
        joined_row(parent, child, n - 1).push(path_join(parent, child[n - 1]))
    }
}

/// Each of the first `n` paths of `parent` joined with each path of `child`.
pub open spec fn joined_rows(
    parent: Seq<SelectorPathView>,
    child: Seq<SelectorPathView>,
    n: int,
) -> Seq<SelectorPathView>
    decreases n,
{
    if n <= 0 {
        seq![]
    } else {
        joined_rows(parent, child, n - 1) + joined_row(parent[n - 1], child, child.len() as int)
    }
}

/// The selector that `child` stands for inside a ruleset of the selector
/// `parent`: every path of `parent` joined with every path of `child`, those
/// of the first path of `parent` first.
pub open spec fn selector_join(
    parent: Seq<SelectorPathView>,
    child: Seq<SelectorPathView>,
) -> Seq<SelectorPathView> {
    joined_rows(parent, child, parent.len() as int)
}

/// The first `n` paths, with `,` between them.
pub open spec fn selector_text(paths: Seq<SelectorPathView>, n: int) -> Seq<char>
    decreases n,
{
    if n <= 0 {
        seq![]
    } else if n == 1 {
        path_text(paths[0])
    } else {
        selector_text(paths, n - 1) + seq![','] + path_text(paths[n - 1])
    }
}

impl Selector {
    /// The selector of the given paths.
    pub fn from_paths(first: SelectorPath, rest: Vec<SelectorPath>) -> (r: Selector)
        ensures
            r@ == seq![first@] + rest.deep_view(),
    {
        let r = Selector(MinVec::new([first], rest));
        assert(r@ =~= seq![first@] + rest.deep_view());
        r
    }

    /// The paths of the selector, in order.
    pub fn paths(&self) -> (r: Vec<&SelectorPath>)
        ensures
            r@.len() == self@.len(),
            r@.len() >= 1,
            forall|i: int| 0 <= i < r@.len() ==> r@[i]@ == self@[i],
    {
        self.0.iter()
    }

    /// Reads the selector that starts at `pos`.
    pub fn parse_at(input: &Vec<char>, pos: usize) -> (r: Option<(Selector, usize)>)
        requires
            pos <= input.len(),
        ensures
            r matches Some((selector, end)) ==> selector_parsed(input@, pos as int) == Some(
                (selector@, end as int),
            ) && pos < end <= input.len(),
            r is None ==> selector_parsed(input@, pos as int) is None,
    {
        let (first, next) = match SelectorPath::parse_at(input, pos) {
            Some(r) => r,
            None => {
                return None;
            },
        };
        let mut rest: Vec<SelectorPath> = Vec::new();
        let mut i: usize = next;
        assert(seq![first@] + rest.deep_view() =~= seq![first@]);
        loop
            invariant
                pos < next <= i <= input.len(),
                more_paths_parsed(input@, next as int, seq![first@]) == more_paths_parsed(
                    input@,
                    i as int,
                    seq![first@] + rest.deep_view(),
                ),
            ensures
                pos < i <= input.len(),
                more_paths_parsed(input@, next as int, seq![first@]) == (
                    seq![first@] + rest.deep_view(),
                    i as int,
                ),
            decreases input.len() - i,
        {
            let comma = comment0_at(input, i);
            if !is_at(input, comma, ',') {
                break ;
            }
            let start = comment0_at(input, comma + 1);
            match SelectorPath::parse_at(input, start) {
                Some((path, end)) => {
                    let ghost before = rest.deep_view();
                    let ghost view = path@;
                    rest.push(path);
                    assert(seq![first@] + rest.deep_view() =~= (seq![first@] + before).push(view));
                    i = end;
                },
                None => {
                    break ;
                },
            }
        }
        Some((Selector::from_paths(first, rest), i))
    }

    /// Reads a selector from the start of `input`; gives the rest of the text
    /// and the selector.
    pub fn parse(input: &str) -> (r: Result<(String, Selector), ParseError>)
        ensures
            match r {
                Ok((rest, selector)) => selector_parsed(input@, 0) matches Some((view, end))
                    && selector@ == view && rest@ == input@.subrange(end, input@.len() as int),
                Err(e) => selector_parsed(input@, 0) is None && e.kind == ErrorKind::Mismatch
                    && e.detail is None,
            },
    {
        let chars = chars_of(input);
        match Selector::parse_at(&chars, 0) {
            Some((selector, end)) => Ok((substring(&chars, end, chars.len()), selector)),
            None => Err(ParseError::mismatch()),
        }
    }

    /// Whether the two selectors stand for the same.
    pub fn same(&self, other: &Selector) -> (r: bool)
        ensures
            r == (self@ == other@),
    {
        let a = self.paths();
        let b = other.paths();
        if a.len() != b.len() {
            return false;
        }
        let mut i: usize = 0;
        while i < a.len()
            invariant
                i <= a.len(),
                a.len() == b.len(),
                a@.len() == self@.len(),
                b@.len() == other@.len(),
                forall|k: int| 0 <= k < a@.len() ==> a@[k]@ == self@[k],
                forall|k: int| 0 <= k < b@.len() ==> b@[k]@ == other@[k],
                forall|k: int| 0 <= k < i ==> self@[k] == other@[k],
            decreases a.len() - i,
        {
            if !a[i].same(b[i]) {
                assert(self@[i as int] != other@[i as int]);
                return false;
            }
            i += 1;
        }
        assert(self@ =~= other@);
        true
    }

    /// The selector that `other` stands for inside a ruleset of this one.
    pub fn join(&self, other: &Selector) -> (joined: Selector)
        ensures
            joined@ == selector_join(self@, other@),
    {
        let a = self.paths();
        let b = other.paths();
        let mut all: Vec<SelectorPath> = Vec::new();
        let mut i: usize = 0;
        assert(all.deep_view() =~= joined_rows(self@, other@, 0));
        while i < a.len()
            invariant
                i <= a.len(),
                a@.len() == self@.len(),
                b@.len() == other@.len(),
                b@.len() >= 1,
                forall|k: int| 0 <= k < a@.len() ==> a@[k]@ == self@[k],
                forall|k: int| 0 <= k < b@.len() ==> b@[k]@ == other@[k],
                all.deep_view() == joined_rows(self@, other@, i as int),
                i > 0 ==> all.len() > 0,
            decreases a.len() - i,
        {
            let ghost rows = all.deep_view();
            let mut j: usize = 0;
            assert(all.deep_view() =~= rows + joined_row(self@[i as int], other@, 0));
            while j < b.len()
                invariant
                    j <= b.len(),
                    i < a.len(),
                    a@.len() == self@.len(),
                    b@.len() == other@.len(),
                    forall|k: int| 0 <= k < a@.len() ==> a@[k]@ == self@[k],
                    forall|k: int| 0 <= k < b@.len() ==> b@[k]@ == other@[k],
                    all.deep_view() == rows + joined_row(self@[i as int], other@, j as int),
                    j > 0 ==> all.len() > 0,
                decreases b.len() - j,
            {
                let ghost before = all.deep_view();
                let path = a[i].join(b[j]);
                let ghost view = path@;
                all.push(path);
                assert(all.deep_view() =~= before.push(view));
                assert(all.deep_view() =~= rows + joined_row(self@[i as int], other@, j + 1));
                j += 1;
            }
            i += 1;
        }
        let ghost whole = all.deep_view();
        let first = all.remove(0);
        assert(seq![first@] + all.deep_view() =~= whole);
        Selector::from_paths(first, all)
    }

    /// Appends the text of the selector to `out`.
    pub fn render_into(&self, out: &mut String)
        ensures
            final(out)@ == old(out)@ + selector_text(self@, self@.len() as int),
    {
        let paths = self.paths();
        let mut i: usize = 0;
        assert(out@ =~= old(out)@ + selector_text(self@, 0));
        while i < paths.len()
            invariant
                i <= paths.len(),
                paths@.len() == self@.len(),
                forall|k: int| 0 <= k < paths@.len() ==> paths@[k]@ == self@[k],
                out@ == old(out)@ + selector_text(self@, i as int),
            decreases paths.len() - i,
        {
            if i > 0 {
                out.push(',');
            }
            paths[i].render_into(out);
            assert(out@ =~= old(out)@ + selector_text(self@, i + 1));
            i += 1;
        }
    }
}

impl Clone for Selector {
    fn clone(&self) -> (r: Self)
        ensures
            r@ == self@,
    {
        let paths = self.paths();
        let first = paths[0].clone();
        let mut rest: Vec<SelectorPath> = Vec::new();
        let mut i: usize = 1;
        while i < paths.len()
            invariant
                1 <= i <= paths.len(),
                paths@.len() == self@.len(),
                forall|k: int| 0 <= k < paths@.len() ==> paths@[k]@ == self@[k],
                rest.len() == i - 1,
                forall|k: int| 0 <= k < i - 1 ==> rest[k]@ == self@[k + 1],
            decreases paths.len() - i,
        {
            rest.push(paths[i].clone());
            i += 1;
        }
        let r = Selector::from_paths(first, rest);
        assert(r@ =~= self@);
        r
    }
}

impl RenderCss for Selector {
    open spec fn css(&self) -> Seq<char> {
        selector_text(self@, self@.len() as int)
    }

    fn render(&self, out: &mut String) {
        self.render_into(out);
    }
}

} // verus!
