//! Paths: compound selectors in a row, with a combinator between each two.

use vstd::prelude::*;
use crate::ast::selector::combinator::{combinator_parsed, Combinator};
use crate::ast::selector::selector_term::{
    self_term_parsed,
    term_join,
    term_parsed,
    term_text,
    SelectorTerm,
    SelectorTermView,
};
use crate::render::RenderCss;

verus! {

/// A path of compound selectors. The first term of a `PartialCons` is the one
/// that `&` begins: it stands for the selector of the enclosing ruleset, with
/// more qualifiers.
#[derive(Debug, PartialEq, Eq, Hash)]
pub enum SelectorPath {
    Cons(SelectorTerm, Vec<(Combinator, SelectorTerm)>),
    PartialCons(SelectorTerm, Vec<(Combinator, SelectorTerm)>),
}

/// What a `SelectorPath` stands for.
pub enum SelectorPathView {
    Cons(SelectorTermView, Seq<(Combinator, SelectorTermView)>),
    PartialCons(SelectorTermView, Seq<(Combinator, SelectorTermView)>),
}

impl SelectorPathView {
    /// The first term.
    pub open spec fn head(self) -> SelectorTermView {
        match self {
            SelectorPathView::Cons(head, _) => head,
            SelectorPathView::PartialCons(head, _) => head,
        }
    }

    /// The terms after the first, each with the combinator before it.
    pub open spec fn tail(self) -> Seq<(Combinator, SelectorTermView)> {
        match self {
            SelectorPathView::Cons(_, tail) => tail,
            SelectorPathView::PartialCons(_, tail) => tail,
        }
    }

    /// The path of the same kind with another head and tail.
    pub open spec fn rebuilt(
        self,
        head: SelectorTermView,
        tail: Seq<(Combinator, SelectorTermView)>,
    ) -> SelectorPathView {
        match self {
            SelectorPathView::Cons(..) => SelectorPathView::Cons(head, tail),
            SelectorPathView::PartialCons(..) => SelectorPathView::PartialCons(head, tail),
        }
    }
}

impl View for SelectorPath {
    type V = SelectorPathView;

    open spec fn view(&self) -> SelectorPathView {
        match self {
            SelectorPath::Cons(head, tail) => SelectorPathView::Cons(head@, tail.deep_view()),
            SelectorPath::PartialCons(head, tail) => SelectorPathView::PartialCons(
                head@,
                tail.deep_view(),
            ),
        }
    }
}

impl DeepView for SelectorPath {
    type V = SelectorPathView;

    open spec fn deep_view(&self) -> SelectorPathView {
        self@
    }
}

/// The terms that follow one another from `pos` on, each after its
/// combinator, after those of `found`; and their end.
pub open spec fn path_tail_parsed(
    s: Seq<char>,
    pos: int,
    found: Seq<(Combinator, SelectorTermView)>,
) -> (Seq<(Combinator, SelectorTermView)>, int)
    decreases s.len() - pos,
{
    let (combinator, start) = combinator_parsed(s, pos);
    match term_parsed(s, start) {
        Some((term, end)) => if pos < end <= s.len() {
            path_tail_parsed(s, end, found.push((combinator, term)))
        } else {
            (found, pos)
        },
        None => (found, pos),
    }
}

/// The path at `pos` and its end: a compound selector, or a term that `&`
/// begins, and the terms after it.
pub open spec fn path_parsed(s: Seq<char>, pos: int) -> Option<(SelectorPathView, int)> {
    match term_parsed(s, pos) {
        Some((head, next)) => {
            let (tail, end) = path_tail_parsed(s, next, seq![]);
            Some((SelectorPathView::Cons(head, tail), end))
        },
        None => match self_term_parsed(s, pos) {
            Some((head, next)) => {
                let (tail, end) = path_tail_parsed(s, next, seq![]);
                Some((SelectorPathView::PartialCons(head, tail), end))
            },
            None => None,
        },
    }
}

/// The path that `child` stands for inside a ruleset of the path `parent`.
/// Where `child` begins with `&`, its first term is joined to the last term
/// of `parent`; where not, `child` follows `parent` as its descendant.
pub open spec fn path_join(parent: SelectorPathView, child: SelectorPathView) -> SelectorPathView {
    match child {
        SelectorPathView::Cons(head, tail) => parent.rebuilt(
            parent.head(),
            parent.tail() + seq![(Combinator::Null, head)] + tail,
        ),
        SelectorPathView::PartialCons(head, tail) => if parent.tail().len() == 0 {
            parent.rebuilt(term_join(parent.head(), head), tail)
        } else {
            let last = parent.tail().last();
            parent.rebuilt(
                parent.head(),
                parent.tail().drop_last().push((last.0, term_join(last.1, head))) + tail,
            )
        },
    }
}

/// The first `n` terms of a tail, each after the sign of its combinator.
pub open spec fn tail_text(tail: Seq<(Combinator, SelectorTermView)>, n: int) -> Seq<char>
    decreases n,
{
    if n <= 0 {
        seq![]
    } else {
        tail_text(tail, n - 1) + seq![tail[n - 1].0.sign()] + term_text(tail[n - 1].1)
    }
}

/// The text of a path. A first term that `&` begins is written after `&`.
pub open spec fn path_text(path: SelectorPathView) -> Seq<char> {
    match path {
        SelectorPathView::Cons(head, tail) => term_text(head) + tail_text(tail, tail.len() as int),
        SelectorPathView::PartialCons(head, tail) => seq!['&'] + term_text(head) + tail_text(
            tail,
            tail.len() as int,
        ),
    }
}

/// A copy of the terms of `src`.
fn clone_tail(src: &Vec<(Combinator, SelectorTerm)>) -> (out: Vec<(Combinator, SelectorTerm)>)
    ensures
        out.deep_view() == src.deep_view(),
{
    let mut out: Vec<(Combinator, SelectorTerm)> = Vec::new();
    extend_tail(&mut out, src);
    assert(out.deep_view() =~= src.deep_view());
    out
}

/// Appends copies of the terms of `src` to `dst`.
fn extend_tail(dst: &mut Vec<(Combinator, SelectorTerm)>, src: &Vec<(Combinator, SelectorTerm)>)
    ensures
        final(dst).deep_view() == old(dst).deep_view() + src.deep_view(),
{
    let mut i: usize = 0;
    while i < src.len()
        invariant
            i <= src.len(),
            dst.len() == old(dst).len() + i,
            forall|k: int| 0 <= k < old(dst).len() ==> dst[k].deep_view() == old(dst)[k].deep_view(),
            forall|k: int| 0 <= k < i ==> dst[old(dst).len() + k].deep_view() == src[k].deep_view(),
        decreases src.len() - i,
    {
        dst.push((src[i].0, src[i].1.clone()));
        i += 1;
    }
    assert(dst.deep_view() =~= old(dst).deep_view() + src.deep_view());
}

/// Whether the two tails stand for the same.
fn same_tail(a: &Vec<(Combinator, SelectorTerm)>, b: &Vec<(Combinator, SelectorTerm)>) -> (r: bool)
    ensures
        r == (a.deep_view() == b.deep_view()),
{
    if a.len() != b.len() {
        assert(a.deep_view().len() != b.deep_view().len());
        return false;
    }
    let mut i: usize = 0;
    while i < a.len()
        invariant
            i <= a.len(),
            a.len() == b.len(),
            forall|k: int| 0 <= k < i ==> a[k].deep_view() == b[k].deep_view(),
        decreases a.len() - i,
    {
        if !(a[i].0 == b[i].0 && a[i].1.same(&b[i].1)) {
            assert(a.deep_view()[i as int] != b.deep_view()[i as int]);
            return false;
        }
        i += 1;
    }
    assert(a.deep_view() =~= b.deep_view());
    true
}

impl Clone for SelectorPath {
    fn clone(&self) -> (r: Self)
        ensures
            r@ == self@,
    {
        match self {
            SelectorPath::Cons(head, tail) => SelectorPath::Cons(head.clone(), clone_tail(tail)),
            SelectorPath::PartialCons(head, tail) => SelectorPath::PartialCons(
                head.clone(),
                clone_tail(tail),
            ),
        }
    }
}

impl SelectorPath {
    /// Reads the path that starts at `pos`.
    pub fn parse_at(input: &Vec<char>, pos: usize) -> (r: Option<(SelectorPath, usize)>)
        requires
            pos <= input.len(),
        ensures
            r matches Some((path, end)) ==> path_parsed(input@, pos as int) == Some(
                (path@, end as int),
            ) && pos < end <= input.len(),
            r is None ==> path_parsed(input@, pos as int) is None,
    {
        match SelectorTerm::parse_at(input, pos) {
            Some((head, next)) => {
                let (tail, end) = path_tail_at(input, next);
                Some((SelectorPath::Cons(head, tail), end))
            },
            None => match SelectorTerm::parse_self_at(input, pos) {
                Some((head, next)) => {
                    let (tail, end) = path_tail_at(input, next);
                    Some((SelectorPath::PartialCons(head, tail), end))
                },
                None => None,
            },
        }
    }

    /// Whether the two paths stand for the same.
    pub fn same(&self, other: &SelectorPath) -> (r: bool)
        ensures
            r == (self@ == other@),
    {
        match (self, other) {
            (SelectorPath::Cons(a, s), SelectorPath::Cons(b, t)) => a.same(b) && same_tail(s, t),
            (SelectorPath::PartialCons(a, s), SelectorPath::PartialCons(b, t)) => a.same(b)
                && same_tail(s, t),
            _ => false,
        }
    }

    /// The first term and the terms after it.
    fn parts(&self) -> (r: (&SelectorTerm, &Vec<(Combinator, SelectorTerm)>))
        ensures
            r.0@ == self@.head(),
            r.1.deep_view() == self@.tail(),
    {
        match self {
            SelectorPath::Cons(head, tail) => (head, tail),
            SelectorPath::PartialCons(head, tail) => (head, tail),
        }
    }

    /// The path of the same kind as this one, of the given parts.
    fn rebuild(&self, head: SelectorTerm, tail: Vec<(Combinator, SelectorTerm)>) -> (r:
        SelectorPath)
        ensures
            r@ == self@.rebuilt(head@, tail.deep_view()),
    {
        match self {
            SelectorPath::Cons(..) => SelectorPath::Cons(head, tail),
            SelectorPath::PartialCons(..) => SelectorPath::PartialCons(head, tail),
        }
    }

    /// The path that `other` stands for inside a ruleset of this path.
    pub fn join(&self, other: &SelectorPath) -> (joined: SelectorPath)
        ensures
            joined@ == path_join(self@, other@),
    {
        let (head, tail) = self.parts();
        match other {
            SelectorPath::Cons(first, rest) => {
                let mut out = clone_tail(tail);
                let ghost before = out.deep_view();
                out.push((Combinator::Null, first.clone()));
                assert(out.deep_view() =~= before + seq![(Combinator::Null, first@)]);
                extend_tail(&mut out, rest);
                self.rebuild(head.clone(), out)
            },
            SelectorPath::PartialCons(first, rest) => {
                if tail.len() == 0 {
                    assert(self@.tail().len() == 0);
                    self.rebuild(head.join(first), clone_tail(rest))
                } else {
                    let n = tail.len() - 1;
                    let mut out: Vec<(Combinator, SelectorTerm)> = Vec::new();
                    let mut i: usize = 0;
                    while i < n
                        invariant
                            i <= n,
                            n == tail.len() - 1,
                            out.len() == i,
                            forall|k: int|
                                0 <= k < i ==> out[k].deep_view() == tail[k].deep_view(),
                        decreases n - i,
                    {
                        out.push((tail[i].0, tail[i].1.clone()));
                        i += 1;
                    }
                    out.push((tail[n].0, tail[n].1.join(first)));
                    assert(out.deep_view() =~= self@.tail().drop_last().push(
                        (self@.tail().last().0, term_join(self@.tail().last().1, first@)),
                    ));
                    extend_tail(&mut out, rest);
                    self.rebuild(head.clone(), out)
                }
            },
        }
    }

    /// Appends the text of the path to `out`.
    pub fn render_into(&self, out: &mut String)
        ensures
            final(out)@ == old(out)@ + path_text(self@),
    {
        match self {
            SelectorPath::Cons(..) => {},
            SelectorPath::PartialCons(..) => {
                out.push('&');
            },
        }
        let (head, tail) = self.parts();
        head.render_into(out);
        let ghost begun = out@;
        let mut i: usize = 0;
        assert(out@ =~= begun + tail_text(tail.deep_view(), 0));
        while i < tail.len()
            invariant
                i <= tail.len(),
                out@ == begun + tail_text(tail.deep_view(), i as int),
            decreases tail.len() - i,
        {
            tail[i].0.render(out);
            tail[i].1.render_into(out);
            assert(tail.deep_view()[i as int] == (tail[i as int].0, tail[i as int].1@));
            assert(out@ =~= begun + tail_text(tail.deep_view(), i + 1));
            i += 1;
        }
        assert(out@ =~= old(out)@ + path_text(self@));
    }
}

/// Reads the terms that follow one another from `pos` on, each after its
/// combinator.
fn path_tail_at(input: &Vec<char>, pos: usize) -> (r: (Vec<(Combinator, SelectorTerm)>, usize))
    requires
        pos <= input.len(),
    ensures
        path_tail_parsed(input@, pos as int, seq![]) == (r.0.deep_view(), r.1 as int),
        pos <= r.1 <= input.len(),
{
    let mut found: Vec<(Combinator, SelectorTerm)> = Vec::new();
    let mut i: usize = pos;
    assert(found.deep_view() =~= seq![]);
    loop
        invariant
            pos <= i <= input.len(),
            path_tail_parsed(input@, pos as int, seq![]) == path_tail_parsed(
                input@,
                i as int,
                found.deep_view(),
            ),
        ensures
            pos <= i <= input.len(),
            path_tail_parsed(input@, pos as int, seq![]) == (found.deep_view(), i as int),
        decreases input.len() - i,
    {
        let (combinator, start) = Combinator::parse_at(input, i);
        match SelectorTerm::parse_at(input, start) {
            Some((term, end)) => {
                let ghost before = found.deep_view();
                let ghost view = term@;
                found.push((combinator, term));
                assert(found.deep_view() =~= before.push((combinator, view)));
                i = end;
            },
            None => {
                break ;
            },
        }
    }
    (found, i)
}

impl RenderCss for SelectorPath {
    open spec fn css(&self) -> Seq<char> {
        path_text(self@)
    }

    fn render(&self, out: &mut String) {
        self.render_into(out);
    }
}

} // verus!
