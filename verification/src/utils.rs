//! Small containers, and the paths of the files of a build.

use vstd::prelude::*;
use vstd::string::StringExecFns;
use crate::ast::token::chars::{run_end, CharClass};
use crate::text::{chars_of, substring};

verus! {

/// A wrapper around [`Vec`] which guarantees at least `N` elements.
#[derive(Clone, Debug, PartialEq, Eq, Hash)]
pub struct MinVec<T, const N: usize>(pub [T; N], pub Vec<T>);

impl<T, const N: usize> View for MinVec<T, N> {
    type V = Seq<T>;

    /// The elements: the `N` that are guaranteed, then the others.
    open spec fn view(&self) -> Seq<T> {
        self.0@ + self.1@
    }
}

impl<T, const N: usize> MinVec<T, N> {
    /// Create a new N-element-guaranteed collection.
    pub fn new(head: [T; N], tail: Vec<T>) -> (r: Self)
        ensures
            r@ == head@ + tail@,
            r@.len() >= N,
    {
        MinVec(head, tail)
    }

    /// Puts `value` in the place of the element at `index`. Where the
    /// collection has no element at `index`, it stays as it is and the value
    /// comes back.
    pub fn set(&mut self, index: usize, value: T) -> (r: Result<(), T>)
        ensures
            match r {
                Ok(_) => index < old(self)@.len() && final(self)@ == old(self)@.update(
                    index as int,
                    value,
                ),
                Err(back) => index >= old(self)@.len() && back == value && final(self)@ == old(
                    self,
                )@,
            },
    {
        if index < N {
            self.0[index] = value;
            assert(self@ =~= old(self)@.update(index as int, value));
            Ok(())
        } else if index - N < self.1.len() {
            self.1[index - N] = value;
            assert(self@ =~= old(self)@.update(index as int, value));
            Ok(())
        } else {
            Err(value)
        }
    }

    /// The values in this collection, in order.
    pub fn iter(&self) -> (r: Vec<&T>)
        ensures
            r@.len() == self@.len(),
            forall|i: int| 0 <= i < r@.len() ==> *r@[i] == self@[i],
    {
        let mut out: Vec<&T> = Vec::new();
        let mut i: usize = 0;
        while i < N
            invariant
                i <= N,
                self.0@.len() == N,
                out@.len() == i,
                forall|k: int| 0 <= k < i ==> *out@[k] == self.0@[k],
            decreases N - i,
        {
            out.push(&self.0[i]);
            i += 1;
        }
        let mut j: usize = 0;
        while j < self.1.len()
            invariant
                j <= self.1.len(),
                self.0@.len() == N,
                out@.len() == N + j,
                forall|k: int| 0 <= k < N ==> *out@[k] == self.0@[k],
                forall|k: int| 0 <= k < j ==> *out@[N + k] == self.1@[k],
            decreases self.1.len() - j,
        {
            out.push(&self.1[j]);
            j += 1;
        }
        out
    }
}


/// The place in `path` where the name that ends at `end` begins: after the
/// last `/` before `end`, or at the start.
pub open spec fn name_start(path: Seq<char>, end: int) -> int
    decreases end,
{
    if 0 < end <= path.len() && path[end - 1] != '/' {
        name_start(path, end - 1)
    } else {
        end
    }
}

/// The directory of `path`: what stands before its last `/`; nothing where
/// it has none.
pub open spec fn parent_text(path: Seq<char>) -> Seq<char> {
    let start = name_start(path, path.len() as int);
    if start > 0 {
        path.subrange(0, start - 1)
    } else {
        seq![]
    }
}

/// The path `rel` below the directory `base`: the two with a `/` between
/// them, unless `base` ends with one. Where one of them is empty, the other;
/// where `rel` begins at the root, with `/`, `rel` alone.
pub open spec fn joined_text(base: Seq<char>, rel: Seq<char>) -> Seq<char> {
    if base.len() == 0 {
        rel
    } else if rel.len() == 0 {
        base
    } else if rel[0] == '/' {
        rel
    } else if base[base.len() - 1] == '/' {
        base + rel
    } else {
        base + seq!['/'] + rel
    }
}

/// The name of the file of `path` up to its first `.`, a `.` at its very
/// start not counted. A path that ends with `/`, `.` or `..`, or is empty,
/// names no file.
pub open spec fn file_prefix_text(path: Seq<char>) -> Option<Seq<char>> {
    let start = name_start(path, path.len() as int);
    let name = path.subrange(start, path.len() as int);
    if name.len() == 0 || name == seq!['.'] || name == seq!['.', '.'] {
        None
    } else {
        Some(name.subrange(0, run_end(name, 1, CharClass::Stem)))
    }
}

/// Finds where the name of the file of `path` begins.
fn name_start_at(path: &Vec<char>) -> (start: usize)
    ensures
        start == name_start(path@, path.len() as int),
        start <= path.len(),
{
    let mut i: usize = path.len();
    while i > 0 && path[i - 1] != '/'
        invariant
            i <= path.len(),
            name_start(path@, path.len() as int) == name_start(path@, i as int),
        decreases i,
    {
        i -= 1;
    }
    i
}

/// The path `rel` below the directory `base`, both written with `/`.
pub fn join(base: &str, rel: &str) -> (r: String)
    ensures
        r@ == joined_text(base@, rel@),
{
    let chars = chars_of(base);
    let other = chars_of(rel);
    if chars.len() == 0 {
        String::from_str(rel)
    } else if other.len() == 0 {
        String::from_str(base)
    } else if other[0] == '/' {
        String::from_str(rel)
    } else {
        let mut r = String::from_str(base);
        if chars[chars.len() - 1] != '/' {
            r.push('/');
        }
        r.append(rel);
        r
    }
}

/// Given a root path `outdir` and a relative path `path`, the directory of
/// `path` below `outdir`.
pub fn join_paths(outdir: &str, path: &str) -> (r: String)
    ensures
        r@ == joined_text(outdir@, parent_text(path@)),
{
    let chars = chars_of(path);
    let start = name_start_at(&chars);
    let parent = if start > 0 {
        substring(&chars, 0, start - 1)
    } else {
        String::new()
    };
    assert(parent@ =~= parent_text(path@));
    join(outdir, parent.as_str())
}

/// The name of the file of `path` up to its first `.`.
pub fn file_prefix(path: &str) -> (r: Option<String>)
    ensures
        r.deep_view() == file_prefix_text(path@),
{
    let chars = chars_of(path);
    let start = name_start_at(&chars);
    let n = chars.len() - start;
    let ghost name = chars@.subrange(start as int, chars.len() as int);
    if n == 0 {
        return None;
    }
    assert(name[0] == chars@[start as int]);
    if n == 1 && chars[start] == '.' {
        assert(name =~= seq!['.']);
        return None;
    }
    if n == 2 {
        assert(name[1] == chars@[start + 1]);
        if chars[start] == '.' && chars[start + 1] == '.' {
            assert(name =~= seq!['.', '.']);
            return None;
        }
    }
    let mut end: usize = start + 1;
    while end < chars.len() && chars[end] != '.'
        invariant
            start < end <= chars.len(),
            name == chars@.subrange(start as int, chars.len() as int),
            run_end(name, 1, CharClass::Stem) == run_end(name, end - start, CharClass::Stem),
        decreases chars.len() - end,
    {
        assert(name[end - start] == chars@[end as int]);
        end += 1;
    }
    assert(end < chars.len() ==> name[end - start] == chars@[end as int]);
    let r = substring(&chars, start, end);
    assert(r@ =~= name.subrange(0, end - start));
    Some(r)
}

} // verus!
