//! Conversions between strings and sequences of characters.

use vstd::prelude::*;
use vstd::string::StringExecFns;

verus! {

/// `String::push` appends one character to the end of the string.
pub assume_specification[ String::push ](s: &mut String, ch: char)
    ensures
        final(s)@ == old(s)@.push(ch),
;

/// The characters of `s`, in order.
pub fn chars_of(s: &str) -> (out: Vec<char>)
    ensures
        out@ == s@,
{
    let mut out: Vec<char> = Vec::new();
    for c in it: s.chars()
        invariant
            it.seq() == s@,
            out@ == s@.take(it.index()),
    {
        out.push(c);
    }
    assert(out@ == s@.take(s@.len() as int));
    out
}

/// Appends the characters `chars[from..to]` to `out`.
pub fn push_range(out: &mut String, chars: &Vec<char>, from: usize, to: usize)
    requires
        from <= to <= chars.len(),
    ensures
        final(out)@ == old(out)@ + chars@.subrange(from as int, to as int),
{
    let mut i: usize = from;
    while i < to
        invariant
            from <= i <= to <= chars.len(),
            out@ == old(out)@ + chars@.subrange(from as int, i as int),
        decreases to - i,
    {
        out.push(chars[i]);
        i += 1;
    }
}

/// The characters `chars[from..to]` as a string.
pub fn substring(chars: &Vec<char>, from: usize, to: usize) -> (out: String)
    requires
        from <= to <= chars.len(),
    ensures
        out@ == chars@.subrange(from as int, to as int),
{
    let mut out = String::new();
    push_range(&mut out, chars, from, to);
    out
}

/// Whether the characters of `lit` stand in `s` from position `pos` on.
pub open spec fn starts_with(s: Seq<char>, pos: int, lit: Seq<char>) -> bool {
    0 <= pos && pos + lit.len() <= s.len() && s.subrange(pos, pos + lit.len()) == lit
}

/// Whether the character `c` stands in `s` at position `pos`.
pub open spec fn at(s: Seq<char>, pos: int, c: char) -> bool {
    0 <= pos < s.len() && s[pos] == c
}

/// Tests whether `c` stands in `input` at position `pos`.
pub fn is_at(input: &Vec<char>, pos: usize, c: char) -> (r: bool)
    ensures
        r == at(input@, pos as int, c),
{
    pos < input.len() && input[pos] == c
}

/// Tests whether the two characters `a`, `b` stand in `input` from `pos` on.
pub fn is_at2(input: &Vec<char>, pos: usize, a: char, b: char) -> (r: bool)
    ensures
        r == starts_with(input@, pos as int, seq![a, b]),
{
    if pos < input.len() && input.len() - pos >= 2 {
        let r = input[pos] == a && input[pos + 1] == b;
        proof {
            let sub = input@.subrange(pos as int, pos + 2);
            assert(sub[0] == input@[pos as int]);
            assert(sub[1] == input@[pos + 1]);
            if r {
                assert(sub =~= seq![a, b]);
            }
        }
        r
    } else {
        false
    }
}


/// Tests whether `s` holds the same characters as `lit`.
pub fn text_is(s: &String, lit: &str) -> (r: bool)
    ensures
        r == (s@ == lit@),
{
    let other = String::from_str(lit);
    *s == other
}

/// Tests whether the characters of `lit` stand in `input` from `pos` on.
pub fn has_at(input: &Vec<char>, pos: usize, lit: &Vec<char>) -> (r: bool)
    ensures
        r == starts_with(input@, pos as int, lit@),
{
    if pos > input.len() || input.len() - pos < lit.len() {
        return false;
    }
    let mut i: usize = 0;
    while i < lit.len()
        invariant
            i <= lit.len(),
            pos + lit.len() <= input.len(),
            forall|k: int| 0 <= k < i ==> input@[pos + k] == lit@[k],
        decreases lit.len() - i,
    {
        if input[pos + i] != lit[i] {
            assert(input@.subrange(pos as int, pos + lit.len())[i as int] != lit@[i as int]);
            return false;
        }
        i += 1;
    }
    assert(input@.subrange(pos as int, pos + lit.len()) =~= lit@);
    true
}

} // verus!
