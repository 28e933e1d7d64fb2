//! Writing a syntax tree out as minified CSS.

use vstd::prelude::*;

verus! {

/// A node of the syntax tree that can be written out as CSS.
pub trait RenderCss {
    /// The text of the node: minified CSS.
    spec fn css(&self) -> Seq<char>;

    /// Appends the text of the node to `out`.
    fn render(&self, out: &mut String)
        ensures
            final(out)@ == old(out)@ + self.css(),
    ;

    /// The text of the node as a string of its own.
    fn as_css_string(&self) -> (text: String)
        ensures
            text@ == self.css(),
    {
        let mut text = String::new();
        self.render(&mut text);
        assert(text@ =~= self.css());
        text
    }
}

} // verus!
