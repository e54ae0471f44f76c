//! Lines and their abstract view.

use vstd::prelude::*;

verus! {

/// One styled span inside a line: the half-open byte range
/// `[start, end)` is rendered with attribute `style`.
#[derive(Clone, Copy, PartialEq, Eq, Structural, Debug)]
pub struct StyleRun {
    pub start: usize,
    pub end: usize,
    pub style: u32,
}

/// One line of scrollback content. Immutable once appended to the
/// store: it carries its text, the styles assigned at parse time, and
/// the identifier of the source that produced it.
#[derive(Debug)]
pub struct Line {
    pub source: usize,
    pub text: String,
    pub styles: Vec<StyleRun>,
}

/// Mathematical view of a [`Line`]: the source identifier, the text as
/// a sequence of characters, and the style runs.
pub struct LineV {
    pub source: nat,
    pub text: Seq<char>,
    pub styles: Seq<StyleRun>,
}

impl View for Line {
    type V = LineV;

    open spec fn view(&self) -> LineV {
        LineV { source: self.source as nat, text: self.text@, styles: self.styles@ }
    }
}

} // verus!
