//! The line store: an append-only, randomly indexable sequence of lines.
//!
//! The store is the single source of truth for scrollback content. Only
//! the controller appends; readers observe a monotonically growing,
//! otherwise immutable prefix. Indices are contiguous from zero and an
//! entry is never edited or removed after being appended.

use vstd::prelude::*;

use crate::line::{Line, LineV};

verus! {

/// Append-only sequence of [`Line`]s, viewed as a `Seq<LineV>`.
pub struct LineStore {
    lines: Vec<Line>,
}

impl View for LineStore {
    type V = Seq<LineV>;

    closed spec fn view(&self) -> Seq<LineV> {
        self.lines@.map(|i: int, l: Line| l@)
    }
}

impl LineStore {
    /// An empty store.
    pub fn new() -> (r: LineStore)
        ensures
            r@ == Seq::<LineV>::empty(),
    {
        let r = LineStore { lines: Vec::new() };
        proof {
            assert(r@ =~= Seq::<LineV>::empty());
        }
        r
    }

    /// Current number of lines.
    pub fn len(&self) -> (r: usize)
        ensures
            r == self@.len(),
    {
        self.lines.len()
    }

    /// Appends a line and returns its index: always the previous length,
    /// so indices are contiguous from zero. Every earlier entry is left
    /// exactly as it was.
    pub fn append(&mut self, line: Line) -> (idx: usize)
        ensures
            final(self)@ == old(self)@.push(line@),
            idx == old(self)@.len(),
    {
        let idx = self.lines.len();
        let ghost prev = self.lines@;
        self.lines.push(line);
        proof {
            assert(self@ =~= prev.map(|i: int, l: Line| l@).push(self.lines@[prev.len() as int]@));
        }
        idx
    }

    /// Random access to any previously appended line.
    pub fn get(&self, index: usize) -> (r: &Line)
        requires
            index < self@.len(),
        ensures
            r@ == self@[index as int],
    {
        &self.lines[index]
    }
}

/// Law: appending never disturbs the existing prefix. After an append
/// the length grows by one, every index below the old length still holds
/// the line exactly as it was appended, and the new line sits at the old
/// length, so indices stay contiguous from zero.
pub proof fn lemma_append_preserves_prefix(prefix: Seq<LineV>, l: LineV)
    ensures
        prefix.push(l).len() == prefix.len() + 1,
        forall|i: int| 0 <= i < prefix.len() ==> prefix.push(l)[i] == prefix[i],
        prefix.push(l)[prefix.len() as int] == l,
{
}

} // verus!
