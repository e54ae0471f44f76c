//! The renderer's layout computations: which lines the viewport shows,
//! which matches fall inside the painted range, and how many rows a
//! wrapped line occupies. The surrounding binary turns the computed
//! plan into terminal writes; a full repaint of the plan is always
//! correct.

use vstd::prelude::*;

use crate::search::Match;

verus! {

/// First visible line index: the viewport top, clamped to the store.
pub open spec fn vis_first(len: usize, top: usize) -> usize {
    if top <= len {
        top
    } else {
        len
    }
}

/// One past the last visible line index.
pub open spec fn vis_end(len: usize, top: usize, height: usize) -> usize {
    if top + height <= len {
        (top + height) as usize
    } else {
        len
    }
}

/// The half-open range of store indices the viewport intersects.
pub fn visible_range(len: usize, top: usize, height: usize) -> (r: (usize, usize))
    ensures
        r.0 == vis_first(len, top),
        r.1 == vis_end(len, top, height),
        r.0 <= r.1 <= len,
{
    if top >= len {
        (len, len)
    } else if height < len - top {
        (top, top + height)
    } else {
        (top, len)
    }
}

/// The indices of the visible lines, in paint order.
pub fn plan_rows(len: usize, top: usize, height: usize) -> (rows: Vec<usize>)
    ensures
        rows@.len() == vis_end(len, top, height) - vis_first(len, top),
        forall|i: int| 0 <= i < rows@.len() ==> rows@[i] == vis_first(len, top) + i,
{
    let (first, end) = visible_range(len, top, height);
    let mut rows: Vec<usize> = Vec::new();
    let mut i: usize = first;
    while i < end
        invariant
            first <= i <= end,
            rows@.len() == i - first,
            forall|k: int| 0 <= k < rows@.len() ==> rows@[k] == first + k,
        decreases end - i,
    {
        rows.push(i);
        i += 1;
    }
    rows
}

/// The matches of `ms` whose line falls in `[first, end)`, in order.
pub open spec fn clipped(ms: Seq<Match>, first: usize, end: usize) -> Seq<Match>
    decreases ms.len(),
{
    if ms.len() == 0 {
        Seq::empty()
    } else {
        let rest = clipped(ms.drop_last(), first, end);
        if first <= ms.last().line < end {
            rest.push(ms.last())
        } else {
            rest
        }
    }
}

/// Overlay selection: exactly the matches within the painted range,
/// keeping their (line, start) order.
pub fn matches_in_view(ms: &Vec<Match>, first: usize, end: usize) -> (r: Vec<Match>)
    ensures
        r@ == clipped(ms@, first, end),
{
    let mut r: Vec<Match> = Vec::new();
    let mut i: usize = 0;
    while i < ms.len()
        invariant
            i <= ms@.len(),
            r@ == clipped(ms@.take(i as int), first, end),
        decreases ms@.len() - i,
    {
        let m = ms[i];
        proof {
            assert(ms@.take(i + 1).drop_last() =~= ms@.take(i as int));
            assert(ms@.take(i + 1).last() == ms@[i as int]);
        }
        if first <= m.line && m.line < end {
            r.push(m);
        }
        i += 1;
    }
    proof {
        assert(ms@.take(ms@.len() as int) =~= ms@);
    }
    r
}

/// How many rows a line of `len` characters occupies when wrapped at
/// `width` columns: at least one, even when empty.
pub open spec fn segs_of(len: usize, width: usize) -> int
    recommends
        width >= 1,
{
    if len == 0 {
        1
    } else {
        (len - 1) / (width as int) + 1
    }
}

/// Rows occupied by a wrapped line; in truncate mode every line
/// occupies exactly one row instead.
pub fn line_segments(len: usize, width: usize) -> (r: usize)
    requires
        width >= 1,
    ensures
        r == segs_of(len, width),
{
    if len == 0 {
        1
    } else {
        (len - 1) / width + 1
    }
}

} // verus!
