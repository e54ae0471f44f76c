//! The search engine: compiles a pattern and keeps an ordered match set
//! in sync with a growing line store.
//!
//! Matching is line-local (a match never spans two lines) and delegated
//! to the regex crate behind trusted wrappers. The match set is ordered
//! by (line index, start offset) and only ever extended as new lines
//! arrive; a new pattern discards it and rescans the whole store.

use vstd::prelude::*;

use regex::Error as RegexError;

use crate::error::Error;
use crate::line::LineV;
use crate::store::LineStore;

verus! {

#[verifier::external_type_specification]
#[verifier::external_body]
pub struct ExRegex(regex::Regex);

#[verifier::external_type_specification]
#[verifier::external_body]
pub struct ExRegexError(RegexError);

/// Whether `regex::Regex::new` accepts a pattern: compilation succeeds
/// or fails depending on the pattern text alone.
pub uninterp spec fn pattern_ok(pat: Seq<char>) -> bool;

/// The pattern a compiled regex matches as, under `regex::Regex::new`'s
/// default configuration. For a regex built by `Regex::new` — the only
/// way this crate builds one — it is the original pattern string, what
/// `Regex::as_str` returns.
pub uninterp spec fn regex_pattern(re: regex::Regex) -> Seq<char>;

/// The byte ranges that `regex::Regex::find_iter` yields for a pattern
/// on one line of text: a function of the pattern and the text alone.
pub uninterp spec fn line_matches(pat: Seq<char>, text: Seq<char>) -> Seq<(usize, usize)>;

/// Relies on regex::Regex::new: the same pattern always compiles to the
/// same outcome, and the compiled regex keeps the original pattern
/// string (what `Regex::as_str` returns).
#[verifier::external_body]
fn compile_pattern(pat: &Vec<char>) -> (r: core::result::Result<regex::Regex, RegexError>)
    ensures
        r is Ok <==> pattern_ok(pat@),
        r matches Ok(re) ==> regex_pattern(re) == pat@,
{
    let p: String = pat.iter().collect();
    regex::Regex::new(&p)
}

/// Relies on regex::Regex::find_iter: it yields successive
/// non-overlapping matches from left to right as byte ranges with
/// start <= end, and what it yields is determined by the pattern the
/// regex was compiled from and the haystack alone.
#[verifier::external_body]
fn find_in_line(re: &regex::Regex, hay: &str) -> (r: Vec<(usize, usize)>)
    ensures
        r@ == line_matches(regex_pattern(*re), hay@),
        forall|i: int| 0 <= i < r@.len() ==> (#[trigger] r@[i]).0 <= r@[i].1,
        forall|i: int| 0 <= i + 1 < r@.len() ==> (#[trigger] r@[i]).1 <= r@[i + 1].0,
{
    re.find_iter(hay).map(|m| (m.start(), m.end())).collect()
}

/// One located occurrence of the active pattern: a byte range inside
/// the line at index `line`.
#[derive(Clone, Copy, PartialEq, Eq, Structural, Debug)]
pub struct Match {
    pub line: usize,
    pub start: usize,
    pub end: usize,
}

/// The text of each stored line.
pub open spec fn texts_of(lines: Seq<LineV>) -> Seq<Seq<char>> {
    lines.map(|i: int, l: LineV| l.text)
}

/// A found byte range on line `idx`, as a [`Match`].
pub open spec fn mk_match(idx: usize, p: (usize, usize)) -> Match {
    Match { line: idx, start: p.0, end: p.1 }
}

/// All matches of `pat` on the line at index `idx`.
pub open spec fn matches_on_line(pat: Seq<char>, text: Seq<char>, idx: usize) -> Seq<Match> {
    line_matches(pat, text).map(|k: int, p: (usize, usize)| mk_match(idx, p))
}

/// All matches of `pat` on the first `n` stored lines, in store order.
pub open spec fn matches_up_to(pat: Seq<char>, texts: Seq<Seq<char>>, n: int) -> Seq<Match>
    decreases n,
{
    if n <= 0 {
        Seq::empty()
    } else {
        matches_up_to(pat, texts, n - 1) + matches_on_line(pat, texts[n - 1], (n - 1) as usize)
    }
}

/// Order on matches: by line index, then by start offset.
pub open spec fn match_le(a: Match, b: Match) -> bool {
    a.line < b.line || (a.line == b.line && a.start <= b.start)
}

/// The match set is ordered by (line index, start offset).
pub open spec fn matches_ordered(ms: Seq<Match>) -> bool {
    forall|i: int, j: int| 0 <= i < j < ms.len() ==> match_le(#[trigger] ms[i], #[trigger] ms[j])
}

/// Strict order on positions (line, offset).
pub open spec fn pos_lt(l1: usize, o1: usize, l2: usize, o2: usize) -> bool {
    l1 < l2 || (l1 == l2 && o1 < o2)
}

/// The first match in `ms` strictly after position (line, offset).
pub open spec fn first_match_after(ms: Seq<Match>, line: usize, offset: usize) -> Option<Match>
    decreases ms.len(),
{
    if ms.len() == 0 {
        None
    } else if pos_lt(line, offset, ms[0].line, ms[0].start) {
        Some(ms[0])
    } else {
        first_match_after(ms.drop_first(), line, offset)
    }
}

/// The last match in `ms` strictly before position (line, offset).
pub open spec fn last_match_before(ms: Seq<Match>, line: usize, offset: usize) -> Option<Match>
    decreases ms.len(),
{
    if ms.len() == 0 {
        None
    } else if pos_lt(ms.last().line, ms.last().start, line, offset) {
        Some(ms.last())
    } else {
        last_match_before(ms.drop_last(), line, offset)
    }
}

/// Adjacent sortedness of found ranges extends to all pairs.
proof fn lemma_pairs_sorted(r: Seq<(usize, usize)>, i: int, j: int)
    requires
        forall|k: int| 0 <= k < r.len() ==> (#[trigger] r[k]).0 <= r[k].1,
        forall|k: int| 0 <= k + 1 < r.len() ==> (#[trigger] r[k]).1 <= r[k + 1].0,
        0 <= i < j < r.len(),
    ensures
        r[i].0 <= r[j].0,
    decreases j - i,
{
    if i + 1 < j {
        lemma_pairs_sorted(r, i + 1, j);
    }
}

/// Appending the matches of one new line keeps the set ordered, when
/// every existing match sits on an earlier line and the found ranges
/// are sorted and non-overlapping.
proof fn lemma_ordered_append(base: Seq<Match>, found: Seq<(usize, usize)>, idx: usize)
    requires
        matches_ordered(base),
        forall|k: int| 0 <= k < base.len() ==> (#[trigger] base[k]).line < idx,
        forall|k: int| 0 <= k < found.len() ==> (#[trigger] found[k]).0 <= found[k].1,
        forall|k: int| 0 <= k + 1 < found.len() ==> (#[trigger] found[k]).1 <= found[k + 1].0,
    ensures
        matches_ordered(base + found.map(|k: int, p: (usize, usize)| mk_match(idx, p))),
{
    let mapped = found.map(|k: int, p: (usize, usize)| mk_match(idx, p));
    let all = base + mapped;
    assert forall|i: int, j: int| 0 <= i < j < all.len() implies match_le(all[i], all[j]) by {
        if i >= base.len() {
            lemma_pairs_sorted(found, i - base.len(), j - base.len());
        }
    }
}

/// Matches over the first `n` lines do not depend on any line at or
/// beyond `n`.
pub proof fn lemma_matches_up_to_prefix(
    pat: Seq<char>,
    t1: Seq<Seq<char>>,
    t2: Seq<Seq<char>>,
    n: int,
)
    requires
        forall|k: int| 0 <= k < n ==> t1[k] == t2[k],
    ensures
        matches_up_to(pat, t1, n) == matches_up_to(pat, t2, n),
    decreases n,
{
    if n > 0 {
        lemma_matches_up_to_prefix(pat, t1, t2, n - 1);
    }
}

/// An active search: the compiled pattern together with the ordered
/// match set over the prefix of the store scanned so far.
pub struct SearchState {
    pattern: Vec<char>,
    re: regex::Regex,
    matches: Vec<Match>,
    scanned: usize,
}

impl SearchState {
    /// The pattern this search was built from.
    pub closed spec fn pattern(&self) -> Seq<char> {
        self.pattern@
    }

    /// How many stored lines have been scanned.
    pub closed spec fn scanned(&self) -> nat {
        self.scanned as nat
    }

    /// The ordered match set found so far.
    pub closed spec fn matches(&self) -> Seq<Match> {
        self.matches@
    }

    /// Internal invariant: the held regex was compiled from `pattern`,
    /// and the match set is ordered and confined to scanned lines.
    pub closed spec fn wf(&self) -> bool {
        &&& regex_pattern(self.re) == self.pattern@
        &&& matches_ordered(self.matches@)
        &&& forall|k: int| 0 <= k < self.matches@.len() ==> (#[trigger] self.matches@[k]).line
            < self.scanned
    }

    /// The match set is exactly the matches of the pattern on the
    /// scanned prefix of `lines`.
    pub open spec fn synced(&self, lines: Seq<LineV>) -> bool {
        &&& self.scanned() <= lines.len()
        &&& self.matches() == matches_up_to(self.pattern(), texts_of(lines), self.scanned() as int)
    }

    /// Compiles `pattern` into a fresh search with an empty match set.
    /// Fails with [`Error::Pattern`] exactly on the patterns the regex
    /// syntax rejects.
    pub fn new(pattern: Vec<char>) -> (r: core::result::Result<SearchState, Error>)
        ensures
            r is Ok <==> pattern_ok(pattern@),
            r matches Ok(s) ==> s.wf() && s.pattern() == pattern@ && s.matches()
                == Seq::<Match>::empty() && s.scanned() == 0,
            r matches Err(e) ==> e matches Error::Pattern { pattern: p } && p@ == pattern@,
    {
        match compile_pattern(&pattern) {
            Ok(re) => Ok(SearchState { pattern, re, matches: Vec::new(), scanned: 0 }),
            Err(_) => Err(Error::Pattern { pattern }),
        }
    }

    /// Scans the lines appended since the last call and appends their
    /// matches, in (line, start) order. Never reorders or drops a match
    /// already found.
    pub fn extend(&mut self, store: &LineStore)
        requires
            old(self).wf(),
            old(self).synced(store@),
        ensures
            final(self).wf(),
            final(self).pattern() == old(self).pattern(),
            final(self).scanned() == store@.len(),
            final(self).synced(store@),
            matches_ordered(final(self).matches()),
            old(self).matches().is_prefix_of(final(self).matches()),
    {
        let ghost pat = self.pattern@;
        let ghost texts = texts_of(store@);
        let n = store.len();
        while self.scanned < n
            invariant
                self.wf(),
                pat == self.pattern@,
                texts == texts_of(store@),
                n == store@.len(),
                self.scanned <= n,
                self.matches@ == matches_up_to(pat, texts, self.scanned as int),
                old(self).matches().is_prefix_of(self.matches@),
                regex_pattern(self.re) == pat,
            decreases n - self.scanned,
        {
            let idx = self.scanned;
            let line = store.get(idx);
            let found = find_in_line(&self.re, line.text.as_str());
            let ghost base = self.matches@;
            proof {
                assert(texts[idx as int] == store@[idx as int].text);
                lemma_ordered_append(base, found@, idx);
            }
            let mut k: usize = 0;
            while k < found.len()
                invariant
                    k <= found@.len(),
                    self.matches@ == base + found@.take(k as int).map(
                        |k2: int, p: (usize, usize)| mk_match(idx, p),
                    ),
                    self.pattern@ == pat,
                    self.scanned == idx,
                    regex_pattern(self.re) == pat,
                decreases found@.len() - k,
            {
                let (s, e) = found[k];
                self.matches.push(Match { line: idx, start: s, end: e });
                proof {
                    assert(found@.take(k + 1).map(|k2: int, p: (usize, usize)| mk_match(idx, p))
                        =~= found@.take(k as int).map(
                        |k2: int, p: (usize, usize)| mk_match(idx, p),
                    ).push(mk_match(idx, found@[k as int])));
                }
                k += 1;
            }
            proof {
                assert(found@.take(found@.len() as int) =~= found@);
                assert(self.matches@ =~= base + matches_on_line(pat, texts[idx as int], idx));
            }
            self.scanned = idx + 1;
        }
    }

    /// The match nearest to position (line, offset): the first strictly
    /// after it when `forward`, the last strictly before it otherwise.
    /// Returns `None` when no such match exists; wrap-around at the
    /// buffer ends is the caller's policy, never applied here.
    pub fn next_match(&self, line: usize, offset: usize, forward: bool) -> (r: Option<Match>)
        ensures
            forward ==> r == first_match_after(self.matches(), line, offset),
            !forward ==> r == last_match_before(self.matches(), line, offset),
    {
        let n = self.matches.len();
        if forward {
            let mut i: usize = 0;
            proof {
                assert(self.matches@.skip(0) =~= self.matches@);
            }
            while i < n
                invariant
                    forward,
                    n == self.matches@.len(),
                    i <= n,
                    first_match_after(self.matches@, line, offset) == first_match_after(
                        self.matches@.skip(i as int),
                        line,
                        offset,
                    ),
                decreases n - i,
            {
                let m = self.matches[i];
                proof {
                    assert(self.matches@.skip(i as int)[0] == self.matches@[i as int]);
                    assert(self.matches@.skip(i as int).drop_first() =~= self.matches@.skip(
                        i as int + 1,
                    ));
                }
                if line < m.line || (line == m.line && offset < m.start) {
                    proof {
                        assert(pos_lt(line, offset, m.line, m.start));
                        assert(first_match_after(self.matches@.skip(i as int), line, offset)
                            == Some(m));
                    }
                    return Some(m);
                }
                i += 1;
            }
            proof {
                assert(self.matches@.skip(n as int) =~= Seq::<Match>::empty());
            }
            None
        } else {
            let mut i: usize = n;
            proof {
                assert(self.matches@.take(n as int) =~= self.matches@);
            }
            while i > 0
                invariant
                    !forward,
                    n == self.matches@.len(),
                    i <= n,
                    last_match_before(self.matches@, line, offset) == last_match_before(
                        self.matches@.take(i as int),
                        line,
                        offset,
                    ),
                decreases i,
            {
                let m = self.matches[i - 1];
                proof {
                    assert(self.matches@.take(i as int).last() == self.matches@[i as int - 1]);
                    assert(self.matches@.take(i as int).drop_last() =~= self.matches@.take(
                        i as int - 1,
                    ));
                }
                if m.line < line || (m.line == line && m.start < offset) {
                    proof {
                        assert(pos_lt(m.line, m.start, line, offset));
                        assert(last_match_before(self.matches@.take(i as int), line, offset)
                            == Some(m));
                    }
                    return Some(m);
                }
                i -= 1;
            }
            None
        }
    }

    /// The whole match set, for painting highlights.
    pub fn all_matches(&self) -> (r: &Vec<Match>)
        ensures
            r@ == self.matches(),
    {
        &self.matches
    }
}

/// Law: on an ordered match set — which [`SearchState::extend`] always
/// maintains — the first match after a position in sequence order is
/// also the nearest one: every other match past the position sits at
/// or beyond it.
pub proof fn lemma_first_after_is_nearest(ms: Seq<Match>, line: usize, offset: usize)
    requires
        matches_ordered(ms),
    ensures
        first_match_after(ms, line, offset) is None ==> forall|k: int|
            0 <= k < ms.len() ==> !pos_lt(line, offset, (#[trigger] ms[k]).line, ms[k].start),
        first_match_after(ms, line, offset) matches Some(m) ==> ms.contains(m) && pos_lt(
            line,
            offset,
            m.line,
            m.start,
        ) && forall|k: int|
            0 <= k < ms.len() && pos_lt(line, offset, (#[trigger] ms[k]).line, ms[k].start)
                ==> match_le(m, ms[k]),
    decreases ms.len(),
{
    if ms.len() > 0 {
        if pos_lt(line, offset, ms[0].line, ms[0].start) {
            assert(0 <= 0 < ms.len() && ms[0] == ms[0]);
            assert(ms.contains(ms[0]));
        } else {
            let tail = ms.drop_first();
            assert(matches_ordered(tail)) by {
                assert forall|i: int, j: int| 0 <= i < j < tail.len() implies match_le(
                    #[trigger] tail[i],
                    #[trigger] tail[j],
                ) by {
                    assert(tail[i] == ms[i + 1] && tail[j] == ms[j + 1]);
                }
            }
            lemma_first_after_is_nearest(tail, line, offset);
            if let Some(m) = first_match_after(ms, line, offset) {
                let w = choose|i: int| 0 <= i < tail.len() && tail[i] == m;
                assert(ms[w + 1] == m);
                assert(ms.contains(m));
                assert forall|k: int|
                    0 <= k < ms.len() && pos_lt(line, offset, (#[trigger] ms[k]).line, ms[k].start)
                    implies match_le(m, ms[k]) by {
                    assert(k > 0 && tail[k - 1] == ms[k]);
                }
            } else {
                assert forall|k: int| 0 <= k < ms.len() implies !pos_lt(
                    line,
                    offset,
                    (#[trigger] ms[k]).line,
                    ms[k].start,
                ) by {
                    if k > 0 {
                        assert(tail[k - 1] == ms[k]);
                    }
                }
            }
        }
    }
}

/// Law: symmetrically, the last match before a position in sequence
/// order is the nearest one below it on an ordered match set.
pub proof fn lemma_last_before_is_nearest(ms: Seq<Match>, line: usize, offset: usize)
    requires
        matches_ordered(ms),
    ensures
        last_match_before(ms, line, offset) is None ==> forall|k: int|
            0 <= k < ms.len() ==> !pos_lt((#[trigger] ms[k]).line, ms[k].start, line, offset),
        last_match_before(ms, line, offset) matches Some(m) ==> ms.contains(m) && pos_lt(
            m.line,
            m.start,
            line,
            offset,
        ) && forall|k: int|
            0 <= k < ms.len() && pos_lt((#[trigger] ms[k]).line, ms[k].start, line, offset)
                ==> match_le(ms[k], m),
    decreases ms.len(),
{
    if ms.len() > 0 {
        let n = ms.len() as int;
        if pos_lt(ms.last().line, ms.last().start, line, offset) {
            assert(0 <= n - 1 < ms.len() && ms[n - 1] == ms.last());
            assert(ms.contains(ms.last()));
        } else {
            let head = ms.drop_last();
            assert(matches_ordered(head)) by {
                assert forall|i: int, j: int| 0 <= i < j < head.len() implies match_le(
                    #[trigger] head[i],
                    #[trigger] head[j],
                ) by {
                    assert(head[i] == ms[i] && head[j] == ms[j]);
                }
            }
            lemma_last_before_is_nearest(head, line, offset);
            if let Some(m) = last_match_before(ms, line, offset) {
                let w = choose|i: int| 0 <= i < head.len() && head[i] == m;
                assert(ms[w] == m);
                assert(ms.contains(m));
                assert forall|k: int|
                    0 <= k < ms.len() && pos_lt((#[trigger] ms[k]).line, ms[k].start, line, offset)
                    implies match_le(ms[k], m) by {
                    assert(k < n - 1 && head[k] == ms[k]);
                }
            } else {
                assert forall|k: int| 0 <= k < ms.len() implies !pos_lt(
                    (#[trigger] ms[k]).line,
                    ms[k].start,
                    line,
                    offset,
                ) by {
                    if k < n - 1 {
                        assert(head[k] == ms[k]);
                    }
                }
            }
        }
    }
}

/// Law: search is deterministic. Two searches over the same pattern,
/// each in sync with the same store prefix, hold identical match sets:
/// the matches are a function of the pattern and the stored text alone,
/// so re-running a search against the same store reproduces it exactly.
pub proof fn lemma_search_deterministic(a: SearchState, b: SearchState, lines: Seq<LineV>)
    requires
        a.pattern() == b.pattern(),
        a.scanned() == b.scanned(),
        a.synced(lines),
        b.synced(lines),
    ensures
        a.matches() == b.matches(),
{
}

} // verus!
