//! ANSI pass-through: style runs assigned at parse time.
//!
//! A line's raw bytes may carry CSI sequences (an escape byte followed
//! by `[`, parameter bytes, and one final byte). The scanner strips
//! every CSI sequence from the text and turns each select-graphic-
//! rendition sequence (final byte `m`) into a style run over the
//! stripped text: the run's style is the raw value of the sequence's
//! first parameter, and zero (or no parameter) means unstyled. A lone
//! escape byte is dropped; any other CSI sequence is stripped without
//! leaving a run.

use vstd::prelude::*;

use crate::line::StyleRun;

verus! {

/// A CSI parameter or intermediate byte.
pub open spec fn is_csi_body(b: u8) -> bool {
    0x20 <= b <= 0x3f
}

/// A CSI final byte.
pub open spec fn is_csi_final(b: u8) -> bool {
    0x40 <= b <= 0x7e
}

/// An ASCII decimal digit.
pub open spec fn is_digit(b: u8) -> bool {
    0x30 <= b <= 0x39
}

/// How many CSI body bytes follow from position `j`.
pub open spec fn csi_len(bytes: Seq<u8>, j: int) -> nat
    decreases bytes.len() - j,
{
    if j < 0 || j >= bytes.len() {
        0
    } else if is_csi_body(bytes[j]) {
        1 + csi_len(bytes, j + 1)
    } else {
        0
    }
}

/// The value of the first parameter of a CSI sequence whose body spans
/// `[j, end)`: up to three leading decimal digits, zero when none.
pub open spec fn param_of(bytes: Seq<u8>, j: int, end: int) -> u32 {
    if j < end && is_digit(bytes[j]) {
        if j + 1 < end && is_digit(bytes[j + 1]) {
            if j + 2 < end && is_digit(bytes[j + 2]) {
                ((bytes[j] - 0x30) * 100 + (bytes[j + 1] - 0x30) * 10 + (bytes[j + 2]
                    - 0x30)) as u32
            } else {
                ((bytes[j] - 0x30) * 10 + (bytes[j + 1] - 0x30)) as u32
            }
        } else {
            (bytes[j] - 0x30) as u32
        }
    } else {
        0
    }
}

/// Scanner state: the stripped text so far, the finished runs, the
/// current style, and where in the stripped text it began.
#[verifier::ext_equal]
pub struct ScanV {
    pub clean: Seq<u8>,
    pub runs: Seq<StyleRun>,
    pub style: u32,
    pub mark: int,
}

/// The scanner's start state.
pub open spec fn init_scan() -> ScanV {
    ScanV { clean: Seq::empty(), runs: Seq::empty(), style: 0, mark: 0 }
}

/// Finishes the current styled span, if it is non-empty and styled.
pub open spec fn close_run(st: ScanV) -> Seq<StyleRun> {
    if st.style != 0 && st.mark < st.clean.len() {
        st.runs.push(
            StyleRun { start: st.mark as usize, end: st.clean.len() as usize, style: st.style },
        )
    } else {
        st.runs
    }
}

/// The scan of `bytes` from position `i` onwards, in state `st`.
pub open spec fn scan_from(bytes: Seq<u8>, i: int, st: ScanV) -> ScanV
    decreases bytes.len() - i,
{
    if i < 0 || i >= bytes.len() {
        ScanV { runs: close_run(st), ..st }
    } else if bytes[i] == 27 && i + 1 < bytes.len() && bytes[i + 1] == 0x5b {
        let j = i + 2;
        let end = if j + csi_len(bytes, j) <= bytes.len() {
            j + csi_len(bytes, j)
        } else {
            bytes.len() as int
        };
        if end < bytes.len() && is_csi_final(bytes[end]) {
            if bytes[end] == 0x6d {
                scan_from(
                    bytes,
                    end + 1,
                    ScanV {
                        clean: st.clean,
                        runs: close_run(st),
                        style: param_of(bytes, j, end),
                        mark: st.clean.len() as int,
                    },
                )
            } else {
                scan_from(bytes, end + 1, st)
            }
        } else {
            scan_from(bytes, end, st)
        }
    } else if bytes[i] == 27 {
        scan_from(bytes, i + 1, st)
    } else {
        scan_from(bytes, i + 1, ScanV { clean: st.clean.push(bytes[i]), ..st })
    }
}

/// The text of a raw line with every CSI sequence and lone escape byte
/// stripped.
pub open spec fn sgr_clean(bytes: Seq<u8>) -> Seq<u8> {
    scan_from(bytes, 0, init_scan()).clean
}

/// The style runs its select-graphic-rendition sequences assign.
pub open spec fn sgr_runs(bytes: Seq<u8>) -> Seq<StyleRun> {
    scan_from(bytes, 0, init_scan()).runs
}

/// Strips the CSI sequences out of one raw line and returns the
/// stripped text together with the style runs they assigned.
pub fn scan_styles(bytes: &Vec<u8>) -> (r: (Vec<u8>, Vec<StyleRun>))
    ensures
        r.0@ == sgr_clean(bytes@),
        r.1@ == sgr_runs(bytes@),
{
    let n = bytes.len();
    let mut clean: Vec<u8> = Vec::new();
    let mut runs: Vec<StyleRun> = Vec::new();
    let mut style: u32 = 0;
    let mut mark: usize = 0;
    let mut i: usize = 0;
    proof {
        assert(ScanV { clean: clean@, runs: runs@, style, mark: mark as int } =~= init_scan());
    }
    while i < n
        invariant
            n == bytes@.len(),
            i <= n,
            mark <= clean@.len(),
            scan_from(bytes@, 0, init_scan()) == scan_from(
                bytes@,
                i as int,
                ScanV { clean: clean@, runs: runs@, style, mark: mark as int },
            ),
        decreases n - i,
    {
        let ghost st0 = ScanV { clean: clean@, runs: runs@, style, mark: mark as int };
        let b = bytes[i];
        if b == 27 && i + 1 < n && bytes[i + 1] == 0x5b {
            let j = i + 2;
            let mut end = j;
            while end < n && 0x20 <= bytes[end] && bytes[end] <= 0x3f
                invariant
                    n == bytes@.len(),
                    j <= end <= n,
                    csi_len(bytes@, j as int) == (end - j) + csi_len(bytes@, end as int),
                decreases n - end,
            {
                end += 1;
            }
            proof {
                assert(csi_len(bytes@, end as int) == 0);
                assert(end == j + csi_len(bytes@, j as int));
            }
            if end < n && 0x40 <= bytes[end] && bytes[end] <= 0x7e {
                if bytes[end] == 0x6d {
                    if style != 0 && mark < clean.len() {
                        runs.push(StyleRun { start: mark, end: clean.len(), style });
                    }
                    proof {
                        assert(runs@ =~= close_run(st0));
                    }
                    let mut v: u32 = 0;
                    if j < end && 0x30 <= bytes[j] && bytes[j] <= 0x39 {
                        let d0 = (bytes[j] - 0x30) as u32;
                        if j + 1 < end && 0x30 <= bytes[j + 1] && bytes[j + 1]
                            <= 0x39 {
                            let d1 = (bytes[j + 1] - 0x30) as u32;
                            if j + 2 < end && 0x30 <= bytes[j + 2] && bytes[j + 2]
                                <= 0x39 {
                                let d2 = (bytes[j + 2] - 0x30) as u32;
                                v = d0 * 100 + d1 * 10 + d2;
                            } else {
                                v = d0 * 10 + d1;
                            }
                        } else {
                            v = d0;
                        }
                    }
                    proof {
                        assert(v == param_of(bytes@, j as int, end as int));
                    }
                    style = v;
                    mark = clean.len();
                    i = end + 1;
                    proof {
                        assert(ScanV { clean: clean@, runs: runs@, style, mark: mark as int }
                            =~= ScanV {
                            clean: st0.clean,
                            runs: close_run(st0),
                            style: param_of(bytes@, j as int, end as int),
                            mark: st0.clean.len() as int,
                        });
                    }
                } else {
                    i = end + 1;
                }
            } else {
                i = end;
            }
        } else if b == 27 {
            i += 1;
        } else {
            clean.push(b);
            i += 1;
            proof {
                assert(ScanV { clean: clean@, runs: runs@, style, mark: mark as int }
                    =~= ScanV { clean: st0.clean.push(bytes@[i - 1]), ..st0 });
            }
        }
    }
    let ghost st_end = ScanV { clean: clean@, runs: runs@, style, mark: mark as int };
    if style != 0 && mark < clean.len() {
        runs.push(StyleRun { start: mark, end: clean.len(), style });
    }
    proof {
        assert(runs@ =~= close_run(st_end));
        assert(clean@ == scan_from(bytes@, 0, init_scan()).clean);
        assert(runs@ == scan_from(bytes@, 0, init_scan()).runs);
    }
    (clean, runs)
}

} // verus!
