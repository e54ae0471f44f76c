//! Source adapter glue: raw byte chunks into decoded lines.
//!
//! Each source's reader thread feeds the bytes it reads through a
//! [`SourceBuffer`], which cuts them at line feeds without losing a
//! byte, and decodes each complete line; a decoding failure is reported
//! as the source's failure, carrying its title, never silently dropped.

use vstd::prelude::*;

use crate::ansi::{scan_styles, sgr_clean, sgr_runs};
use crate::error::Error;
use crate::line::Line;

verus! {

/// What decoding yields, as `String::from_utf8` computes it from the
/// bytes alone: the characters for valid UTF-8, nothing otherwise.
pub uninterp spec fn utf8_decode(bytes: Seq<u8>) -> Option<Seq<char>>;

/// Relies on String::from_utf8: it accepts exactly the valid UTF-8
/// byte sequences and decodes them to their characters.
#[verifier::external_body]
fn decode_utf8(bytes: Vec<u8>) -> (r: Option<String>)
    ensures
        r is Some <==> utf8_decode(bytes@) is Some,
        r matches Some(s) ==> utf8_decode(bytes@) == Some(s@),
{
    String::from_utf8(bytes).ok()
}

/// Copies a byte buffer.
fn copy_bytes(v: &Vec<u8>) -> (r: Vec<u8>)
    ensures
        r@ == v@,
{
    let mut r: Vec<u8> = Vec::new();
    let mut i: usize = 0;
    while i < v.len()
        invariant
            i <= v@.len(),
            r@ == v@.take(i as int),
        decreases v@.len() - i,
    {
        r.push(v[i]);
        proof {
            assert(v@.take(i + 1) =~= v@.take(i as int).push(v@[i as int]));
        }
        i += 1;
    }
    proof {
        assert(v@.take(v@.len() as int) =~= v@);
    }
    r
}

/// The bytes that a sequence of complete lines came from: each line
/// followed by the line feed that ended it.
pub open spec fn joined(lines: Seq<Seq<u8>>) -> Seq<u8>
    decreases lines.len(),
{
    if lines.len() == 0 {
        Seq::empty()
    } else {
        joined(lines.drop_last()) + lines.last() + seq![10u8]
    }
}

/// No byte of the sequence is a line feed.
pub open spec fn no_newline(bytes: Seq<u8>) -> bool {
    forall|i: int| 0 <= i < bytes.len() ==> bytes[i] != 10u8
}

/// Per-source carry-over of the bytes after the last line feed.
pub struct SourceBuffer {
    rest: Vec<u8>,
}

impl View for SourceBuffer {
    type V = Seq<u8>;

    closed spec fn view(&self) -> Seq<u8> {
        self.rest@
    }
}

impl SourceBuffer {
    /// An empty buffer, carrying nothing.
    pub fn new() -> (r: SourceBuffer)
        ensures
            r@ == Seq::<u8>::empty(),
            no_newline(r@),
    {
        let r = SourceBuffer { rest: Vec::new() };
        proof {
            assert(r@ =~= Seq::<u8>::empty());
        }
        r
    }

    /// Feeds one chunk of raw bytes and returns the complete lines it
    /// closes, without their line feeds. No byte is lost: the returned
    /// lines, each with its line feed, followed by the new carry-over,
    /// are exactly the old carry-over followed by the chunk; and no
    /// returned line nor the carry-over contains a line feed.
    pub fn feed(&mut self, chunk: &Vec<u8>) -> (lines: Vec<Vec<u8>>)
        requires
            no_newline(old(self)@),
        ensures
            joined(lines@.map(|i: int, l: Vec<u8>| l@)) + final(self)@ == old(self)@ + chunk@,
            forall|i: int| 0 <= i < lines@.len() ==> no_newline(#[trigger] lines@[i]@),
            no_newline(final(self)@),
    {
        let ghost total = self.rest@ + chunk@;
        let mut out: Vec<Vec<u8>> = Vec::new();
        let mut i: usize = 0;
        proof {
            assert(joined(out@.map(|k: int, l: Vec<u8>| l@)) + self.rest@ =~= total.take(
                self.rest@.len() as int,
            ));
        }
        let ghost carried = self.rest@.len() as int;
        while i < chunk.len()
            invariant
                i <= chunk@.len(),
                total == old(self)@ + chunk@,
                carried == old(self)@.len(),
                joined(out@.map(|k: int, l: Vec<u8>| l@)) + self.rest@ == total.take(
                    carried + i,
                ),
                forall|k: int| 0 <= k < out@.len() ==> no_newline(#[trigger] out@[k]@),
                no_newline(self.rest@),
            decreases chunk@.len() - i,
        {
            let b = chunk[i];
            proof {
                assert(total.take(carried + i + 1) =~= total.take(carried + i).push(
                    total[carried + i],
                ));
                assert(total[carried + i] == chunk@[i as int]);
            }
            if b == 10u8 {
                let ghost prev_map = out@.map(|k: int, l: Vec<u8>| l@);
                let ghost old_rest = self.rest@;
                let done = copy_bytes(&self.rest);
                self.rest.clear();
                out.push(done);
                proof {
                    let m = out@.map(|k: int, l: Vec<u8>| l@);
                    assert(m =~= prev_map.push(old_rest));
                    assert(m.drop_last() =~= prev_map);
                    assert(joined(m) == joined(prev_map) + old_rest + seq![10u8]);
                    assert(self.rest@ =~= Seq::<u8>::empty());
                    assert(joined(m) + self.rest@ =~= total.take(carried + i).push(10u8));
                    assert(joined(m) + self.rest@ =~= total.take(carried + i + 1));
                }
            } else {
                self.rest.push(b);
                proof {
                    assert(joined(out@.map(|k: int, l: Vec<u8>| l@)) + self.rest@ =~= total.take(
                        carried + i + 1,
                    ));
                }
            }
            i += 1;
        }
        proof {
            assert(total.take(carried + chunk@.len() as int) =~= total);
        }
        out
    }
}

/// Parses one complete line for the store: ANSI escape sequences are
/// stripped and become the line's style runs, and the remaining bytes
/// are decoded. Succeeds exactly when they are valid UTF-8, yielding a
/// line owned by `source`; on invalid bytes it fails with the source's
/// title as context.
pub fn parse_line(source: usize, bytes: Vec<u8>, title: &str) -> (r: core::result::Result<
    Line,
    Error,
>)
    ensures
        r is Ok <==> utf8_decode(sgr_clean(bytes@)) is Some,
        r matches Ok(l) ==> utf8_decode(sgr_clean(bytes@)) == Some(l@.text) && l@.source == source
            && l@.styles == sgr_runs(bytes@),
        r matches Err(e) ==> e matches Error::SourceIo { title: t } && t@ == title@,
    {
    let (clean, styles) = scan_styles(&bytes);
    match decode_utf8(clean) {
        Some(text) => Ok(Line { source, text, styles }),
        None => Err(Error::SourceIo { title: title.to_owned() }),
    }
}

} // verus!
