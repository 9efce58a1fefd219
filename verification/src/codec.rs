//! The dual-mode framing codec. A growing byte buffer is split into framed
//! units under the session's current mode: in the ASCII modes a unit is a
//! line ending at a line feed (inclusive); the binary KISS framing is
//! reserved and yields nothing; in the `Unknown` recovery mode all input is
//! discarded until a supervisor resets the device.

use vstd::prelude::*;

use crate::text::{find_byte, find_byte_exec, subvec, CR, LF};

verus! {

/// The mode shared between the codec and the session. It starts at
/// `Starting` when a session opens and moves only as the session directs.
#[derive(Clone, Copy, Debug, PartialEq, Eq, Structural)]
pub enum SessionMode {
    /// Recovery sink: the line is out of sync and inbound bytes are drained.
    Unknown,
    /// Waiting for the device's boot banner.
    Starting,
    /// Radio parameters sent; waiting for the acknowledgement.
    RadioSet,
    /// Steady-state receive of RXLOG records.
    Idle,
    /// Reserved binary framing; not specified by the device vendor yet.
    Kiss,
}

/// One framed unit taken off the wire.
#[derive(Clone, Debug, PartialEq, Eq)]
pub enum FramedUnit {
    /// A text line, line feed included. The bytes are well-formed UTF-8.
    AsciiLine(Vec<u8>),
    /// A binary KISS frame. Never produced while KISS framing is reserved.
    KissFrame(Vec<u8>),
}

/// A per-frame framing error; the session drops the unit and continues.
#[derive(Clone, Copy, Debug, PartialEq, Eq, Structural)]
pub enum FrameError {
    /// The bytes of a line are not well-formed UTF-8.
    InvalidEncoding,
}

/// The modes whose framing is line-oriented ASCII.
pub open spec fn ascii_mode(m: SessionMode) -> bool {
    m == SessionMode::Starting || m == SessionMode::RadioSet || m == SessionMode::Idle
}

/// A UTF-8 continuation byte.
pub open spec fn is_cont(b: u8) -> bool {
    0x80 <= b <= 0xBF
}

/// Well-formed UTF-8, by the byte-range table of the Unicode standard:
/// each scalar value is one byte below 0x80, or a two- to four-byte
/// sequence whose lead byte fixes the admissible ranges of its
/// continuation bytes (overlong forms, surrogates and values above
/// U+10FFFF excluded).
pub open spec fn is_utf8(s: Seq<u8>) -> bool
    decreases s.len(),
{
    if s.len() == 0 {
        true
    } else {
        let b0 = s[0];
        if b0 < 0x80 {
            is_utf8(s.skip(1))
        } else if 0xC2 <= b0 && b0 <= 0xDF {
            s.len() >= 2 && is_cont(s[1]) && is_utf8(s.skip(2))
        } else if b0 == 0xE0 {
            s.len() >= 3 && 0xA0 <= s[1] <= 0xBF && is_cont(s[2]) && is_utf8(s.skip(3))
        } else if 0xE1 <= b0 && b0 <= 0xEC || b0 == 0xEE || b0 == 0xEF {
            s.len() >= 3 && is_cont(s[1]) && is_cont(s[2]) && is_utf8(s.skip(3))
        } else if b0 == 0xED {
            s.len() >= 3 && 0x80 <= s[1] <= 0x9F && is_cont(s[2]) && is_utf8(s.skip(3))
        } else if b0 == 0xF0 {
            s.len() >= 4 && 0x90 <= s[1] <= 0xBF && is_cont(s[2]) && is_cont(s[3]) && is_utf8(
                s.skip(4),
            )
        } else if 0xF1 <= b0 && b0 <= 0xF3 {
            s.len() >= 4 && is_cont(s[1]) && is_cont(s[2]) && is_cont(s[3]) && is_utf8(s.skip(4))
        } else if b0 == 0xF4 {
            s.len() >= 4 && 0x80 <= s[1] <= 0x8F && is_cont(s[2]) && is_cont(s[3]) && is_utf8(
                s.skip(4),
            )
        } else {
            false
        }
    }
}

/// A sequence of ASCII bytes is well-formed UTF-8.
pub proof fn lemma_ascii_is_utf8(s: Seq<u8>)
    requires
        forall|i: int| 0 <= i < s.len() ==> s[i] < 0x80,
    ensures
        is_utf8(s),
    decreases s.len(),
{
    if s.len() > 0 {
        assert(forall|i: int| 0 <= i < s.skip(1).len() ==> s.skip(1)[i] == s[i + 1]);
        lemma_ascii_is_utf8(s.skip(1));
    }
}

/// Relies on `core::str::from_utf8`: it accepts exactly the well-formed
/// UTF-8 byte sequences of the Unicode standard's byte-range table, which
/// `is_utf8` restates.
#[verifier::external_body]
fn utf8_valid(bytes: &Vec<u8>) -> (r: bool)
    ensures
        r == is_utf8(bytes@),
{
    core::str::from_utf8(bytes).is_ok()
}

/// What decoding removes from the head of the buffer and hands back, under
/// mode `m` on buffer `buf`: the remaining buffer, paired with no unit yet,
/// a complete line, or a framing error.
pub open spec fn spec_decode(m: SessionMode, buf: Seq<u8>) -> (Seq<u8>, Result<
    Option<Seq<u8>>,
    FrameError,
>) {
    if m == SessionMode::Unknown {
        (Seq::empty(), Ok(None))
    } else if m == SessionMode::Kiss {
        (buf, Ok(None))
    } else {
        match find_byte(buf, LF) {
            None => (buf, Ok(None)),
            Some(n) => {
                let line = buf.take(n + 1);
                let rest = buf.skip(n + 1);
                if is_utf8(line) {
                    (rest, Ok(Some(line)))
                } else {
                    (rest, Err(FrameError::InvalidEncoding))
                }
            },
        }
    }
}

/// Removes one complete framed unit from the head of `buf` and returns it,
/// or returns nothing when no complete unit is present yet. In the ASCII
/// modes a unit is a line up to and including the next line feed; a line
/// that is not well-formed UTF-8 is removed and reported as an
/// `InvalidEncoding` error. KISS framing is reserved and never yields a
/// unit. In `Unknown` the whole buffer is discarded.
pub fn decode(m: SessionMode, buf: &mut Vec<u8>) -> (r: Result<Option<FramedUnit>, FrameError>)
    ensures
        // The buffer and the result follow the decode model.
        final(buf)@ == spec_decode(m, old(buf)@).0,
        match (r, spec_decode(m, old(buf)@).1) {
            (Ok(Some(FramedUnit::AsciiLine(v))), Ok(Some(l))) => v@ == l,
            (Ok(None), Ok(None)) => true,
            (Err(e1), Err(e2)) => e1 == e2,
            _ => false,
        },
        // A KISS frame is emitted only in KISS mode, an ASCII line only in
        // an ASCII mode; while KISS framing is reserved, no unit at all is
        // emitted in KISS mode.
        r matches Ok(Some(u)) ==> (u is KissFrame <==> m == SessionMode::Kiss),
        r matches Ok(Some(u)) ==> u is AsciiLine && ascii_mode(m),
        // In `Unknown`, any input buffer is consumed to empty with no unit.
        m == SessionMode::Unknown ==> final(buf)@.len() == 0 && r == Ok::<
            Option<FramedUnit>,
            FrameError,
        >(None),
{
    match m {
        SessionMode::Unknown => {
            buf.clear();
            Ok(None)
        },
        SessionMode::Kiss => Ok(None),
        _ => decode_ascii(buf),
    }
}

/// Takes one line, line feed included, off the head of `buf`.
fn decode_ascii(buf: &mut Vec<u8>) -> (r: Result<Option<FramedUnit>, FrameError>)
    ensures
        match find_byte(old(buf)@, LF) {
            None => final(buf)@ == old(buf)@ && r == Ok::<Option<FramedUnit>, FrameError>(None),
            Some(n) => {
                let line = old(buf)@.take(n + 1);
                &&& final(buf)@ == old(buf)@.skip(n + 1)
                &&& if is_utf8(line) {
                    r matches Ok(Some(FramedUnit::AsciiLine(v))) && v@ == line
                } else {
                    r == Err::<Option<FramedUnit>, FrameError>(FrameError::InvalidEncoding)
                }
            },
        },
{
    let newline = find_byte_exec(buf, LF);
    match newline {
        None => Ok(None),
        Some(n) => {
            let len = buf.len();
            proof {
                crate::text::lemma_find_byte(buf@, LF);
            }
            let line = subvec(buf, 0, n + 1);
            let rest = subvec(buf, n + 1, len);
            proof {
                assert(line@ =~= buf@.take(n + 1));
                assert(rest@ =~= buf@.skip(n + 1));
            }
            *buf = rest;
            if utf8_valid(&line) {
                Ok(Some(FramedUnit::AsciiLine(line)))
            } else {
                Err(FrameError::InvalidEncoding)
            }
        },
    }
}

/// What encoding appends to the output buffer for a line `item` sent in an
/// ASCII mode: the line, then a line feed, then a carriage return — the
/// order the device wants.
pub open spec fn spec_encode_ascii(item: Seq<u8>) -> Seq<u8> {
    item + seq![LF, CR]
}

/// Appends the on-wire representation of one outbound line to `dst`. In
/// the ASCII modes the line must be well-formed UTF-8 — anything else is
/// refused as `InvalidEncoding` — and goes out with `"\n\r"` appended. In
/// KISS and `Unknown` modes nothing is sent.
pub fn encode(m: SessionMode, item: Vec<u8>, dst: &mut Vec<u8>) -> (r: Result<(), FrameError>)
    ensures
        ascii_mode(m) && is_utf8(item@) ==> final(dst)@ == old(dst)@ + spec_encode_ascii(item@)
            && r == Ok::<(), FrameError>(()),
        ascii_mode(m) && !is_utf8(item@) ==> final(dst)@ == old(dst)@ && r == Err::<
            (),
            FrameError,
        >(FrameError::InvalidEncoding),
        !ascii_mode(m) ==> final(dst)@ == old(dst)@ && r == Ok::<(), FrameError>(()),
{
    match m {
        SessionMode::Unknown => Ok(()),
        SessionMode::Kiss => Ok(()),
        _ => {
            if !utf8_valid(&item) {
                return Err(FrameError::InvalidEncoding);
            }
            let mut i: usize = 0;
            let n = item.len();
            while i < n
                invariant
                    0 <= i <= n == item@.len(),
                    dst@ == old(dst)@ + item@.take(i as int),
                decreases n - i,
            {
                dst.push(item[i]);
                proof {
                    assert(dst@ =~= old(dst)@ + item@.take(i + 1));
                }
                i += 1;
            }
            dst.push(LF);
            dst.push(CR);
            proof {
                assert(item@.take(item@.len() as int) =~= item@);
                assert(dst@ =~= old(dst)@ + spec_encode_ascii(item@));
            }
            Ok(())
        },
    }
}

/// Round trip: decoding a buffer that holds exactly one encoded ASCII line
/// (no embedded line feed) yields that line back with its line feed, and
/// leaves only the trailing carriage return behind — the line is
/// reproduced modulo the appended `"\n\r"`.
pub proof fn lemma_encode_decode_roundtrip(m: SessionMode, line: Seq<u8>)
    requires
        ascii_mode(m),
        forall|i: int| 0 <= i < line.len() ==> line[i] < 0x80,
        forall|i: int| 0 <= i < line.len() ==> line[i] != LF,
    ensures
        spec_decode(m, spec_encode_ascii(line)).1 == Ok::<Option<Seq<u8>>, FrameError>(
            Some(line.push(LF)),
        ),
        spec_decode(m, spec_encode_ascii(line)).0 =~= seq![CR],
        line.push(LF).take(line.len() as int) == line,
{
    let enc = spec_encode_ascii(line);
    assert(enc[line.len() as int] == LF);
    assert(forall|i: int| 0 <= i < line.len() ==> enc[i] == line[i]);
    crate::text::lemma_find_byte_at(enc, LF, line.len() as int);
    assert(enc.take(line.len() as int + 1) =~= line.push(LF));
    assert(forall|i: int| 0 <= i < line.push(LF).len() ==> line.push(LF)[i] < 0x80);
    lemma_ascii_is_utf8(line.push(LF));
    assert(line.push(LF).take(line.len() as int) =~= line);
}

} // verus!

