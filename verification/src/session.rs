//! The TNC session state machine. It sequences the device from power-on to
//! steady-state receive: wait for the boot banner, send the radio
//! parameters, wait for the acknowledgement, then hand RXLOG records to
//! the receive pipeline. The session owns the mode that the framing codec
//! reads.

use vstd::prelude::*;

use crate::codec::{ascii_mode, FramedUnit, SessionMode};
use crate::rxlog::{parse_rxlog, rxlog_record_matches, rxlog_wellformed, RxRecord};
use crate::text::{bytes_eq, contains_exec, contains_seq, dec_u8, push_dec_u8, trim, trim_bytes,
    COMMA};

verus! {

/// The radio parameters a session is constructed with; immutable for the
/// session's lifetime. Frequency and bandwidth keep the user's decimal
/// text so the outbound command preserves fractional parts exactly.
#[derive(Clone, Debug, PartialEq, Eq)]
pub struct RadioParams {
    /// Frequency in MHz, as decimal text, e.g. `910.525`.
    pub freq: Vec<u8>,
    /// Bandwidth in kHz, as decimal text, e.g. `62.5`.
    pub bw: Vec<u8>,
    /// Spreading factor.
    pub sf: u8,
    /// Coding rate.
    pub cr: u8,
    /// Sync byte, the user's literal text, e.g. `0x12`.
    pub sb: Vec<u8>,
}

/// A terminal session error.
#[derive(Clone, Copy, Debug, PartialEq, Eq, Structural)]
pub enum SessionError {
    /// The device rejected the radio parameters.
    RadioRejected,
}

/// What the session asks its caller to do with one consumed unit.
#[derive(Clone, Debug, PartialEq, Eq)]
pub enum Action {
    /// Nothing: the unit was ignored or dropped.
    Ignore,
    /// Send this line to the device through the encoder.
    Send(Vec<u8>),
    /// The radio acknowledged: announce readiness and print the header.
    RadioReady,
    /// Hand this record to the receive pipeline.
    Deliver(RxRecord),
    /// Terminal failure; the session is over.
    Fatal(SessionError),
    /// Terminal: end the session (entry into unimplemented KISS framing).
    Stop,
}

/// The device's boot banner, `"Starting!"`.
pub open spec fn starting_banner() -> Seq<u8> {
    seq![83u8, 116u8, 97u8, 114u8, 116u8, 105u8, 110u8, 103u8, 33u8]
}

/// The acknowledgement token, `"OK"`; matched as a substring because the
/// device wraps it in prefixes and suffixes.
pub open spec fn ok_pat() -> Seq<u8> {
    seq![79u8, 75u8]
}

/// The rejection token, `"Error"`; matched as a substring.
pub open spec fn error_pat() -> Seq<u8> {
    seq![69u8, 114u8, 114u8, 111u8, 114u8]
}

/// The command prefix `"set radio "`.
pub open spec fn set_radio_prefix() -> Seq<u8> {
    seq![115u8, 101u8, 116u8, 32u8, 114u8, 97u8, 100u8, 105u8, 111u8, 32u8]
}

/// The outbound radio-configuration command:
/// `set radio <freq>,<bw>,<sf>,<cr>,<sb>` — comma-separated, no spaces,
/// spreading factor and coding rate in decimal.
pub open spec fn spec_radio_command(p: RadioParams) -> Seq<u8> {
    set_radio_prefix() + p.freq@ + seq![COMMA] + p.bw@ + seq![COMMA] + dec_u8(p.sf) + seq![COMMA]
        + dec_u8(p.cr) + seq![COMMA] + p.sb@
}

/// The exec boot banner bytes.
fn starting_banner_vec() -> (r: Vec<u8>)
    ensures
        r@ == starting_banner(),
{
    let mut v: Vec<u8> = Vec::new();
    v.push(83);
    v.push(116);
    v.push(97);
    v.push(114);
    v.push(116);
    v.push(105);
    v.push(110);
    v.push(103);
    v.push(33);
    proof {
        assert(v@ =~= starting_banner());
    }
    v
}

/// The exec acknowledgement token bytes.
fn ok_vec() -> (r: Vec<u8>)
    ensures
        r@ == ok_pat(),
{
    let mut v: Vec<u8> = Vec::new();
    v.push(79);
    v.push(75);
    proof {
        assert(v@ =~= ok_pat());
    }
    v
}

/// The exec rejection token bytes.
fn error_vec() -> (r: Vec<u8>)
    ensures
        r@ == error_pat(),
{
    let mut v: Vec<u8> = Vec::new();
    v.push(69);
    v.push(114);
    v.push(114);
    v.push(111);
    v.push(114);
    proof {
        assert(v@ =~= error_pat());
    }
    v
}

/// Appends all of `src` to `dst`.
fn push_bytes(dst: &mut Vec<u8>, src: &Vec<u8>)
    ensures
        final(dst)@ == old(dst)@ + src@,
{
    let mut i: usize = 0;
    while i < src.len()
        invariant
            0 <= i <= src@.len(),
            dst@ == old(dst)@ + src@.take(i as int),
        decreases src@.len() - i,
    {
        dst.push(src[i]);
        proof {
            assert(dst@ =~= old(dst)@ + src@.take(i + 1));
        }
        i += 1;
    }
    proof {
        assert(src@.take(src@.len() as int) =~= src@);
    }
}

/// Builds the `set radio` command for `p`.
pub fn radio_command(p: &RadioParams) -> (r: Vec<u8>)
    ensures
        r@ == spec_radio_command(*p),
{
    let mut r: Vec<u8> = Vec::new();
    r.push(115);
    r.push(101);
    r.push(116);
    r.push(32);
    r.push(114);
    r.push(97);
    r.push(100);
    r.push(105);
    r.push(111);
    r.push(32);
    proof {
        assert(r@ =~= set_radio_prefix());
    }
    push_bytes(&mut r, &p.freq);
    r.push(COMMA);
    push_bytes(&mut r, &p.bw);
    r.push(COMMA);
    push_dec_u8(p.sf, &mut r);
    r.push(COMMA);
    push_dec_u8(p.cr, &mut r);
    r.push(COMMA);
    push_bytes(&mut r, &p.sb);
    proof {
        assert(r@ =~= spec_radio_command(*p));
    }
    r
}

/// How one ASCII line moves the mode. Entry into `Idle` is absorbing;
/// `Kiss` and `Unknown` lines never reach the session, so those modes hold
/// still here.
pub open spec fn step_mode(m: SessionMode, line: Seq<u8>) -> SessionMode {
    match m {
        SessionMode::Starting => if trim(line) == starting_banner() {
            SessionMode::RadioSet
        } else {
            SessionMode::Starting
        },
        SessionMode::RadioSet => if contains_seq(line, ok_pat()) {
            SessionMode::Idle
        } else {
            SessionMode::RadioSet
        },
        _ => m,
    }
}

/// The modes a session visits from `m` across a stream of ASCII lines:
/// the mode before the first line, then the mode after each line.
pub open spec fn run_modes(m: SessionMode, lines: Seq<Seq<u8>>) -> Seq<SessionMode>
    decreases lines.len(),
{
    if lines.len() == 0 {
        seq![m]
    } else {
        seq![m] + run_modes(step_mode(m, lines[0]), lines.drop_first())
    }
}

/// The trace is one longer than the stream.
pub proof fn lemma_run_modes_len(m: SessionMode, lines: Seq<Seq<u8>>)
    ensures
        run_modes(m, lines).len() == lines.len() + 1,
        run_modes(m, lines)[0] == m,
    decreases lines.len(),
{
    if lines.len() > 0 {
        lemma_run_modes_len(step_mode(m, lines[0]), lines.drop_first());
    }
}

/// `Idle` absorbs: once idle, every later mode is idle.
pub proof fn lemma_idle_absorbs(lines: Seq<Seq<u8>>)
    ensures
        forall|k: int| 0 <= k < run_modes(SessionMode::Idle, lines).len() ==> run_modes(
            SessionMode::Idle,
            lines,
        )[k] == SessionMode::Idle,
    decreases lines.len(),
{
    lemma_run_modes_len(SessionMode::Idle, lines);
    if lines.len() > 0 {
        lemma_idle_absorbs(lines.drop_first());
    }
}

/// From `RadioSet`, a first acknowledgement at position `j` (no earlier
/// line containing "OK" or "Error") holds the mode at `RadioSet` through
/// `j`, and at `Idle` ever after.
pub proof fn lemma_ack_phase(lines: Seq<Seq<u8>>, j: int)
    requires
        0 <= j < lines.len(),
        contains_seq(lines[j], ok_pat()),
        forall|k: int| 0 <= k < j ==> !contains_seq(#[trigger] lines[k], ok_pat())
            && !contains_seq(lines[k], error_pat()),
    ensures
        run_modes(SessionMode::RadioSet, lines).len() == lines.len() + 1,
        forall|k: int| 0 <= k <= j ==> run_modes(SessionMode::RadioSet, lines)[k]
            == SessionMode::RadioSet,
        forall|k: int| j < k <= lines.len() ==> run_modes(SessionMode::RadioSet, lines)[k]
            == SessionMode::Idle,
    decreases j,
{
    lemma_run_modes_len(SessionMode::RadioSet, lines);
    let tr = run_modes(SessionMode::RadioSet, lines);
    let rest = lines.drop_first();
    if j == 0 {
        assert(step_mode(SessionMode::RadioSet, lines[0]) == SessionMode::Idle);
        lemma_idle_absorbs(rest);
        lemma_run_modes_len(SessionMode::Idle, rest);
        assert(forall|k: int| 1 <= k <= lines.len() ==> tr[k] == run_modes(
            SessionMode::Idle,
            rest,
        )[k - 1]);
    } else {
        assert(!contains_seq(lines[0], ok_pat()));
        assert(step_mode(SessionMode::RadioSet, lines[0]) == SessionMode::RadioSet);
        assert(forall|k: int| 0 <= k < rest.len() ==> rest[k] == lines[k + 1]);
        lemma_ack_phase(rest, j - 1);
        lemma_run_modes_len(SessionMode::RadioSet, rest);
        assert(forall|k: int| 1 <= k <= lines.len() ==> tr[k] == run_modes(
            SessionMode::RadioSet,
            rest,
        )[k - 1]);
    }
}

/// The startup order law: from `Starting`, any stream whose first boot
/// banner stands at position `i`, and whose first acknowledgement after it
/// (a line containing "OK") stands at position `j` with no line containing
/// "OK" or "Error" in between, drives the session through `Starting` up to
/// `i`, `RadioSet` from after `i` through `j`, and `Idle` ever after —
/// the states are visited in the order Starting, RadioSet, Idle.
pub proof fn lemma_startup_order(lines: Seq<Seq<u8>>, i: int, j: int)
    requires
        0 <= i < j < lines.len(),
        trim(lines[i]) == starting_banner(),
        forall|k: int| 0 <= k < i ==> trim(#[trigger] lines[k]) != starting_banner(),
        contains_seq(lines[j], ok_pat()),
        forall|k: int| i < k < j ==> !contains_seq(#[trigger] lines[k], ok_pat())
            && !contains_seq(lines[k], error_pat()),
    ensures
        run_modes(SessionMode::Starting, lines).len() == lines.len() + 1,
        forall|k: int| 0 <= k <= i ==> run_modes(SessionMode::Starting, lines)[k]
            == SessionMode::Starting,
        forall|k: int| i < k <= j ==> run_modes(SessionMode::Starting, lines)[k]
            == SessionMode::RadioSet,
        forall|k: int| j < k <= lines.len() ==> run_modes(SessionMode::Starting, lines)[k]
            == SessionMode::Idle,
    decreases i,
{
    lemma_run_modes_len(SessionMode::Starting, lines);
    let tr = run_modes(SessionMode::Starting, lines);
    let rest = lines.drop_first();
    assert(forall|k: int| 0 <= k < rest.len() ==> rest[k] == lines[k + 1]);
    if i == 0 {
        assert(step_mode(SessionMode::Starting, lines[0]) == SessionMode::RadioSet);
        lemma_ack_phase(rest, j - 1);
        assert(forall|k: int| 1 <= k <= lines.len() ==> tr[k] == run_modes(
            SessionMode::RadioSet,
            rest,
        )[k - 1]);
    } else {
        assert(trim(lines[0]) != starting_banner());
        assert(step_mode(SessionMode::Starting, lines[0]) == SessionMode::Starting);
        lemma_startup_order(rest, i - 1, j - 1);
        lemma_run_modes_len(SessionMode::Starting, rest);
        assert(forall|k: int| 1 <= k <= lines.len() ==> tr[k] == run_modes(
            SessionMode::Starting,
            rest,
        )[k - 1]);
    }
}

/// One TNC session: the shared mode and the radio parameters it was
/// constructed with.
pub struct Session {
    /// The mode the framing codec reads.
    pub mode: SessionMode,
    /// The radio parameters, immutable for the session's lifetime.
    pub params: RadioParams,
}

impl Session {
    /// Opens a session in `Starting`, waiting for the boot banner.
    pub fn new(params: RadioParams) -> (s: Session)
        ensures
            s.mode == SessionMode::Starting,
            s.params == params,
    {
        Session { mode: SessionMode::Starting, params }
    }

    /// Consumes one framed unit and says what to do with it.
    ///
    /// In `Starting`, the boot banner (after trimming) moves the session
    /// to `RadioSet` and asks the caller to send the `set radio` command;
    /// everything else is ignored. In `RadioSet`, a line containing "OK"
    /// moves to `Idle`; a line containing "Error" is the terminal
    /// `RadioRejected`; everything else is ignored. In `Idle`, a
    /// well-formed RXLOG record is delivered and anything else dropped —
    /// a malformed record never ends the session and never moves the
    /// mode. A KISS frame, or a unit seen in `Kiss` or `Unknown`, ends
    /// the session: KISS framing is unimplemented, and `Unknown` drains
    /// bytes before they ever frame.
    pub fn on_unit(&mut self, u: FramedUnit) -> (a: Action)
        ensures
            final(self).params == old(self).params,
            // The mode follows the step relation on ASCII lines.
            u matches FramedUnit::AsciiLine(line) ==> (ascii_mode(old(self).mode)
                ==> final(self).mode == step_mode(old(self).mode, line@)),
            // Starting: the banner triggers the radio command.
            u matches FramedUnit::AsciiLine(line) ==> (old(self).mode == SessionMode::Starting
                ==> if trim(line@) == starting_banner() {
                a matches Action::Send(c) && c@ == spec_radio_command(old(self).params)
            } else {
                a == Action::Ignore
            }),
            // RadioSet: "OK" acknowledges; "Error" is terminal.
            u matches FramedUnit::AsciiLine(line) ==> (old(self).mode == SessionMode::RadioSet
                ==> if contains_seq(line@, ok_pat()) {
                a == Action::RadioReady
            } else if contains_seq(line@, error_pat()) {
                a == Action::Fatal(SessionError::RadioRejected)
            } else {
                a == Action::Ignore
            }),
            // Idle: well-formed RXLOG records are delivered, the rest
            // dropped.
            u matches FramedUnit::AsciiLine(line) ==> (old(self).mode == SessionMode::Idle
                ==> if rxlog_wellformed(line@) {
                a matches Action::Deliver(rec) && rxlog_record_matches(line@, rec)
            } else {
                a == Action::Ignore
            }),
            // A malformed line in Idle never terminates the session and
            // never moves the mode.
            u is AsciiLine && old(self).mode == SessionMode::Idle ==> final(self).mode
                == SessionMode::Idle && !(a is Fatal) && !(a is Stop) && !(a is Send),
            // Units in Kiss or Unknown, and KISS frames, end the session.
            old(self).mode == SessionMode::Kiss || old(self).mode == SessionMode::Unknown || u
                is KissFrame ==> a == Action::Stop && final(self).mode == old(self).mode,
    {
        match u {
            FramedUnit::KissFrame(_) => Action::Stop,
            FramedUnit::AsciiLine(line) => {
                match self.mode {
                    SessionMode::Starting => {
                        let t = trim_bytes(&line);
                        let banner = starting_banner_vec();
                        if bytes_eq(&t, &banner) {
                            let cmd = radio_command(&self.params);
                            self.mode = SessionMode::RadioSet;
                            Action::Send(cmd)
                        } else {
                            Action::Ignore
                        }
                    },
                    SessionMode::RadioSet => {
                        let ok = ok_vec();
                        if contains_exec(&line, &ok) {
                            self.mode = SessionMode::Idle;
                            Action::RadioReady
                        } else {
                            let err = error_vec();
                            if contains_exec(&line, &err) {
                                Action::Fatal(SessionError::RadioRejected)
                            } else {
                                Action::Ignore
                            }
                        }
                    },
                    SessionMode::Idle => {
                        match parse_rxlog(&line) {
                            Some(rec) => Action::Deliver(rec),
                            None => Action::Ignore,
                        }
                    },
                    _ => Action::Stop,
                }
            },
        }
    }
}

} // verus!
