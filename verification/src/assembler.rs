//! The frame assembler: a state machine from raw lines to verified frames.
//!
//! Every line that does not begin with `!` is folded into the running
//! checksum and buffered. A line beginning with `!` is the terminator: the
//! `!` itself is folded in, and the rest of the line must be the checksum as
//! four uppercase hexadecimal digits. On a match the buffered lines are the
//! frame; on a mismatch everything is discarded and assembly resumes at the
//! next line. Mismatches are self-healing but counted: past a configurable
//! cap the link is declared down.

use vstd::prelude::*;

use crate::crc::Crc16;
use crate::crc::crc16_arc;
use crate::crc::crc_fold;
use crate::crc::crc_step;
use crate::crc::hex4;
use crate::crc::hex4_bytes;
use crate::crc::lemma_crc_fold_concat;
use crate::crc::lemma_crc_fold_push;
use crate::text::byte_views;
use crate::text::bytes_eq;

verus! {

broadcast use vstd::seq_lib::group_seq_lib_default;

/// What feeding one line to the assembler produced.
#[derive(Debug, PartialEq)]
pub enum FeedOutcome {
    /// The line was folded into the frame being accumulated.
    Accumulated,
    /// The line was the terminator and its checksum matched: one verified
    /// frame, exactly the lines fed since the last reset.
    Frame(Vec<Vec<u8>>),
    /// The line was the terminator and its checksum did not match: the
    /// buffered frame was discarded and assembly resumes at the next line.
    Resync,
    /// Too many consecutive mismatches: the link is treated as down.
    LinkDown,
}

/// The mathematical shape of a [`FeedOutcome`].
pub enum OutcomeModel {
    Accumulated,
    Frame(Seq<Seq<u8>>),
    Resync,
    LinkDown,
}

impl DeepView for FeedOutcome {
    type V = OutcomeModel;

    open spec fn deep_view(&self) -> OutcomeModel {
        match self {
            FeedOutcome::Accumulated => OutcomeModel::Accumulated,
            FeedOutcome::Frame(f) => OutcomeModel::Frame(f.deep_view()),
            FeedOutcome::Resync => OutcomeModel::Resync,
            FeedOutcome::LinkDown => OutcomeModel::LinkDown,
        }
    }
}

/// A line that plays the terminator role: non-empty and beginning with `!`.
pub open spec fn is_terminator(line: Seq<u8>) -> bool {
    line.len() > 0 && line[0] == 33
}

/// The terminator line that completes the buffered lines: `!`, then the
/// checksum of every buffered byte and the `!` itself as four uppercase
/// hexadecimal digits, then the line terminator.
pub open spec fn expected_terminator(buf: Seq<Seq<u8>>) -> Seq<u8> {
    seq![33u8] + hex4(crc16_arc(buf.flatten().push(33u8))) + seq![13u8, 10u8]
}

/// One step of the assembler: buffered lines and failure count before a
/// line, to those after it and the line's outcome.
pub open spec fn spec_feed(buf: Seq<Seq<u8>>, failures: u32, limit: u32, line: Seq<u8>) -> (
    Seq<Seq<u8>>,
    u32,
    OutcomeModel,
) {
    if !is_terminator(line) {
        (buf.push(line), failures, OutcomeModel::Accumulated)
    } else if line == expected_terminator(buf) {
        (Seq::<Seq<u8>>::empty(), 0u32, OutcomeModel::Frame(buf))
    } else {
        let f = if failures < u32::MAX {
            (failures + 1) as u32
        } else {
            failures
        };
        let o = if limit > 0 && f >= limit {
            OutcomeModel::LinkDown
        } else {
            OutcomeModel::Resync
        };
        (Seq::<Seq<u8>>::empty(), f, o)
    }
}

/// The assembler run over a whole sequence of lines: the final state and
/// every line's outcome, in order.
pub open spec fn spec_run(
    buf: Seq<Seq<u8>>,
    failures: u32,
    limit: u32,
    inputs: Seq<Seq<u8>>,
) -> (Seq<Seq<u8>>, u32, Seq<OutcomeModel>)
    decreases inputs.len(),
{
    if inputs.len() == 0 {
        (buf, failures, Seq::<OutcomeModel>::empty())
    } else {
        let (b1, f1, o1) = spec_feed(buf, failures, limit, inputs[0]);
        let (b2, f2, os) = spec_run(b1, f1, limit, inputs.drop_first());
        (b2, f2, seq![o1] + os)
    }
}

/// The frame assembler.
pub struct Assembler {
    buf: Vec<Vec<u8>>,
    crc: Crc16,
    failures: u32,
    limit: u32,
}

impl Assembler {
    /// The lines accumulated toward the current frame.
    pub closed spec fn buffered(&self) -> Seq<Seq<u8>> {
        byte_views(self.buf@)
    }

    /// Consecutive checksum mismatches so far.
    pub closed spec fn failures(&self) -> u32 {
        self.failures
    }

    /// The configured mismatch cap; 0 disables it.
    pub closed spec fn limit(&self) -> u32 {
        self.limit
    }

    /// The checksum state always mirrors the buffered bytes.
    pub closed spec fn wf(&self) -> bool {
        self.crc@ == crc16_arc(self.buffered().flatten())
    }

    /// A fresh assembler. `limit` caps consecutive checksum mismatches
    /// before the link is declared down; 0 disables the cap.
    pub fn new(limit: u32) -> (r: Self)
        ensures
            r.wf(),
            r.buffered() == Seq::<Seq<u8>>::empty(),
            r.failures() == 0,
            r.limit() == limit,
    {
        let r = Assembler { buf: Vec::new(), crc: Crc16::new(), failures: 0, limit };
        proof {
            assert(byte_views(r.buf@) =~= Seq::<Seq<u8>>::empty());
            assert(Seq::<Seq<u8>>::empty().flatten() =~= Seq::<u8>::empty());
            assert(crc16_arc(Seq::<u8>::empty()) == 0);
        }
        r
    }

    /// Feeds one raw line, exactly as read, line terminator included.
    pub fn feed_line(&mut self, line: Vec<u8>) -> (r: FeedOutcome)
        requires
            old(self).wf(),
        ensures
            final(self).wf(),
            final(self).limit() == old(self).limit(),
            (final(self).buffered(), final(self).failures(), r.deep_view()) == spec_feed(
                old(self).buffered(),
                old(self).failures(),
                old(self).limit(),
                line@,
            ),
    {
        if line.len() == 0 || line[0] != 33 {
            let ghost pre = self.buffered();
            self.crc.update(line.as_slice());
            self.buf.push(line);
            proof {
                assert(self.buffered() =~~= pre.push(line@));
                pre.lemma_flatten_push(line@);
                lemma_crc_fold_concat(0, pre.flatten(), line@);
            }
            FeedOutcome::Accumulated
        } else {
            let ghost pre = self.buffered();
            let mut bang: Vec<u8> = Vec::new();
            bang.push(33);
            self.crc.update(bang.as_slice());
            proof {
                assert(bang@ =~= seq![33u8]);
                assert(crc_fold(crc16_arc(pre.flatten()), seq![33u8]) == crc_step(
                    crc16_arc(pre.flatten()),
                    33,
                )) by {
                    assert(seq![33u8].drop_first() =~= Seq::<u8>::empty());
                    assert(crc_fold(crc_step(crc16_arc(pre.flatten()), 33), Seq::<u8>::empty())
                        == crc_step(crc16_arc(pre.flatten()), 33));
                };
                lemma_crc_fold_push(0, pre.flatten(), 33);
                assert(self.crc@ == crc16_arc(pre.flatten().push(33u8)));
            }
            let digits = hex4_bytes(self.crc.get());
            let mut expected: Vec<u8> = Vec::new();
            expected.push(33);
            expected.push(digits[0]);
            expected.push(digits[1]);
            expected.push(digits[2]);
            expected.push(digits[3]);
            expected.push(13);
            expected.push(10);
            proof {
                assert(expected@ =~= expected_terminator(pre));
            }
            if bytes_eq(expected.as_slice(), line.as_slice()) {
                let mut frame: Vec<Vec<u8>> = Vec::new();
                core::mem::swap(&mut frame, &mut self.buf);
                self.crc = Crc16::new();
                self.failures = 0;
                proof {
                    assert(byte_views(self.buf@) =~= Seq::<Seq<u8>>::empty());
                    assert(Seq::<Seq<u8>>::empty().flatten() =~= Seq::<u8>::empty());
                    assert(crc16_arc(Seq::<u8>::empty()) == 0);
                    assert(frame.deep_view() =~~= pre);
                }
                FeedOutcome::Frame(frame)
            } else {
                self.buf = Vec::new();
                self.crc = Crc16::new();
                let f: u32 = if self.failures < u32::MAX {
                    self.failures + 1
                } else {
                    self.failures
                };
                self.failures = f;
                proof {
                    assert(byte_views(self.buf@) =~= Seq::<Seq<u8>>::empty());
                    assert(Seq::<Seq<u8>>::empty().flatten() =~= Seq::<u8>::empty());
                    assert(crc16_arc(Seq::<u8>::empty()) == 0);
                }
                if self.limit > 0 && f >= self.limit {
                    FeedOutcome::LinkDown
                } else {
                    FeedOutcome::Resync
                }
            }
        }
    }
}

/// Running a concatenation is running the parts in order.
pub proof fn lemma_run_concat(
    buf: Seq<Seq<u8>>,
    failures: u32,
    limit: u32,
    x: Seq<Seq<u8>>,
    y: Seq<Seq<u8>>,
)
    ensures
        ({
            let (b1, f1, o1) = spec_run(buf, failures, limit, x);
            let (b2, f2, o2) = spec_run(b1, f1, limit, y);
            spec_run(buf, failures, limit, x + y) == (b2, f2, o1 + o2)
        }),
    decreases x.len(),
{
    if x.len() == 0 {
        assert(x + y =~= y);
        let (b2, f2, o2) = spec_run(buf, failures, limit, y);
        assert(Seq::<OutcomeModel>::empty() + o2 =~= o2);
    } else {
        let (b1, f1, o1) = spec_feed(buf, failures, limit, x[0]);
        lemma_run_concat(b1, f1, limit, x.drop_first(), y);
        assert((x + y)[0] == x[0]);
        assert((x + y).drop_first() =~= x.drop_first() + y);
        let (bm, fm, om) = spec_run(b1, f1, limit, x.drop_first());
        let (b2, f2, o2) = spec_run(bm, fm, limit, y);
        assert(seq![o1] + (om + o2) =~= (seq![o1] + om) + o2);
    }
}

/// Running a single line is one step.
pub proof fn lemma_run_single(buf: Seq<Seq<u8>>, failures: u32, limit: u32, line: Seq<u8>)
    ensures
        ({
            let (b1, f1, o1) = spec_feed(buf, failures, limit, line);
            spec_run(buf, failures, limit, seq![line]) == (b1, f1, seq![o1])
        }),
{
    let (b1, f1, o1) = spec_feed(buf, failures, limit, line);
    assert(seq![line][0] == line);
    assert(seq![line].drop_first() =~= Seq::<Seq<u8>>::empty());
    assert(spec_run(b1, f1, limit, Seq::<Seq<u8>>::empty()) == (
        b1,
        f1,
        Seq::<OutcomeModel>::empty(),
    ));
    assert(seq![o1] + Seq::<OutcomeModel>::empty() =~= seq![o1]);
    assert(spec_run(buf, failures, limit, seq![line]) == (b1, f1, seq![o1]));
}

/// Feeding only non-terminator lines accumulates them all, in order, with
/// nothing else happening.
pub proof fn lemma_run_accumulates(
    buf: Seq<Seq<u8>>,
    failures: u32,
    limit: u32,
    inputs: Seq<Seq<u8>>,
)
    requires
        forall|k: int| 0 <= k < inputs.len() ==> !is_terminator(#[trigger] inputs[k]),
    ensures
        ({
            let (b, f, os) = spec_run(buf, failures, limit, inputs);
            &&& b == buf + inputs
            &&& f == failures
            &&& os.len() == inputs.len()
            &&& forall|k: int| 0 <= k < os.len() ==> os[k] == OutcomeModel::Accumulated
        }),
    decreases inputs.len(),
{
    if inputs.len() == 0 {
        assert(buf + inputs =~= buf);
    } else {
        lemma_run_accumulates(buf.push(inputs[0]), failures, limit, inputs.drop_first());
        assert(buf.push(inputs[0]) + inputs.drop_first() =~= buf + inputs);
    }
}

/// Law: a frame sent intact is reconstructed exactly. Lines that are not
/// terminator lines, followed by their matching terminator, fed into an
/// assembler with an empty buffer, are each accumulated and then emitted as
/// one frame: exactly the lines as sent, checksum verified.
pub proof fn lemma_frame_round_trip(lines: Seq<Seq<u8>>, failures: u32, limit: u32)
    requires
        forall|k: int| 0 <= k < lines.len() ==> !is_terminator(#[trigger] lines[k]),
    ensures
        ({
            let (b, f, os) = spec_run(
                Seq::<Seq<u8>>::empty(),
                failures,
                limit,
                lines.push(expected_terminator(lines)),
            );
            &&& b == Seq::<Seq<u8>>::empty()
            &&& f == 0
            &&& os.len() == lines.len() + 1
            &&& forall|k: int| 0 <= k < lines.len() ==> os[k] == OutcomeModel::Accumulated
            &&& os.last() == OutcomeModel::Frame(lines)
        }),
{
    let t = expected_terminator(lines);
    assert(lines.push(t) =~= lines + seq![t]);
    lemma_run_concat(Seq::<Seq<u8>>::empty(), failures, limit, lines, seq![t]);
    lemma_run_accumulates(Seq::<Seq<u8>>::empty(), failures, limit, lines);
    let (b1, f1, o1) = spec_run(Seq::<Seq<u8>>::empty(), failures, limit, lines);
    assert(b1 =~= lines);
    assert(is_terminator(t)) by {
        assert(t[0] == 33);
    };
    lemma_run_single(b1, f1, limit, t);
    let (b2, f2, o2) = spec_run(b1, f1, limit, seq![t]);
    assert(o2 =~= seq![OutcomeModel::Frame(lines)]);
    let (b, f, os) = spec_run(Seq::<Seq<u8>>::empty(), failures, limit, lines.push(t));
    assert(os == o1 + o2);
    assert(os.last() == OutcomeModel::Frame(lines));
}

/// Law: the assembler resynchronizes after a corrupted frame. When buffered
/// lines are closed by a terminator line that does not match them, they are
/// discarded with exactly one resync and no frame; a following intact frame
/// is then emitted exactly. One mismatch never brings the link down unless
/// the cap is 1.
pub proof fn lemma_resync_recovers(
    bad: Seq<Seq<u8>>,
    bad_term: Seq<u8>,
    good: Seq<Seq<u8>>,
    limit: u32,
)
    requires
        forall|k: int| 0 <= k < bad.len() ==> !is_terminator(#[trigger] bad[k]),
        forall|k: int| 0 <= k < good.len() ==> !is_terminator(#[trigger] good[k]),
        is_terminator(bad_term),
        bad_term != expected_terminator(bad),
        limit == 0 || limit >= 2,
    ensures
        ({
            let inputs = bad.push(bad_term) + good.push(expected_terminator(good));
            let (b, f, os) = spec_run(Seq::<Seq<u8>>::empty(), 0u32, limit, inputs);
            &&& b == Seq::<Seq<u8>>::empty()
            &&& f == 0
            &&& os.len() == bad.len() + good.len() + 2
            &&& forall|k: int| 0 <= k < bad.len() ==> os[k] == OutcomeModel::Accumulated
            &&& os[bad.len() as int] == OutcomeModel::Resync
            &&& forall|k: int|
                bad.len() + 1 <= k < bad.len() + 1 + good.len() ==> os[k]
                    == OutcomeModel::Accumulated
            &&& os.last() == OutcomeModel::Frame(good)
            &&& forall|k: int| 0 <= k < os.len() - 1 ==> !(os[k] is Frame)
        }),
{
    let empty = Seq::<Seq<u8>>::empty();
    let gt = expected_terminator(good);
    let x = bad.push(bad_term);
    let y = good.push(gt);

    // first half: accumulate `bad`, then one mismatching terminator
    assert(x =~= bad + seq![bad_term]);
    lemma_run_concat(empty, 0u32, limit, bad, seq![bad_term]);
    lemma_run_accumulates(empty, 0u32, limit, bad);
    let (xb1, xf1, xo1) = spec_run(empty, 0u32, limit, bad);
    assert(xb1 =~= bad);
    lemma_run_single(xb1, xf1, limit, bad_term);
    let (xb2, xf2, xo2) = spec_run(xb1, xf1, limit, seq![bad_term]);
    assert(xo2 =~= seq![OutcomeModel::Resync]);
    assert(xb2 =~= empty);
    assert(xf2 == 1);
    let (xb, xf, xos) = spec_run(empty, 0u32, limit, x);
    assert(xos == xo1 + xo2);

    // second half: accumulate `good`, then its matching terminator
    assert(y =~= good + seq![gt]);
    lemma_run_concat(empty, 1u32, limit, good, seq![gt]);
    lemma_run_accumulates(empty, 1u32, limit, good);
    let (yb1, yf1, yo1) = spec_run(empty, 1u32, limit, good);
    assert(yb1 =~= good);
    assert(is_terminator(gt)) by {
        assert(gt[0] == 33);
    };
    lemma_run_single(yb1, yf1, limit, gt);
    let (yb2, yf2, yo2) = spec_run(yb1, yf1, limit, seq![gt]);
    assert(yo2 =~= seq![OutcomeModel::Frame(good)]);
    let (yb, yf, yos) = spec_run(empty, 1u32, limit, y);
    assert(yos == yo1 + yo2);

    // the whole run
    lemma_run_concat(empty, 0u32, limit, x, y);
    let (b, f, os) = spec_run(empty, 0u32, limit, x + y);
    assert(os == xos + yos);
    assert(os.last() == OutcomeModel::Frame(good));
}

} // verus!
