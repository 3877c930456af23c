//! The loop that moves the contents of a file, chunk by chunk.

use vstd::prelude::*;

use crate::progress::{meter_at, meter_next, MeterView, TransferMeter};

verus! {

/// Where the loop stands.
#[derive(Clone, Copy, PartialEq, Eq, Structural, Debug)]
pub enum LoopPhase {
    /// It is being asked whether the transfer was cancelled.
    Check,
    /// A chunk is being read.
    Read,
    /// A chunk of this many bytes is being written.
    Write(u64),
    /// Nothing is left to do.
    Ended,
}

/// What became of the last action of the loop.
pub enum LoopEvent {
    /// Whether the transfer was cancelled.
    Checked { cancelled: bool },
    /// The number of bytes that were read; zero at the end.
    Read(u64),
    /// The chunk was written, this long after the last report.
    Written { elapsed_ms: u128 },
    /// Reading or writing failed, for this reason.
    Failed(String),
}

/// An event of the loop as a mathematical value.
pub enum LoopEventView {
    Checked { cancelled: bool },
    Read(u64),
    Written { elapsed_ms: u128 },
    Failed(Seq<char>),
}

impl View for LoopEvent {
    type V = LoopEventView;

    open spec fn view(&self) -> LoopEventView {
        match self {
            LoopEvent::Checked { cancelled } => LoopEventView::Checked { cancelled: *cancelled },
            LoopEvent::Read(n) => LoopEventView::Read(*n),
            LoopEvent::Written { elapsed_ms } => LoopEventView::Written { elapsed_ms: *elapsed_ms },
            LoopEvent::Failed(e) => LoopEventView::Failed(e@),
        }
    }
}

/// What is to be done next.
pub enum LoopAction {
    /// Report that the transfer is at `current`, `bytes` further than at the last report, if there
    /// is a report, and ask whether the transfer was cancelled.
    Check { report: Option<(u64, u64)> },
    /// Read a chunk.
    Read,
    /// Write the chunk that was read.
    Write,
    /// Everything was read.
    Finish,
    /// Give up, for this reason.
    Fail(String),
}

/// An action of the loop as a mathematical value.
pub enum LoopActionView {
    Check { report: Option<(int, int)> },
    Read,
    Write,
    Finish,
    Fail(Seq<char>),
}

impl View for LoopAction {
    type V = LoopActionView;

    open spec fn view(&self) -> LoopActionView {
        match self {
            LoopAction::Check { report } => LoopActionView::Check {
                report: match report {
                    Some(p) => Some((p.0 as int, p.1 as int)),
                    None => None,
                },
            },
            LoopAction::Read => LoopActionView::Read,
            LoopAction::Write => LoopActionView::Write,
            LoopAction::Finish => LoopActionView::Finish,
            LoopAction::Fail(e) => LoopActionView::Fail(e@),
        }
    }
}

/// The loop as a mathematical value.
pub struct LoopView {
    pub phase: LoopPhase,
    pub meter: MeterView,
}

/// The reason that a transfer is given up for when it was cancelled.
pub open spec fn cancelled_text() -> Seq<char> {
    "キャンセルされました"@
}

/// The action that follows an event, and the loop then. Before each chunk it is asked whether the
/// transfer was cancelled.
pub open spec fn loop_next(s: LoopView, e: LoopEventView) -> (LoopView, LoopActionView) {
    let ended = LoopView { phase: LoopPhase::Ended, meter: s.meter };
    match (s.phase, e) {
        (_, LoopEventView::Failed(reason)) => (ended, LoopActionView::Fail(reason)),
        (LoopPhase::Check, LoopEventView::Checked { cancelled }) => if cancelled {
            (ended, LoopActionView::Fail(cancelled_text()))
        } else {
            (LoopView { phase: LoopPhase::Read, meter: s.meter }, LoopActionView::Read)
        },
        (LoopPhase::Read, LoopEventView::Read(n)) => if n == 0 {
            (ended, LoopActionView::Finish)
        } else {
            (LoopView { phase: LoopPhase::Write(n), meter: s.meter }, LoopActionView::Write)
        },
        (LoopPhase::Write(n), LoopEventView::Written { elapsed_ms }) => {
            let (meter, report) = meter_next(s.meter, n as int, elapsed_ms);
            (
                LoopView { phase: LoopPhase::Check, meter },
                LoopActionView::Check {
                    report: match report {
                        Some(bytes) => Some((meter.current, bytes)),
                        None => None,
                    },
                },
            )
        },
        _ => (ended, LoopActionView::Finish),
    }
}

/// A loop that moves the contents of a file.
pub struct TransferLoop {
    phase: LoopPhase,
    meter: TransferMeter,
}

impl View for TransferLoop {
    type V = LoopView;

    closed spec fn view(&self) -> LoopView {
        LoopView { phase: self.phase, meter: self.meter@ }
    }
}

impl TransferLoop {
    /// A loop for a file of `total` bytes that starts at `offset`. The first action is to ask
    /// whether the transfer was cancelled.
    pub fn start(total: u64, offset: u64) -> (r: TransferLoop)
        ensures
            r@ == (LoopView {
                phase: LoopPhase::Check,
                meter: meter_at(total as int, offset as int),
            }),
    {
        TransferLoop { phase: LoopPhase::Check, meter: TransferMeter::new(total, offset) }
    }

    /// The position that the transfer has reached.
    pub fn position(&self) -> (r: u64)
        ensures
            r == self@.meter.current,
    {
        self.meter.position()
    }

    /// Takes the next step of the loop. The position stays within 64 bits.
    pub fn step(&mut self, event: &LoopEvent) -> (r: LoopAction)
        requires
            old(self)@.phase matches LoopPhase::Write(n) ==> old(self)@.meter.current + n
                <= u64::MAX,
        ensures
            (final(self)@, r@) == loop_next(old(self)@, event@),
    {
        match (self.phase, event) {
            (_, LoopEvent::Failed(reason)) => {
                self.phase = LoopPhase::Ended;
                LoopAction::Fail(reason.clone())
            },
            (LoopPhase::Check, LoopEvent::Checked { cancelled }) => if *cancelled {
                self.phase = LoopPhase::Ended;
                LoopAction::Fail("キャンセルされました".to_owned())
            } else {
                self.phase = LoopPhase::Read;
                LoopAction::Read
            },
            (LoopPhase::Read, LoopEvent::Read(n)) => if *n == 0 {
                self.phase = LoopPhase::Ended;
                LoopAction::Finish
            } else {
                self.phase = LoopPhase::Write(*n);
                LoopAction::Write
            },
            (LoopPhase::Write(n), LoopEvent::Written { elapsed_ms }) => {
                let report = self.meter.advance(n, *elapsed_ms);
                self.phase = LoopPhase::Check;
                let at: u64 = self.meter.position();
                LoopAction::Check {
                    report: match report {
                        Some(bytes) => Some((at, bytes)),
                        None => None,
                    },
                }
            },
            _ => {
                self.phase = LoopPhase::Ended;
                LoopAction::Finish
            },
        }
    }
}

/// A transfer that was cancelled moves nothing more: at the next question it is given up, and
/// whatever comes after that, nothing is read or written.
pub proof fn cancelled_transfer_stops(s: LoopView, later: LoopEventView)
    requires
        s.phase == LoopPhase::Check,
    ensures
        ({
            let (ended, a) = loop_next(s, LoopEventView::Checked { cancelled: true });
            let (still, b) = loop_next(ended, later);
            &&& a == LoopActionView::Fail(cancelled_text())
            &&& ended.phase == LoopPhase::Ended && ended.meter == s.meter
            &&& still.phase == LoopPhase::Ended && still.meter == s.meter
            &&& b !is Read && b !is Write
        }),
{
}

/// One round of the loop moves the position by exactly the bytes that were read, and comes back to
/// the question whether the transfer was cancelled.
pub proof fn round_moves_one_chunk(s: LoopView, n: u64, elapsed_ms: u128)
    requires
        s.phase == LoopPhase::Check,
        n > 0,
    ensures
        ({
            let (s1, a1) = loop_next(s, LoopEventView::Checked { cancelled: false });
            let (s2, a2) = loop_next(s1, LoopEventView::Read(n));
            let (s3, a3) = loop_next(s2, LoopEventView::Written { elapsed_ms });
            &&& a1 is Read && a2 is Write && a3 is Check
            &&& s3.phase == LoopPhase::Check
            &&& s3.meter.current == s.meter.current + n
        }),
{
}

/// A chunk is read only after it was found that the transfer was not cancelled, and written only
/// after it was read; the end of what is to be read ends the transfer well.
pub proof fn chunks_are_read_and_written(s: LoopView, n: u64)
    ensures
        s.phase == LoopPhase::Check ==> loop_next(s, LoopEventView::Checked { cancelled: false })
            == (LoopView { phase: LoopPhase::Read, meter: s.meter }, LoopActionView::Read),
        s.phase == LoopPhase::Check ==> loop_next(s, LoopEventView::Checked { cancelled: true })
            == (
            LoopView { phase: LoopPhase::Ended, meter: s.meter },
            LoopActionView::Fail("キャンセルされました"@),
        ),
        s.phase == LoopPhase::Read && n > 0 ==> loop_next(s, LoopEventView::Read(n)) == (
            LoopView { phase: LoopPhase::Write(n), meter: s.meter },
            LoopActionView::Write,
        ),
        s.phase == LoopPhase::Read ==> loop_next(s, LoopEventView::Read(0)) == (
            LoopView { phase: LoopPhase::Ended, meter: s.meter },
            LoopActionView::Finish,
        ),
{
}

/// After a chunk was written, the position is that much further. It is reported, with the bytes
/// since the last report, exactly when more than 200 milliseconds have passed since then or when
/// the end of the file is reached.
pub proof fn written_chunks_are_reported(s: LoopView, n: u64, elapsed_ms: u128)
    requires
        s.phase == LoopPhase::Write(n),
    ensures
        ({
            let (after, action) = loop_next(s, LoopEventView::Written { elapsed_ms });
            let due = elapsed_ms > 200 || s.meter.current + n == s.meter.total;
            &&& after.phase == LoopPhase::Check
            &&& after.meter.total == s.meter.total
            &&& after.meter.current == s.meter.current + n
            &&& due ==> after.meter.reported == after.meter.current && action == (
            LoopActionView::Check {
                report: Some(
                    (s.meter.current + n, s.meter.current + n - s.meter.reported),
                ),
            })
            &&& !due ==> after.meter.reported == s.meter.reported && action == (
            LoopActionView::Check { report: None })
        }),
{
}

/// Whatever fails ends the transfer, for the reason that it failed for, and nothing is counted.
pub proof fn failed_transfers_end(s: LoopView, reason: Seq<char>)
    ensures
        loop_next(s, LoopEventView::Failed(reason)) == (
            LoopView { phase: LoopPhase::Ended, meter: s.meter },
            LoopActionView::Fail(reason),
        ),
{
}

/// An event that does not belong to the last action ends the transfer, and nothing is counted.
pub proof fn stray_events_end_the_transfer(s: LoopView, e: LoopEventView)
    requires
        e !is Failed,
        e is Checked ==> s.phase !is Check,
        e is Read ==> s.phase !is Read,
        e is Written ==> s.phase !is Write,
    ensures
        loop_next(s, e) == (
            LoopView { phase: LoopPhase::Ended, meter: s.meter },
            LoopActionView::Finish,
        ),
{
}

} // verus!
