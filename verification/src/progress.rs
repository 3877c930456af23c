//! Progress reports of transfers.

use vstd::prelude::*;

verus! {

/// What is reported of a transfer while it runs.
pub struct ProgressPayload {
    pub path: String,
    pub total: u64,
    pub current: u64,
    pub percent: u8,
    /// Bytes per second.
    pub speed: u64,
}

/// A progress report as a mathematical value.
pub struct ProgressPayloadView {
    pub path: Seq<char>,
    pub total: u64,
    pub current: u64,
    pub percent: u8,
    pub speed: u64,
}

impl View for ProgressPayload {
    type V = ProgressPayloadView;

    open spec fn view(&self) -> ProgressPayloadView {
        ProgressPayloadView {
            path: self.path@,
            total: self.total,
            current: self.current,
            percent: self.percent,
            speed: self.speed,
        }
    }
}

/// The time between two reports, in milliseconds.
pub const REPORT_INTERVAL_MS: u128 = 200;

/// How far a transfer is, and how far it was when that was last reported.
pub struct TransferMeter {
    total: u64,
    current: u64,
    reported: u64,
}

/// A meter as a mathematical value.
pub struct MeterView {
    /// The size of the whole file.
    pub total: int,
    /// The position that the transfer has reached.
    pub current: int,
    /// The position that was last reported.
    pub reported: int,
}

impl View for TransferMeter {
    type V = MeterView;

    closed spec fn view(&self) -> MeterView {
        MeterView {
            total: self.total as int,
            current: self.current as int,
            reported: self.reported as int,
        }
    }
}

/// A meter for a transfer that starts at `offset`.
pub open spec fn meter_at(total: int, offset: int) -> MeterView {
    MeterView { total, current: offset, reported: offset }
}

/// The meter after more bytes, `elapsed_ms` after the last report, and the report that is due then,
/// if one is: the number of bytes since the last one. A report is due some time after the last one,
/// and when the whole file was moved.
pub open spec fn meter_next(m: MeterView, bytes: int, elapsed_ms: u128) -> (MeterView, Option<int>) {
    let current = m.current + bytes;
    if elapsed_ms > REPORT_INTERVAL_MS || current == m.total {
        (MeterView { total: m.total, current, reported: current }, Some(current - m.reported))
    } else {
        (MeterView { total: m.total, current, reported: m.reported }, None)
    }
}

impl TransferMeter {
    #[verifier::type_invariant]
    spec fn inv(self) -> bool {
        self.reported <= self.current
    }

    /// A meter for a transfer that starts at `offset`.
    pub fn new(total: u64, offset: u64) -> (r: TransferMeter)
        ensures
            r@ == meter_at(total as int, offset as int),
    {
        TransferMeter { total, current: offset, reported: offset }
    }

    /// The position that the transfer has reached.
    pub fn position(&self) -> (r: u64)
        ensures
            r == self@.current,
    {
        self.current
    }

    /// Counts bytes that were moved, `elapsed_ms` after the last report, and gives the report that
    /// is due then.
    pub fn advance(&mut self, bytes: u64, elapsed_ms: u128) -> (r: Option<u64>)
        requires
            old(self)@.current + bytes <= u64::MAX,
        ensures
            ({
                let (after, report) = meter_next(old(self)@, bytes as int, elapsed_ms);
                &&& final(self)@ == after
                &&& match r {
                    Some(n) => report == Some(n as int),
                    None => report is None,
                }
            }),
    {
        proof {
            use_type_invariant(&*self);
        }
        self.current = self.current + bytes;
        if elapsed_ms > REPORT_INTERVAL_MS || self.current == self.total {
            let moved: u64 = self.current - self.reported;
            self.reported = self.current;
            Some(moved)
        } else {
            None
        }
    }
}

/// The meter after chunks of the given sizes, each some time after the last report, and the sum of
/// what was reported.
pub open spec fn metered(m: MeterView, chunks: Seq<(nat, u128)>) -> (MeterView, int)
    decreases chunks.len(),
{
    if chunks.len() == 0 {
        (m, 0)
    } else {
        let (before, sum) = metered(m, chunks.drop_last());
        let (after, report) = meter_next(before, chunks.last().0 as int, chunks.last().1);
        (
            after,
            sum + match report {
                Some(n) => n,
                None => 0,
            },
        )
    }
}

/// Every byte is reported at most once, and none is left unreported when the transfer ends at the
/// end of the file.
pub proof fn every_byte_is_reported_once(total: int, offset: int, chunks: Seq<(nat, u128)>)
    ensures
        ({
            let (m, sum) = metered(meter_at(total, offset), chunks);
            &&& m.total == total
            &&& offset + sum == m.reported
            &&& m.reported <= m.current
            &&& m.current == total && chunks.len() > 0 ==> offset + sum == total
        }),
    decreases chunks.len(),
{
    if chunks.len() > 0 {
        every_byte_is_reported_once(total, offset, chunks.drop_last());
    }
}

/// A meter starts at the offset, with nothing to report. Bytes are counted whenever they come, and
/// reported exactly when more than 200 milliseconds have passed since the last report or when the
/// whole file was moved: as many as came since then.
pub proof fn reports_are_made_when_due(
    total: int,
    offset: int,
    m: MeterView,
    bytes: int,
    elapsed_ms: u128,
)
    ensures
        meter_at(total, offset).total == total,
        meter_at(total, offset).current == offset,
        meter_at(total, offset).reported == offset,
        ({
            let (after, report) = meter_next(m, bytes, elapsed_ms);
            &&& after.total == m.total
            &&& after.current == m.current + bytes
            &&& report is Some <==> elapsed_ms > 200 || m.current + bytes == m.total
            &&& report matches Some(n) ==> n == m.current + bytes - m.reported && after.reported
                == after.current
            &&& report is None ==> after.reported == m.reported
        }),
{
}

} // verus!
