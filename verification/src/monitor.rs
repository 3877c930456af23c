//! The client's watch over its connection to the server.

use vstd::prelude::*;
use vstd::utf8::encode_utf8;

use crate::encoding::{decode_lossy, lossy_text, sent_text_arrives};
use crate::notify::notice_text;
use crate::text::{contains, has_infix};

verus! {

/// What is reported of the connection.
pub struct ConnectionStatus {
    pub connected: bool,
    pub message: String,
    /// The seconds until the next attempt.
    pub retry_in: Option<u32>,
}

/// What is reported of the connection, as a mathematical value.
pub struct ConnectionStatusView {
    pub connected: bool,
    pub message: Seq<char>,
    pub retry_in: Option<u32>,
}

impl View for ConnectionStatus {
    type V = ConnectionStatusView;

    open spec fn view(&self) -> ConnectionStatusView {
        ConnectionStatusView {
            connected: self.connected,
            message: self.message@,
            retry_in: self.retry_in,
        }
    }
}

/// The report while an attempt is `secs` seconds away.
pub open spec fn retrying(secs: u32) -> ConnectionStatusView {
    ConnectionStatusView { connected: false, message: "retrying"@, retry_in: Some(secs) }
}

/// The report of a connection that was made.
pub open spec fn connected() -> ConnectionStatusView {
    ConnectionStatusView { connected: true, message: "connected"@, retry_in: None }
}

/// The report of a connection that was lost.
pub open spec fn disconnected() -> ConnectionStatusView {
    ConnectionStatusView { connected: false, message: "disconnected"@, retry_in: None }
}

/// Where the watch stands.
#[derive(Clone, Copy, PartialEq, Eq, Structural, Debug)]
pub enum Monitor {
    /// A connection is being made.
    Connecting,
    /// The next attempt is this many seconds away.
    Retrying(u32),
    /// The connection is there.
    Listening,
    /// The connection was lost.
    Lost,
}

/// What happens to the watch.
pub enum MonitorEvent {
    /// Whether a connection was made.
    Connected(bool),
    /// A second has passed.
    SecondPassed,
    /// What came from the server; nothing where reading failed.
    Received(Option<Vec<u8>>),
}

/// What happens to the watch, as a mathematical value.
pub enum MonitorEventView {
    Connected(bool),
    SecondPassed,
    Received(Option<Seq<u8>>),
}

impl View for MonitorEvent {
    type V = MonitorEventView;

    open spec fn view(&self) -> MonitorEventView {
        match self {
            MonitorEvent::Connected(b) => MonitorEventView::Connected(*b),
            MonitorEvent::SecondPassed => MonitorEventView::SecondPassed,
            MonitorEvent::Received(Some(v)) => MonitorEventView::Received(Some(v@)),
            MonitorEvent::Received(None) => MonitorEventView::Received(None),
        }
    }
}

/// What the watch does next.
pub enum MonitorAction {
    /// Try to connect.
    Connect,
    /// Report, then let a second pass.
    ReportAndSleep(ConnectionStatus),
    /// Report, then read.
    ReportAndRead(ConnectionStatus),
    /// Read on.
    Read,
    /// Have the listing fetched again, then read on.
    RefreshAndRead,
}

/// What the watch does next, as a mathematical value.
pub enum MonitorActionView {
    Connect,
    ReportAndSleep(ConnectionStatusView),
    ReportAndRead(ConnectionStatusView),
    Read,
    RefreshAndRead,
}

impl View for MonitorAction {
    type V = MonitorActionView;

    open spec fn view(&self) -> MonitorActionView {
        match self {
            MonitorAction::Connect => MonitorActionView::Connect,
            MonitorAction::ReportAndSleep(s) => MonitorActionView::ReportAndSleep(s@),
            MonitorAction::ReportAndRead(s) => MonitorActionView::ReportAndRead(s@),
            MonitorAction::Read => MonitorActionView::Read,
            MonitorAction::RefreshAndRead => MonitorActionView::RefreshAndRead,
        }
    }
}

/// What follows an event. Events that do not fit start a new attempt.
pub open spec fn monitor_next(s: Monitor, e: MonitorEventView) -> (Monitor, MonitorActionView) {
    match (s, e) {
        (Monitor::Connecting, MonitorEventView::Connected(true)) => (
            Monitor::Listening,
            MonitorActionView::ReportAndRead(connected()),
        ),
        (Monitor::Connecting, MonitorEventView::Connected(false)) => (
            Monitor::Retrying(10),
            MonitorActionView::ReportAndSleep(retrying(10)),
        ),
        (Monitor::Retrying(secs), MonitorEventView::SecondPassed) => if secs > 1 {
            (
                Monitor::Retrying((secs - 1) as u32),
                MonitorActionView::ReportAndSleep(retrying((secs - 1) as u32)),
            )
        } else {
            (Monitor::Connecting, MonitorActionView::Connect)
        },
        (Monitor::Listening, MonitorEventView::Received(data)) => if data is None
            || data->Some_0.len() == 0 {
            (Monitor::Lost, MonitorActionView::ReportAndSleep(disconnected()))
        } else if has_infix(lossy_text(data->Some_0), notice_text()) {
            (Monitor::Listening, MonitorActionView::RefreshAndRead)
        } else {
            (Monitor::Listening, MonitorActionView::Read)
        },
        _ => (Monitor::Connecting, MonitorActionView::Connect),
    }
}

impl Monitor {
    /// A watch that begins with an attempt to connect.
    pub fn start() -> (r: (Monitor, MonitorAction))
        ensures
            r.0 == Monitor::Connecting,
            r.1@ == MonitorActionView::Connect,
    {
        (Monitor::Connecting, MonitorAction::Connect)
    }

    /// Tells what to do after an event.
    pub fn step(&mut self, event: &MonitorEvent) -> (r: MonitorAction)
        ensures
            (*final(self), r@) == monitor_next(*old(self), event@),
    {
        match (*self, event) {
            (Monitor::Connecting, MonitorEvent::Connected(true)) => {
                *self = Monitor::Listening;
                MonitorAction::ReportAndRead(
                    ConnectionStatus {
                        connected: true,
                        message: "connected".to_owned(),
                        retry_in: None,
                    },
                )
            },
            (Monitor::Connecting, MonitorEvent::Connected(false)) => {
                *self = Monitor::Retrying(10);
                MonitorAction::ReportAndSleep(
                    ConnectionStatus {
                        connected: false,
                        message: "retrying".to_owned(),
                        retry_in: Some(10),
                    },
                )
            },
            (Monitor::Retrying(secs), MonitorEvent::SecondPassed) => {
                if secs > 1 {
                    *self = Monitor::Retrying(secs - 1);
                    MonitorAction::ReportAndSleep(
                        ConnectionStatus {
                            connected: false,
                            message: "retrying".to_owned(),
                            retry_in: Some(secs - 1),
                        },
                    )
                } else {
                    *self = Monitor::Connecting;
                    MonitorAction::Connect
                }
            },
            (Monitor::Listening, MonitorEvent::Received(data)) => {
                let alive = match data {
                    Some(bytes) => bytes.len() > 0,
                    None => false,
                };
                match data {
                    Some(bytes) if alive => {
                        let text = decode_lossy(bytes.as_slice());
                        if holds_notice(text.as_str()) {
                            MonitorAction::RefreshAndRead
                        } else {
                            MonitorAction::Read
                        }
                    },
                    _ => {
                        *self = Monitor::Lost;
                        MonitorAction::ReportAndSleep(
                            ConnectionStatus {
                                connected: false,
                                message: "disconnected".to_owned(),
                                retry_in: None,
                            },
                        )
                    },
                }
            },
            _ => {
                *self = Monitor::Connecting;
                MonitorAction::Connect
            },
        }
    }
}

/// Tells whether a notice is in what the server sent.
pub fn holds_notice(text: &str) -> (r: bool)
    ensures
        r == has_infix(text@, notice_text()),
{
    contains(text, "REFRESH")
}

/// A notice of the server makes the client fetch the listing again.
pub proof fn notice_is_understood()
    ensures
        monitor_next(
            Monitor::Listening,
            MonitorEventView::Received(Some(encode_utf8(notice_text()))),
        ) == (Monitor::Listening, MonitorActionView::RefreshAndRead),
{
    notice_is_found(Seq::empty(), Seq::empty());
    assert(Seq::<char>::empty() + notice_text() + Seq::<char>::empty() =~= notice_text());
}

/// So does one that arrives together with other text.
pub proof fn notice_is_found(before: Seq<char>, after: Seq<char>)
    ensures
        monitor_next(
            Monitor::Listening,
            MonitorEventView::Received(Some(encode_utf8(before + notice_text() + after))),
        ) == (Monitor::Listening, MonitorActionView::RefreshAndRead),
{
    let text = before + notice_text() + after;
    sent_text_arrives(text);
    reveal_strlit("REFRESH");
    let n = before.len() as int;
    assert(text.subrange(n, n + notice_text().len()) =~= notice_text());
    assert(encode_utf8(text).len() > 0);
}

/// After a failed attempt the next one comes when ten seconds have been counted down, each reported.
pub proof fn retry_counts_down(secs: u32)
    requires
        secs > 0,
    ensures
        ({
            let (after, action) = monitor_next(
                Monitor::Retrying(secs),
                MonitorEventView::SecondPassed,
            );
            if secs > 1 {
                after == Monitor::Retrying((secs - 1) as u32) && action
                    == MonitorActionView::ReportAndSleep(retrying((secs - 1) as u32))
            } else {
                after == Monitor::Connecting && action == MonitorActionView::Connect
            }
        }),
        monitor_next(Monitor::Connecting, MonitorEventView::Connected(false)).0
            == Monitor::Retrying(10),
{
}

/// A connection that was made is reported and listened to; one that could not be made is reported
/// with the ten seconds until the next attempt, and each second that passes is reported too, until
/// the next attempt is made.
pub proof fn attempts_are_reported(secs: u32)
    ensures
        ({
            let (after, action) = monitor_next(
                Monitor::Connecting,
                MonitorEventView::Connected(true),
            );
            &&& after == Monitor::Listening
            &&& action matches MonitorActionView::ReportAndRead(s)
            &&& s.connected && s.message == "connected"@ && s.retry_in is None
        }),
        ({
            let (after, action) = monitor_next(
                Monitor::Connecting,
                MonitorEventView::Connected(false),
            );
            &&& after == Monitor::Retrying(10)
            &&& action matches MonitorActionView::ReportAndSleep(s)
            &&& !s.connected && s.message == "retrying"@ && s.retry_in == Some(10u32)
        }),
        ({
            let (after, action) = monitor_next(
                Monitor::Retrying(secs),
                MonitorEventView::SecondPassed,
            );
            if secs > 1 {
                &&& after == Monitor::Retrying((secs - 1) as u32)
                &&& action matches MonitorActionView::ReportAndSleep(s)
                &&& !s.connected && s.message == "retrying"@
                &&& s.retry_in == Some((secs - 1) as u32)
            } else {
                after == Monitor::Connecting && action is Connect
            }
        }),
{
}

/// What the server sends is listened to until nothing comes any more: a notice in it has the listing
/// fetched again, anything else changes nothing. A connection that was lost is reported, and made
/// again after a second.
pub proof fn connection_is_watched(data: Option<Seq<u8>>)
    ensures
        ({
            let (after, action) = monitor_next(
                Monitor::Listening,
                MonitorEventView::Received(data),
            );
            if data is None || data->Some_0.len() == 0 {
                &&& after == Monitor::Lost
                &&& action matches MonitorActionView::ReportAndSleep(s)
                &&& !s.connected && s.message == "disconnected"@ && s.retry_in is None
            } else {
                &&& after == Monitor::Listening
                &&& has_infix(lossy_text(data->Some_0), "REFRESH"@) ==> action is RefreshAndRead
                &&& !has_infix(lossy_text(data->Some_0), "REFRESH"@) ==> action is Read
            }
        }),
        monitor_next(Monitor::Lost, MonitorEventView::SecondPassed) == (
            Monitor::Connecting,
            MonitorActionView::Connect,
        ),
{
}

/// An event that does not belong to where the watch stands starts a new attempt.
pub proof fn stray_events_start_anew(s: Monitor, e: MonitorEventView)
    requires
        e is Connected ==> s !is Connecting,
        e is SecondPassed ==> s !is Retrying,
        e is Received ==> s !is Listening,
    ensures
        monitor_next(s, e) == (Monitor::Connecting, MonitorActionView::Connect),
{
}

} // verus!
