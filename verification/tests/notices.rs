use file_sync::monitor::{
    holds_notice, ConnectionStatus, Monitor, MonitorAction, MonitorEvent,
};
use file_sync::notify::{notice, NotifyAction, NotifyEvent, Throttle, COOLDOWN_SECS};

#[test]
fn changes_are_told_at_once_and_then_held_back() {
    let mut t = Throttle::new();
    assert_eq!(t.step(NotifyEvent::Updated), NotifyAction::Send);
    assert_eq!(t.step(NotifyEvent::Written(true)), NotifyAction::RestartTimer);
    assert!(t.is_cooldown);
    assert_eq!(t.step(NotifyEvent::Updated), NotifyAction::RestartTimer);
    assert!(t.pending_update);
    assert_eq!(t.step(NotifyEvent::Updated), NotifyAction::RestartTimer);
    assert_eq!(t.step(NotifyEvent::TimerElapsed), NotifyAction::Send);
    assert_eq!(t.step(NotifyEvent::Written(true)), NotifyAction::Wait);
    assert!(!t.is_cooldown && !t.pending_update);
    assert_eq!(COOLDOWN_SECS, 2);
    assert_eq!(notice(), "REFRESH");
}

#[test]
fn nothing_is_sent_when_nothing_changed() {
    let mut t = Throttle::new();
    t.step(NotifyEvent::Updated);
    t.step(NotifyEvent::Written(true));
    assert_eq!(t.step(NotifyEvent::TimerElapsed), NotifyAction::Wait);
    assert!(!t.is_cooldown);
}

#[test]
fn lost_clients_are_closed() {
    let mut t = Throttle::new();
    assert_eq!(t.step(NotifyEvent::Read(Some(1))), NotifyAction::Wait);
    assert_eq!(t.step(NotifyEvent::Read(Some(0))), NotifyAction::Close);
    assert_eq!(t.step(NotifyEvent::Read(None)), NotifyAction::Close);
    t.step(NotifyEvent::Updated);
    assert_eq!(t.step(NotifyEvent::Written(false)), NotifyAction::Close);
}

#[test]
fn notices_are_found_in_text() {
    assert!(holds_notice(notice()));
    assert!(holds_notice("xREFRESHy"));
    assert!(!holds_notice("refresh"));
}

fn status(s: ConnectionStatus) -> (bool, String, Option<u32>) {
    (s.connected, s.message, s.retry_in)
}

#[test]
fn failed_connections_are_retried_after_ten_seconds() {
    let (mut m, first) = Monitor::start();
    assert!(matches!(first, MonitorAction::Connect));
    let mut action = m.step(&MonitorEvent::Connected(false));
    for left in (1..=10u32).rev() {
        match action {
            MonitorAction::ReportAndSleep(s) => {
                assert_eq!(status(s), (false, "retrying".to_string(), Some(left)));
            }
            _ => panic!(),
        }
        action = m.step(&MonitorEvent::SecondPassed);
    }
    assert!(matches!(action, MonitorAction::Connect));
}

#[test]
fn connections_are_watched() {
    let (mut m, _) = Monitor::start();
    match m.step(&MonitorEvent::Connected(true)) {
        MonitorAction::ReportAndRead(s) => {
            assert_eq!(status(s), (true, "connected".to_string(), None));
        }
        _ => panic!(),
    }
    let received = |b: &[u8]| MonitorEvent::Received(Some(b.to_vec()));
    assert!(matches!(m.step(&received(b"REFRESH")), MonitorAction::RefreshAndRead));
    assert!(matches!(m.step(&received(b"xREFRESHREFRESH")), MonitorAction::RefreshAndRead));
    assert!(matches!(m.step(&received(b"\xffREFRESH\xfe")), MonitorAction::RefreshAndRead));
    assert!(matches!(m.step(&received(b"REFRE")), MonitorAction::Read));
    match m.step(&received(b"")) {
        MonitorAction::ReportAndSleep(s) => {
            assert_eq!(status(s), (false, "disconnected".to_string(), None));
        }
        _ => panic!(),
    }
    assert!(matches!(m.step(&MonitorEvent::SecondPassed), MonitorAction::Connect));
    m.step(&MonitorEvent::Connected(true));
    assert!(matches!(m.step(&MonitorEvent::Received(None)), MonitorAction::ReportAndSleep(_)));
}
