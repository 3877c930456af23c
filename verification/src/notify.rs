//! Notices of changes, sent to a client no more often than it can use them.

use vstd::prelude::*;

verus! {

/// How long after a notice no other one follows a change at once, in seconds.
pub const COOLDOWN_SECS: u64 = 2;

/// The text of a notice.
pub open spec fn notice_text() -> Seq<char> {
    "REFRESH"@
}

/// The text of a notice.
pub fn notice() -> (r: &'static str)
    ensures
        r@ == notice_text(),
{
    "REFRESH"
}

/// What is being sent.
#[derive(Clone, Copy, PartialEq, Eq, Structural, Debug)]
pub enum Sending {
    /// Nothing.
    Idle,
    /// A notice of a change that has just happened.
    AtOnce,
    /// A notice of changes that happened while notices were held back.
    Delayed,
}

/// What is known of one client that waits for notices.
#[derive(Clone, Copy, PartialEq, Eq, Structural, Debug)]
pub struct Throttle {
    /// Whether notices are held back.
    pub is_cooldown: bool,
    /// Whether something has changed while notices were held back.
    pub pending_update: bool,
    pub sending: Sending,
}

/// What happens on the connection of a client.
#[derive(Clone, Copy, PartialEq, Eq, Structural, Debug)]
pub enum NotifyEvent {
    /// The listing has changed.
    Updated,
    /// The timer has run out.
    TimerElapsed,
    /// The notice was written, or could not be written.
    Written(bool),
    /// This many bytes came from the client; nothing where reading failed.
    Read(Option<usize>),
}

/// What is to be done on the connection of a client.
#[derive(Clone, Copy, PartialEq, Eq, Structural, Debug)]
pub enum NotifyAction {
    /// Wait for what happens next.
    Wait,
    /// Start the timer anew.
    RestartTimer,
    /// Write a notice.
    Send,
    /// Close the connection.
    Close,
}

/// What follows an event.
pub open spec fn notify_next(s: Throttle, e: NotifyEvent) -> (Throttle, NotifyAction) {
    match e {
        NotifyEvent::Updated => if s.is_cooldown {
            (Throttle { pending_update: true, ..s }, NotifyAction::RestartTimer)
        } else {
            (Throttle { sending: Sending::AtOnce, ..s }, NotifyAction::Send)
        },
        NotifyEvent::TimerElapsed => if !s.is_cooldown {
            (s, NotifyAction::Wait)
        } else if s.pending_update {
            (Throttle { is_cooldown: false, sending: Sending::Delayed, ..s }, NotifyAction::Send)
        } else {
            (Throttle { is_cooldown: false, ..s }, NotifyAction::Wait)
        },
        NotifyEvent::Written(false) => (s, NotifyAction::Close),
        NotifyEvent::Written(true) => match s.sending {
            Sending::Idle => (s, NotifyAction::Wait),
            Sending::AtOnce => (
                Throttle { is_cooldown: true, sending: Sending::Idle, ..s },
                NotifyAction::RestartTimer,
            ),
            Sending::Delayed => (
                Throttle { pending_update: false, sending: Sending::Idle, ..s },
                NotifyAction::Wait,
            ),
        },
        NotifyEvent::Read(n) => if n is None || n == Some(0usize) {
            (s, NotifyAction::Close)
        } else {
            (s, NotifyAction::Wait)
        },
    }
}

impl Throttle {
    /// A client that has just connected.
    pub fn new() -> (r: Throttle)
        ensures
            r == (Throttle {
                is_cooldown: false,
                pending_update: false,
                sending: Sending::Idle,
            }),
    {
        Throttle { is_cooldown: false, pending_update: false, sending: Sending::Idle }
    }

    /// Tells what to do after an event.
    pub fn step(&mut self, event: NotifyEvent) -> (r: NotifyAction)
        ensures
            (*final(self), r) == notify_next(*old(self), event),
    {
        match event {
            NotifyEvent::Updated => {
                if self.is_cooldown {
                    self.pending_update = true;
                    NotifyAction::RestartTimer
                } else {
                    self.sending = Sending::AtOnce;
                    NotifyAction::Send
                }
            },
            NotifyEvent::TimerElapsed => {
                if !self.is_cooldown {
                    return NotifyAction::Wait;
                }
                self.is_cooldown = false;
                if self.pending_update {
                    self.sending = Sending::Delayed;
                    NotifyAction::Send
                } else {
                    NotifyAction::Wait
                }
            },
            NotifyEvent::Written(written) => {
                if !written {
                    return NotifyAction::Close;
                }
                match self.sending {
                    Sending::Idle => NotifyAction::Wait,
                    Sending::AtOnce => {
                        self.sending = Sending::Idle;
                        self.is_cooldown = true;
                        NotifyAction::RestartTimer
                    },
                    Sending::Delayed => {
                        self.sending = Sending::Idle;
                        self.pending_update = false;
                        NotifyAction::Wait
                    },
                }
            },
            NotifyEvent::Read(n) => match n {
                Some(n) => if n == 0 {
                    NotifyAction::Close
                } else {
                    NotifyAction::Wait
                },
                None => NotifyAction::Close,
            },
        }
    }
}

/// Whether an event can happen: the timer counts only while notices are held back, a notice is
/// written only after it was asked for, and nothing else happens before it is written.
pub open spec fn can_happen(s: Throttle, e: NotifyEvent) -> bool {
    match e {
        NotifyEvent::Updated => s.sending == Sending::Idle,
        NotifyEvent::TimerElapsed => s.sending == Sending::Idle && s.is_cooldown,
        NotifyEvent::Written(_) => s.sending != Sending::Idle,
        NotifyEvent::Read(_) => s.sending == Sending::Idle,
    }
}

/// What holds of a client at all times: a change waits only while notices are held back or the
/// delayed notice is being written, and no notice is written while notices are held back.
pub open spec fn consistent(s: Throttle) -> bool {
    &&& s.pending_update ==> s.is_cooldown || s.sending == Sending::Delayed
    &&& s.sending == Sending::Delayed ==> s.pending_update && !s.is_cooldown
    &&& s.sending == Sending::AtOnce ==> !s.pending_update && !s.is_cooldown
}

/// The invariant holds from the start and after everything that can happen.
pub proof fn consistency_is_kept(s: Throttle, e: NotifyEvent)
    requires
        consistent(s),
        can_happen(s, e),
    ensures
        consistent(
            (Throttle { is_cooldown: false, pending_update: false, sending: Sending::Idle }),
        ),
        consistent(notify_next(s, e).0),
{
}

/// No change is lost: it is sent at once, or it waits with the timer running, and then the end of
/// the timer sends it.
pub proof fn no_change_is_lost(s: Throttle)
    requires
        consistent(s),
        s.sending == Sending::Idle,
    ensures
        ({
            let (after, action) = notify_next(s, NotifyEvent::Updated);
            ||| action == NotifyAction::Send
            ||| {
                &&& action == NotifyAction::RestartTimer
                &&& after.is_cooldown && after.pending_update
                &&& notify_next(after, NotifyEvent::TimerElapsed).1 == NotifyAction::Send
            }
        }),
{
}

/// While notices are held back, changes send nothing: the only notice that can follow one sent at
/// once is the delayed one at the end of the timer.
pub proof fn notices_are_held_back(s: Throttle, e: NotifyEvent)
    requires
        s.is_cooldown,
        notify_next(s, e).1 == NotifyAction::Send,
    ensures
        e == NotifyEvent::TimerElapsed,
        s.pending_update,
{
}

/// Changes that come together while notices are held back are sent as one notice: once the delayed
/// notice is written, nothing waits any more.
pub proof fn held_back_changes_are_sent_once(s: Throttle)
    requires
        s.is_cooldown,
        s.pending_update,
        s.sending == Sending::Idle,
    ensures
        ({
            let (sent, action) = notify_next(s, NotifyEvent::TimerElapsed);
            let (after, next) = notify_next(sent, NotifyEvent::Written(true));
            &&& action == NotifyAction::Send
            &&& next == NotifyAction::Wait
            &&& !after.pending_update && !after.is_cooldown
        }),
{
}

/// A change is sent at once where notices are not held back; else it waits, and the timer starts
/// anew. Nothing else changes.
pub proof fn changes_are_sent_or_wait(s: Throttle)
    ensures
        ({
            let (after, action) = notify_next(s, NotifyEvent::Updated);
            &&& after.is_cooldown == s.is_cooldown
            &&& !s.is_cooldown ==> action == NotifyAction::Send && after.sending == Sending::AtOnce
                && after.pending_update == s.pending_update
            &&& s.is_cooldown ==> action == NotifyAction::RestartTimer && after.pending_update
                && after.sending == s.sending
        }),
{
}

/// The end of the timer ends the time in which notices are held back. What waits is sent then, and
/// where nothing waits, nothing is.
pub proof fn timer_ends_the_waiting(s: Throttle)
    ensures
        ({
            let (after, action) = notify_next(s, NotifyEvent::TimerElapsed);
            &&& !after.is_cooldown
            &&& after.pending_update == s.pending_update
            &&& s.is_cooldown && s.pending_update ==> action == NotifyAction::Send && after.sending
                == Sending::Delayed
            &&& !(s.is_cooldown && s.pending_update) ==> action == NotifyAction::Wait
                && after.sending == s.sending
        }),
{
}

/// After a notice that was sent at once, notices are held back and the timer runs; after a delayed
/// one nothing waits any more and notices are not held back anew.
pub proof fn written_notices_are_done(s: Throttle)
    ensures
        ({
            let (after, action) = notify_next(s, NotifyEvent::Written(true));
            &&& after.sending == Sending::Idle
            &&& s.sending == Sending::AtOnce ==> action == NotifyAction::RestartTimer
                && after.is_cooldown && after.pending_update == s.pending_update
            &&& s.sending == Sending::Delayed ==> action == NotifyAction::Wait
                && !after.pending_update && after.is_cooldown == s.is_cooldown
            &&& s.sending == Sending::Idle ==> action == NotifyAction::Wait && after == s
        }),
{
}

/// The connection is closed exactly when a notice could not be written, or when the client closed
/// its side or cannot be read from. What a client sends changes nothing.
pub proof fn only_broken_connections_are_closed(s: Throttle, e: NotifyEvent)
    ensures
        notify_next(s, e).1 == NotifyAction::Close <==> e == NotifyEvent::Written(false) || e
            == NotifyEvent::Read(None) || e == NotifyEvent::Read(Some(0)),
        e is Read || e == NotifyEvent::Written(false) ==> notify_next(s, e).0 == s,
        e matches NotifyEvent::Read(Some(n)) ==> n > 0 ==> notify_next(s, e).1
            == NotifyAction::Wait,
{
}

} // verus!
