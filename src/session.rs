use crate::backoff::{full_jitter, grown, Backoff};
use vstd::prelude::*;

verus! {

/// Interval between keepalive pings on an active session, in milliseconds.
pub const KEEPALIVE_INTERVAL_MS: u64 = 30000;

/// Silence after which an active session's peer counts as unreachable.
pub const KEEPALIVE_TIMEOUT_MS: u64 = 90000;

/// Handshake failures retried at once before the operator is told and
/// backoff takes over.
pub const HANDSHAKE_RETRIES: u32 = 3;

/// Lifecycle of an inner client's tunnel session.
#[derive(Clone, Copy, Debug, PartialEq, Eq, Structural)]
pub enum Phase {
    Connecting,
    Authenticated,
    Announced,
    Active,
    Degraded,
    Closed,
}

/// What the driver of a session observed.
#[derive(Clone, Copy, Debug, PartialEq, Eq)]
pub enum Event {
    DialOk,
    DialFailed,
    HandshakeOk,
    HandshakeFailed,
    AnnounceSent,
    AnnounceAccepted { now: u64 },
    AnnounceRejected,
    PeerSeen { now: u64 },
    Tick { now: u64 },
    IoError,
    TornDown,
    Shutdown,
}

/// What the driver of a session must do next.
#[derive(Clone, Copy, Debug, PartialEq, Eq)]
pub enum Action {
    Dial,
    StartHandshake,
    SendAnnounce,
    SendPing,
    /// Wait this many milliseconds, then dial.
    Sleep { ms: u64 },
    /// Tell the operator that handshakes keep failing, then sleep and dial.
    ReportHandshakeFailure { ms: u64 },
    TearDown,
    /// The server gave this session's ports to a newer session.
    ReportConflict,
    Wait,
}

/// The state of a session as the transition table sees it.
pub struct SessionState {
    pub phase: Phase,
    pub ceiling: u64,
    pub handshake_failures: u32,
    pub last_seen: u64,
    pub last_ping: u64,
}

/// The peer of an active session has been silent for the keepalive timeout.
pub open spec fn expired(last_seen: u64, now: u64) -> bool {
    now as int >= last_seen as int + KEEPALIVE_TIMEOUT_MS as int
}

/// The delay that a failed attempt waits, for the caller's random number.
pub open spec fn delay_of(ceiling: u64, random: u64) -> u64 {
    (random as int % (ceiling as int + 1)) as u64
}

/// The transition table of a session: the next state and the action, for a
/// backoff between `base` and `cap`.
pub open spec fn transition(s: SessionState, base: u64, cap: u64, ev: Event, random: u64) -> (SessionState, Action) {
    let backed_off = SessionState { ceiling: grown(s.ceiling, cap), ..s };
    match (s.phase, ev) {
        (Phase::Closed, _) => (s, Action::Wait),
        (_, Event::Shutdown) => (SessionState { phase: Phase::Closed, ..s }, Action::TearDown),
        (Phase::Connecting, Event::DialOk) => (s, Action::StartHandshake),
        (Phase::Connecting, Event::DialFailed) => (backed_off, Action::Sleep { ms: delay_of(s.ceiling, random) }),
        (Phase::Connecting, Event::HandshakeOk) => (
            SessionState { phase: Phase::Authenticated, handshake_failures: 0, ..s },
            Action::SendAnnounce,
        ),
        (Phase::Connecting, Event::HandshakeFailed) => {
            let f = if s.handshake_failures == u32::MAX { s.handshake_failures } else { (s.handshake_failures + 1) as u32 };
            if f < HANDSHAKE_RETRIES {
                (SessionState { handshake_failures: f, ..s }, Action::Dial)
            } else if f == HANDSHAKE_RETRIES {
                (
                    SessionState { handshake_failures: f, ..backed_off },
                    Action::ReportHandshakeFailure { ms: delay_of(s.ceiling, random) },
                )
            } else {
                (SessionState { handshake_failures: f, ..backed_off }, Action::Sleep { ms: delay_of(s.ceiling, random) })
            }
        },
        (Phase::Authenticated, Event::AnnounceSent) => (SessionState { phase: Phase::Announced, ..s }, Action::Wait),
        (Phase::Announced, Event::AnnounceAccepted { now }) => (
            SessionState { phase: Phase::Active, ceiling: base, last_seen: now, last_ping: now, ..s },
            Action::Wait,
        ),
        (Phase::Authenticated, Event::AnnounceRejected) | (Phase::Announced, Event::AnnounceRejected) => (
            SessionState { phase: Phase::Closed, ..s },
            Action::ReportConflict,
        ),
        (Phase::Active, Event::PeerSeen { now }) => (
            SessionState { last_seen: if now > s.last_seen { now } else { s.last_seen }, ..s },
            Action::Wait,
        ),
        (Phase::Active, Event::Tick { now }) => if expired(s.last_seen, now) {
            (SessionState { phase: Phase::Degraded, ..s }, Action::TearDown)
        } else if now as int >= s.last_ping as int + KEEPALIVE_INTERVAL_MS as int {
            (SessionState { last_ping: now, ..s }, Action::SendPing)
        } else {
            (s, Action::Wait)
        },
        (Phase::Authenticated, Event::IoError) | (Phase::Announced, Event::IoError) | (Phase::Active, Event::IoError) => (
            SessionState { phase: Phase::Degraded, ..s },
            Action::TearDown,
        ),
        (Phase::Degraded, Event::TornDown) => (SessionState { phase: Phase::Connecting, ..s }, Action::Dial),
        _ => (s, Action::Wait),
    }
}

/// An inner client's tunnel session: its lifecycle, reconnect backoff and
/// keepalive clock. The driver performs each returned action and feeds back
/// what it observed.
pub struct ClientSession {
    phase: Phase,
    backoff: Backoff,
    handshake_failures: u32,
    last_seen: u64,
    last_ping: u64,
}

impl ClientSession {
    pub closed spec fn state(&self) -> SessionState {
        SessionState {
            phase: self.phase,
            ceiling: self.backoff.ceiling(),
            handshake_failures: self.handshake_failures,
            last_seen: self.last_seen,
            last_ping: self.last_ping,
        }
    }

    pub closed spec fn base(&self) -> u64 {
        self.backoff.base()
    }

    pub closed spec fn cap(&self) -> u64 {
        self.backoff.cap()
    }

    pub closed spec fn wf(&self) -> bool {
        self.backoff.wf()
    }

    /// A session about to dial, with a backoff from `base` to `cap`.
    pub fn new(base: u64, cap: u64) -> (r: ClientSession)
        requires
            1 <= base <= cap,
        ensures
            r.wf(),
            r.base() == base,
            r.cap() == cap,
            r.state() == (SessionState {
                phase: Phase::Connecting,
                ceiling: base,
                handshake_failures: 0,
                last_seen: 0,
                last_ping: 0,
            }),
    {
        ClientSession { phase: Phase::Connecting, backoff: Backoff::new(base, cap), handshake_failures: 0, last_seen: 0, last_ping: 0 }
    }

    pub fn phase(&self) -> (r: Phase)
        ensures
            r == self.state().phase,
    {
        self.phase
    }

    fn back_off(&mut self, random: u64) -> (r: u64)
        requires
            old(self).wf(),
        ensures
            final(self).wf(),
            r == delay_of(old(self).state().ceiling, random),
            final(self).state() == (SessionState { ceiling: grown(old(self).state().ceiling, old(self).cap()), ..old(self).state() }),
            final(self).base() == old(self).base(),
            final(self).cap() == old(self).cap(),
    {
        let c = self.backoff.next_ceiling();
        full_jitter(c, random)
    }

    /// Applies one observed event; `random` draws the jitter of a backoff
    /// delay.
    pub fn step(&mut self, ev: Event, random: u64) -> (r: Action)
        requires
            old(self).wf(),
        ensures
            final(self).wf(),
            final(self).base() == old(self).base(),
            final(self).cap() == old(self).cap(),
            (final(self).state(), r) == transition(old(self).state(), old(self).base(), old(self).cap(), ev, random),
    {
        if self.phase == Phase::Closed {
            return Action::Wait;
        }
        match ev {
            Event::Shutdown => {
                self.phase = Phase::Closed;
                Action::TearDown
            },
            Event::DialOk => if self.phase == Phase::Connecting {
                Action::StartHandshake
            } else {
                Action::Wait
            },
            Event::DialFailed => if self.phase == Phase::Connecting {
                let ms = self.back_off(random);
                Action::Sleep { ms }
            } else {
                Action::Wait
            },
            Event::HandshakeOk => if self.phase == Phase::Connecting {
                self.phase = Phase::Authenticated;
                self.handshake_failures = 0;
                Action::SendAnnounce
            } else {
                Action::Wait
            },
            Event::HandshakeFailed => if self.phase == Phase::Connecting {
                if self.handshake_failures < u32::MAX {
                    self.handshake_failures = self.handshake_failures + 1;
                }
                if self.handshake_failures < HANDSHAKE_RETRIES {
                    Action::Dial
                } else if self.handshake_failures == HANDSHAKE_RETRIES {
                    let ms = self.back_off(random);
                    Action::ReportHandshakeFailure { ms }
                } else {
                    let ms = self.back_off(random);
                    Action::Sleep { ms }
                }
            } else {
                Action::Wait
            },
            Event::AnnounceSent => if self.phase == Phase::Authenticated {
                self.phase = Phase::Announced;
                Action::Wait
            } else {
                Action::Wait
            },
            Event::AnnounceAccepted { now } => if self.phase == Phase::Announced {
                self.phase = Phase::Active;
                self.backoff.reset();
                self.last_seen = now;
                self.last_ping = now;
                Action::Wait
            } else {
                Action::Wait
            },
            Event::AnnounceRejected => if self.phase == Phase::Authenticated || self.phase == Phase::Announced {
                self.phase = Phase::Closed;
                Action::ReportConflict
            } else {
                Action::Wait
            },
            Event::PeerSeen { now } => if self.phase == Phase::Active {
                if now > self.last_seen {
                    self.last_seen = now;
                }
                Action::Wait
            } else {
                Action::Wait
            },
            Event::Tick { now } => if self.phase == Phase::Active {
                if now >= self.last_seen && now - self.last_seen >= KEEPALIVE_TIMEOUT_MS {
                    self.phase = Phase::Degraded;
                    Action::TearDown
                } else if now >= self.last_ping && now - self.last_ping >= KEEPALIVE_INTERVAL_MS {
                    self.last_ping = now;
                    Action::SendPing
                } else {
                    Action::Wait
                }
            } else {
                Action::Wait
            },
            Event::IoError => if self.phase == Phase::Authenticated || self.phase == Phase::Announced || self.phase
                == Phase::Active {
                self.phase = Phase::Degraded;
                Action::TearDown
            } else {
                Action::Wait
            },
            Event::TornDown => if self.phase == Phase::Degraded {
                self.phase = Phase::Connecting;
                Action::Dial
            } else {
                Action::Wait
            },
        }
    }
}

/// An active session whose peer has been silent for the keepalive timeout is
/// torn down at the next tick, which is what ends the relay pairs routed
/// through it.
pub proof fn law_silent_peer_torn_down(s: SessionState, base: u64, cap: u64, now: u64, random: u64)
    requires
        s.phase == Phase::Active,
        expired(s.last_seen, now),
    ensures
        transition(s, base, cap, Event::Tick { now }, random).0.phase == Phase::Degraded,
        transition(s, base, cap, Event::Tick { now }, random).1 == Action::TearDown,
{
}

/// A session becomes active only from an accepted announcement, and that
/// transition puts the backoff ceiling back to the base.
pub proof fn law_activation_resets_backoff(s: SessionState, base: u64, cap: u64, ev: Event, random: u64)
    requires
        s.phase != Phase::Active,
        transition(s, base, cap, ev, random).0.phase == Phase::Active,
    ensures
        s.phase == Phase::Announced,
        ev is AnnounceAccepted,
        transition(s, base, cap, ev, random).0.ceiling == base,
{
}

} // verus!
