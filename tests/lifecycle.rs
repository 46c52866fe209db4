use nat_tunnel::backoff::{full_jitter, Backoff, BASE_DELAY_MS, MAX_DELAY_MS};
use nat_tunnel::session::{Action, ClientSession, Event, Phase, KEEPALIVE_INTERVAL_MS, KEEPALIVE_TIMEOUT_MS};

#[test]
fn backoff_doubles_to_cap_then_resets() {
    let mut b = Backoff::new(BASE_DELAY_MS, MAX_DELAY_MS);
    let got: Vec<u64> = (0..9).map(|_| b.next_ceiling()).collect();
    assert_eq!(got, vec![1000, 2000, 4000, 8000, 16000, 32000, 60000, 60000, 60000]);
    b.reset();
    assert_eq!(b.next_ceiling(), 1000);
}

#[test]
fn backoff_near_u64_limit_does_not_overflow() {
    let mut b = Backoff::new(u64::MAX / 2 + 1, u64::MAX);
    assert_eq!(b.next_ceiling(), u64::MAX / 2 + 1);
    assert_eq!(b.next_ceiling(), u64::MAX);
    assert_eq!(b.next_ceiling(), u64::MAX);
}

#[test]
fn jitter_stays_within_ceiling() {
    assert_eq!(full_jitter(10, 25), 3);
    assert_eq!(full_jitter(0, 99), 0);
    assert_eq!(full_jitter(u64::MAX, 12345), 12345);
}

fn activate(s: &mut ClientSession, now: u64) {
    assert_eq!(s.step(Event::DialOk, 0), Action::StartHandshake);
    assert_eq!(s.step(Event::HandshakeOk, 0), Action::SendAnnounce);
    assert_eq!(s.phase(), Phase::Authenticated);
    assert_eq!(s.step(Event::AnnounceSent, 0), Action::Wait);
    assert_eq!(s.step(Event::AnnounceAccepted { now }, 0), Action::Wait);
    assert_eq!(s.phase(), Phase::Active);
}

#[test]
fn dial_failures_back_off_and_activation_resets() {
    let mut s = ClientSession::new(1000, 60000);
    assert_eq!(s.step(Event::DialFailed, u64::MAX), Action::Sleep { ms: u64::MAX % 1001 });
    assert_eq!(s.step(Event::DialFailed, 2000), Action::Sleep { ms: 2000 });
    assert_eq!(s.step(Event::DialFailed, 4001), Action::Sleep { ms: 0 });
    activate(&mut s, 10);
    assert_eq!(s.step(Event::IoError, 0), Action::TearDown);
    assert_eq!(s.phase(), Phase::Degraded);
    assert_eq!(s.step(Event::TornDown, 0), Action::Dial);
    assert_eq!(s.step(Event::DialFailed, 1000), Action::Sleep { ms: 1000 });
}

#[test]
fn handshake_failures_retry_then_report() {
    let mut s = ClientSession::new(1000, 60000);
    assert_eq!(s.step(Event::HandshakeFailed, 7), Action::Dial);
    assert_eq!(s.step(Event::HandshakeFailed, 7), Action::Dial);
    assert_eq!(s.step(Event::HandshakeFailed, 7), Action::ReportHandshakeFailure { ms: 7 });
    assert_eq!(s.step(Event::HandshakeFailed, 1999), Action::Sleep { ms: 1999 });
    assert_eq!(s.phase(), Phase::Connecting);
}

#[test]
fn keepalive_pings_then_times_out() {
    let mut s = ClientSession::new(1000, 60000);
    activate(&mut s, 1000);
    assert_eq!(s.step(Event::Tick { now: 1000 + KEEPALIVE_INTERVAL_MS - 1 }, 0), Action::Wait);
    assert_eq!(s.step(Event::Tick { now: 1000 + KEEPALIVE_INTERVAL_MS }, 0), Action::SendPing);
    assert_eq!(s.step(Event::PeerSeen { now: 5000 }, 0), Action::Wait);
    assert_eq!(s.step(Event::Tick { now: 5000 + KEEPALIVE_TIMEOUT_MS - 1 }, 0), Action::SendPing);
    assert_eq!(s.step(Event::Tick { now: 5000 + KEEPALIVE_TIMEOUT_MS }, 0), Action::TearDown);
    assert_eq!(s.phase(), Phase::Degraded);
}

#[test]
fn rejected_announcement_closes_session() {
    let mut s = ClientSession::new(1000, 60000);
    assert_eq!(s.step(Event::DialOk, 0), Action::StartHandshake);
    assert_eq!(s.step(Event::HandshakeOk, 0), Action::SendAnnounce);
    assert_eq!(s.step(Event::AnnounceSent, 0), Action::Wait);
    assert_eq!(s.step(Event::AnnounceRejected, 0), Action::ReportConflict);
    assert_eq!(s.phase(), Phase::Closed);
    assert_eq!(s.step(Event::DialOk, 0), Action::Wait);
}

#[test]
fn shutdown_tears_down_once() {
    let mut s = ClientSession::new(1000, 60000);
    activate(&mut s, 0);
    assert_eq!(s.step(Event::Shutdown, 0), Action::TearDown);
    assert_eq!(s.step(Event::Shutdown, 0), Action::Wait);
}
