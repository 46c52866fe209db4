use nat_tunnel::registry::{AnnounceError, Binding, Mapping, Registry};
use nat_tunnel::relay::{Side, Splice, SpliceAction};

fn ssh_mapping() -> Vec<Mapping> {
    vec![Mapping { local_port: 2222, exposed_port: 9000 }]
}

#[test]
fn ping_is_relayed_to_the_local_service_and_back() {
    let mut reg = Registry::new();
    assert_eq!(reg.announce(1, &ssh_mapping()), Ok(vec![]));
    let pair = reg.attach(9000, 100).expect("port 9000 is served");
    assert_eq!(pair.local_port, 2222);
    assert_eq!(pair.session, 1);
    let mut splice = Splice::new(0, 60_000);
    let up = splice.on_read(Side::Public, b"PING".to_vec(), 1);
    assert_eq!(up, SpliceAction::Write { to: Side::Private, bytes: b"PING".to_vec() });
    let down = splice.on_read(Side::Private, b"PONG\n".to_vec(), 2);
    assert_eq!(down, SpliceAction::Write { to: Side::Public, bytes: b"PONG\n".to_vec() });
}

#[test]
fn later_announcement_wins_and_earlier_is_fenced() {
    let mut reg = Registry::new();
    let m = vec![Mapping { local_port: 22, exposed_port: 9000 }];
    assert_eq!(reg.announce(1, &m), Ok(vec![]));
    let m2 = vec![Mapping { local_port: 2222, exposed_port: 9000 }];
    assert_eq!(reg.announce(2, &m2), Ok(vec![1]));
    assert_eq!(reg.lookup(9000), Some(Binding { session: 2, local_port: 2222 }));
    assert_eq!(reg.announce(1, &m), Err(AnnounceError::Fenced));
    assert_eq!(reg.lookup(9000), Some(Binding { session: 2, local_port: 2222 }));
}

#[test]
fn displaced_session_loses_all_its_ports() {
    let mut reg = Registry::new();
    let m = vec![
        Mapping { local_port: 22, exposed_port: 9000 },
        Mapping { local_port: 80, exposed_port: 8080 },
    ];
    assert_eq!(reg.announce(1, &m), Ok(vec![]));
    let m2 = vec![Mapping { local_port: 2222, exposed_port: 9000 }];
    assert_eq!(reg.announce(2, &m2), Ok(vec![1]));
    assert_eq!(reg.lookup(8080), None);
}

#[test]
fn duplicate_exposed_port_is_refused() {
    let mut reg = Registry::new();
    let m = vec![
        Mapping { local_port: 22, exposed_port: 9000 },
        Mapping { local_port: 23, exposed_port: 9000 },
    ];
    assert_eq!(reg.announce(1, &m), Err(AnnounceError::DuplicatePort));
    assert_eq!(reg.lookup(9000), None);
}

#[test]
fn reannouncement_replaces_own_ports() {
    let mut reg = Registry::new();
    let m = vec![
        Mapping { local_port: 22, exposed_port: 9000 },
        Mapping { local_port: 80, exposed_port: 8080 },
    ];
    assert_eq!(reg.announce(1, &m), Ok(vec![]));
    let m2 = vec![Mapping { local_port: 81, exposed_port: 8080 }];
    assert_eq!(reg.announce(1, &m2), Ok(vec![]));
    assert_eq!(reg.lookup(9000), None);
    assert_eq!(reg.lookup(8080), Some(Binding { session: 1, local_port: 81 }));
}

#[test]
fn unknown_port_is_not_routed() {
    let mut reg = Registry::new();
    assert_eq!(reg.attach(9000, 100), None);
    assert_eq!(reg.announce(1, &ssh_mapping()), Ok(vec![]));
    assert_eq!(reg.attach(9001, 100), None);
}

#[test]
fn closing_a_session_cancels_its_pairs_and_unbinds_its_ports() {
    let mut reg = Registry::new();
    assert_eq!(reg.announce(1, &ssh_mapping()), Ok(vec![]));
    let other = vec![Mapping { local_port: 80, exposed_port: 8080 }];
    assert_eq!(reg.announce(2, &other), Ok(vec![]));
    let a = reg.attach(9000, 100).unwrap();
    let b = reg.attach(8080, 100).unwrap();
    let c = reg.attach(9000, 100).unwrap();
    assert_eq!((a.id, b.id, c.id), (0, 1, 2));
    assert_eq!(reg.close_session(1), vec![0, 2]);
    assert_eq!(reg.lookup(9000), None);
    assert_eq!(reg.attach(9000, 100), None);
    assert_eq!(reg.lookup(8080), Some(Binding { session: 2, local_port: 80 }));
    assert_eq!(reg.close_session(2), vec![1]);
    assert_eq!(reg.announce(3, &ssh_mapping()), Ok(vec![]));
    assert_eq!(reg.attach(9000, 100).unwrap().session, 3);
}

#[test]
fn closed_pair_is_not_cancelled_again() {
    let mut reg = Registry::new();
    assert_eq!(reg.announce(1, &ssh_mapping()), Ok(vec![]));
    let a = reg.attach(9000, 100).unwrap();
    let b = reg.attach(9000, 100).unwrap();
    reg.close_pair(a.id);
    assert_eq!(reg.close_session(1), vec![b.id]);
}

#[test]
fn bytes_cross_unchanged_in_order() {
    let mut splice = Splice::new(0, 60_000);
    let chunks: Vec<Vec<u8>> = vec![vec![0, 1, 2], vec![255], vec![7; 1000]];
    let mut out: Vec<u8> = Vec::new();
    for c in &chunks {
        match splice.on_read(Side::Public, c.clone(), 5) {
            SpliceAction::Write { to, bytes } => {
                assert_eq!(to, Side::Private);
                out.extend_from_slice(&bytes);
            }
            other => panic!("unexpected {:?}", other),
        }
    }
    let all: Vec<u8> = chunks.concat();
    assert_eq!(out, all);
}

#[test]
fn half_close_propagates_then_pair_closes() {
    let mut splice = Splice::new(0, 60_000);
    assert_eq!(splice.on_read(Side::Public, vec![], 1), SpliceAction::ShutdownWrite { to: Side::Private });
    assert!(!splice.finished());
    assert_eq!(splice.on_read(Side::Public, b"late".to_vec(), 2), SpliceAction::Nothing);
    assert_eq!(
        splice.on_read(Side::Private, b"reply".to_vec(), 3),
        SpliceAction::Write { to: Side::Public, bytes: b"reply".to_vec() }
    );
    assert_eq!(splice.on_read(Side::Private, vec![], 4), SpliceAction::Close);
    assert!(splice.finished());
}

#[test]
fn relay_error_closes_both_ends() {
    let mut splice = Splice::new(0, 60_000);
    assert_eq!(splice.on_error(), SpliceAction::Close);
    assert!(splice.finished());
    assert_eq!(splice.on_error(), SpliceAction::Nothing);
}

#[test]
fn idle_pair_times_out() {
    let mut splice = Splice::new(100, 1000);
    assert_eq!(splice.on_tick(1099), SpliceAction::Nothing);
    assert_eq!(splice.on_read(Side::Public, vec![1], 500), SpliceAction::Write { to: Side::Private, bytes: vec![1] });
    assert_eq!(splice.on_tick(1499), SpliceAction::Nothing);
    assert_eq!(splice.on_tick(1500), SpliceAction::Close);
    assert!(splice.finished());
}

#[test]
fn pair_limit_refuses_extra_connections() {
    let mut reg = Registry::new();
    assert_eq!(reg.announce(1, &ssh_mapping()), Ok(vec![]));
    let a = reg.attach(9000, 2).unwrap();
    assert!(reg.attach(9000, 2).is_some());
    assert_eq!(reg.attach(9000, 2), None);
    reg.close_pair(a.id);
    assert_eq!(reg.attach(9000, 2).unwrap().id, 2);
}
