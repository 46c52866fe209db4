use nat_tunnel::frame::{decode, encode, Message};
use nat_tunnel::registry::Mapping;

#[test]
fn announce_round_trips_with_trailing_bytes() {
    let m = Message::Announce {
        mappings: vec![
            Mapping { local_port: 2222, exposed_port: 9000 },
            Mapping { local_port: 1, exposed_port: 65535 },
        ],
    };
    let mut b = encode(&m);
    assert_eq!(b, vec![1, 0, 2, 0x08, 0xAE, 0x23, 0x28, 0, 1, 0xFF, 0xFF]);
    b.extend_from_slice(&[6, 6]);
    assert_eq!(decode(&b), Some((m, 11)));
}

#[test]
fn relay_request_and_attach_round_trip() {
    let m = Message::RelayRequest { pair: 0x0102030405060708, local_port: 2222 };
    let b = encode(&m);
    assert_eq!(b, vec![4, 1, 2, 3, 4, 5, 6, 7, 8, 0x08, 0xAE]);
    assert_eq!(decode(&b), Some((m, 11)));
    let a = Message::Attach { pair: u64::MAX };
    assert_eq!(decode(&encode(&a)), Some((a, 9)));
}

#[test]
fn short_or_unknown_frames_do_not_decode() {
    assert_eq!(decode(&[]), None);
    assert_eq!(decode(&[1, 0]), None);
    assert_eq!(decode(&[1, 0, 1, 0, 0, 0]), None);
    assert_eq!(decode(&[4, 1, 2]), None);
    assert_eq!(decode(&[5, 0, 0, 0, 0, 0, 0, 0]), None);
    assert_eq!(decode(&[9]), None);
}

#[test]
fn single_byte_frames_round_trip() {
    for m in [Message::Accepted, Message::Conflict, Message::Ping, Message::Pong] {
        let b = encode(&m);
        assert_eq!(b.len(), 1);
        assert_eq!(decode(&b), Some((m, 1)));
    }
    assert_eq!(decode(&encode(&Message::Announce { mappings: vec![] })), Some((Message::Announce { mappings: vec![] }, 3)));
}
