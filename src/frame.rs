use crate::registry::Mapping;
use vstd::prelude::*;

verus! {

/// Control messages between an inner client and the server. Relays use
/// dedicated connections: the server asks for one with `RelayRequest`, and the
/// inner client opens a new TLS connection whose first message is `Attach`.
/// This costs a handshake per relay and keeps every stream a plain byte pipe.
#[derive(Clone, Debug, PartialEq, Eq)]
pub enum Message {
    Announce { mappings: Vec<Mapping> },
    Accepted,
    Conflict,
    RelayRequest { pair: u64, local_port: u16 },
    Attach { pair: u64 },
    Ping,
    Pong,
}

/// A message as plain values.
pub enum MessageView {
    Announce { mappings: Seq<Mapping> },
    Accepted,
    Conflict,
    RelayRequest { pair: u64, local_port: u16 },
    Attach { pair: u64 },
    Ping,
    Pong,
}

pub open spec fn message_view(m: Message) -> MessageView {
    match m {
        Message::Announce { mappings } => MessageView::Announce { mappings: mappings@ },
        Message::Accepted => MessageView::Accepted,
        Message::Conflict => MessageView::Conflict,
        Message::RelayRequest { pair, local_port } => MessageView::RelayRequest { pair, local_port },
        Message::Attach { pair } => MessageView::Attach { pair },
        Message::Ping => MessageView::Ping,
        Message::Pong => MessageView::Pong,
    }
}

/// Big-endian bytes of a 16-bit value.
pub open spec fn u16_bytes(v: u16) -> Seq<u8> {
    seq![(v / 256) as u8, (v % 256) as u8]
}

pub open spec fn u16_at(b: Seq<u8>, i: int) -> u16 {
    (b[i] as int * 256 + b[i + 1] as int) as u16
}

/// Big-endian bytes of a 64-bit value.
pub open spec fn u64_bytes(v: u64) -> Seq<u8> {
    seq![
        (v >> 56u64) as u8,
        (v >> 48u64) as u8,
        (v >> 40u64) as u8,
        (v >> 32u64) as u8,
        (v >> 24u64) as u8,
        (v >> 16u64) as u8,
        (v >> 8u64) as u8,
        v as u8,
    ]
}

pub open spec fn u64_of(b0: u8, b1: u8, b2: u8, b3: u8, b4: u8, b5: u8, b6: u8, b7: u8) -> u64 {
    (b0 as u64) << 56u64 | (b1 as u64) << 48u64 | (b2 as u64) << 40u64 | (b3 as u64) << 32u64 | (b4 as u64) << 24u64
        | (b5 as u64) << 16u64 | (b6 as u64) << 8u64 | b7 as u64
}

pub open spec fn u64_at(b: Seq<u8>, i: int) -> u64 {
    u64_of(b[i], b[i + 1], b[i + 2], b[i + 3], b[i + 4], b[i + 5], b[i + 6], b[i + 7])
}

pub open spec fn mapping_bytes(m: Mapping) -> Seq<u8> {
    u16_bytes(m.local_port) + u16_bytes(m.exposed_port)
}

pub open spec fn mappings_bytes(ms: Seq<Mapping>) -> Seq<u8>
    decreases ms.len(),
{
    if ms.len() == 0 {
        Seq::empty()
    } else {
        mappings_bytes(ms.drop_last()) + mapping_bytes(ms.last())
    }
}

/// The bytes of a message: a tag byte, then its fields big-endian; an
/// announcement carries a 16-bit count and four bytes per mapping.
pub open spec fn encoding(m: MessageView) -> Seq<u8> {
    match m {
        MessageView::Announce { mappings } => seq![1u8] + u16_bytes(mappings.len() as u16) + mappings_bytes(mappings),
        MessageView::Accepted => seq![2u8],
        MessageView::Conflict => seq![3u8],
        MessageView::RelayRequest { pair, local_port } => seq![4u8] + u64_bytes(pair) + u16_bytes(local_port),
        MessageView::Attach { pair } => seq![5u8] + u64_bytes(pair),
        MessageView::Ping => seq![6u8],
        MessageView::Pong => seq![7u8],
    }
}

/// The `k`-th mapping of an announcement whose mappings start at `start`.
pub open spec fn mapping_at(b: Seq<u8>, start: int, k: int) -> Mapping {
    Mapping { local_port: u16_at(b, start + 4 * k), exposed_port: u16_at(b, start + 4 * k + 2) }
}

/// The first message in `b` and how many bytes it takes, or nothing when `b`
/// does not start with a whole message.
pub open spec fn decoding(b: Seq<u8>) -> Option<(MessageView, nat)> {
    if b.len() == 0 {
        None
    } else if b[0] == 1 {
        if b.len() < 3 {
            None
        } else {
            let n = u16_at(b, 1) as int;
            if b.len() < 3 + 4 * n {
                None
            } else {
                Some(
                    (
                        MessageView::Announce { mappings: Seq::new(n as nat, |k: int| mapping_at(b, 3, k)) },
                        (3 + 4 * n) as nat,
                    ),
                )
            }
        }
    } else if b[0] == 2 {
        Some((MessageView::Accepted, 1))
    } else if b[0] == 3 {
        Some((MessageView::Conflict, 1))
    } else if b[0] == 4 {
        if b.len() < 11 {
            None
        } else {
            Some((MessageView::RelayRequest { pair: u64_at(b, 1), local_port: u16_at(b, 9) }, 11))
        }
    } else if b[0] == 5 {
        if b.len() < 9 {
            None
        } else {
            Some((MessageView::Attach { pair: u64_at(b, 1) }, 9))
        }
    } else if b[0] == 6 {
        Some((MessageView::Ping, 1))
    } else if b[0] == 7 {
        Some((MessageView::Pong, 1))
    } else {
        None
    }
}

/// A message can be written: an announcement has at most 65535 mappings.
pub open spec fn encodable(m: MessageView) -> bool {
    m matches MessageView::Announce { mappings } ==> mappings.len() <= 65535
}

proof fn lemma_u16_round_trip(v: u16)
    ensures
        u16_at(u16_bytes(v), 0) == v,
{
}

proof fn lemma_u64_round_trip(v: u64)
    ensures
        u64_at(u64_bytes(v), 0) == v,
{
    let b = u64_bytes(v);
    assert(u64_of(
        (v >> 56u64) as u8,
        (v >> 48u64) as u8,
        (v >> 40u64) as u8,
        (v >> 32u64) as u8,
        (v >> 24u64) as u8,
        (v >> 16u64) as u8,
        (v >> 8u64) as u8,
        v as u8,
    ) == v) by (bit_vector);
}

proof fn lemma_mappings_bytes(ms: Seq<Mapping>, pre: Seq<u8>, rest: Seq<u8>)
    ensures
        mappings_bytes(ms).len() == 4 * ms.len(),
        forall|k: int| 0 <= k < ms.len() ==> #[trigger] mapping_at(pre + mappings_bytes(ms) + rest, pre.len() as int, k) == ms[k],
    decreases ms.len(),
{
    if ms.len() > 0 {
        let init = ms.drop_last();
        let all = pre + mappings_bytes(ms) + rest;
        lemma_mappings_bytes(init, pre, mapping_bytes(ms.last()) + rest);
        assert(pre + mappings_bytes(init) + (mapping_bytes(ms.last()) + rest) =~= all);
        let m = ms.last();
        let s: int = (pre.len() + 4 * init.len()) as int;
        lemma_u16_round_trip(m.local_port);
        lemma_u16_round_trip(m.exposed_port);
        assert(all[s] == u16_bytes(m.local_port)[0]);
        assert(all[s + 1] == u16_bytes(m.local_port)[1]);
        assert(all[s + 2] == u16_bytes(m.exposed_port)[0]);
        assert(all[s + 3] == u16_bytes(m.exposed_port)[1]);
        assert forall|k: int| 0 <= k < ms.len() implies #[trigger] mapping_at(all, pre.len() as int, k) == ms[k] by {
            if k < init.len() {
                assert(ms[k] == init[k]);
            } else {
                assert(mapping_at(all, pre.len() as int, k) == m);
            }
        }
    }
}

/// A written message reads back as itself, whatever follows it, and takes
/// exactly its own bytes.
pub proof fn law_frame_round_trip(m: MessageView, rest: Seq<u8>)
    requires
        encodable(m),
    ensures
        decoding(encoding(m) + rest) == Some((m, encoding(m).len())),
{
    let b = encoding(m) + rest;
    match m {
        MessageView::Announce { mappings } => {
            let n = mappings.len();
            lemma_u16_round_trip(n as u16);
            let head = seq![1u8] + u16_bytes(n as u16);
            lemma_mappings_bytes(mappings, head, rest);
            assert(b =~= head + mappings_bytes(mappings) + rest);
            assert(b[1] == u16_bytes(n as u16)[0]);
            assert(b[2] == u16_bytes(n as u16)[1]);
            assert(u16_at(b, 1) == n);
            assert(Seq::new(n as nat, |k: int| mapping_at(b, 3, k)) =~= mappings);
        },
        MessageView::RelayRequest { pair, local_port } => {
            lemma_u64_round_trip(pair);
            lemma_u16_round_trip(local_port);
            assert(u64_at(b, 1) == u64_at(u64_bytes(pair), 0));
            assert(b[9] == u16_bytes(local_port)[0]);
            assert(b[10] == u16_bytes(local_port)[1]);
        },
        MessageView::Attach { pair } => {
            lemma_u64_round_trip(pair);
            assert(u64_at(b, 1) == u64_at(u64_bytes(pair), 0));
        },
        _ => {},
    }
}

fn push_u16(out: &mut Vec<u8>, v: u16)
    ensures
        final(out)@ == old(out)@ + u16_bytes(v),
{
    out.push((v / 256) as u8);
    out.push((v % 256) as u8);
    proof {
        assert(final(out)@ =~= old(out)@ + u16_bytes(v));
    }
}

fn push_u64(out: &mut Vec<u8>, v: u64)
    ensures
        final(out)@ == old(out)@ + u64_bytes(v),
{
    out.push((v >> 56u64) as u8);
    out.push((v >> 48u64) as u8);
    out.push((v >> 40u64) as u8);
    out.push((v >> 32u64) as u8);
    out.push((v >> 24u64) as u8);
    out.push((v >> 16u64) as u8);
    out.push((v >> 8u64) as u8);
    out.push(v as u8);
    proof {
        assert(final(out)@ =~= old(out)@ + u64_bytes(v));
    }
}

fn read_u16(b: &[u8], i: usize) -> (r: u16)
    requires
        i + 2 <= b@.len(),
    ensures
        r == u16_at(b@, i as int),
{
    (b[i] as u16) * 256 + b[i + 1] as u16
}

fn read_u64(b: &[u8], i: usize) -> (r: u64)
    requires
        i + 8 <= b@.len(),
    ensures
        r == u64_at(b@, i as int),
{
    (b[i] as u64) << 56u64 | (b[i + 1] as u64) << 48u64 | (b[i + 2] as u64) << 40u64 | (b[i + 3] as u64) << 32u64 | (b[i
        + 4] as u64) << 24u64 | (b[i + 5] as u64) << 16u64 | (b[i + 6] as u64) << 8u64 | b[i + 7] as u64
}

/// The bytes of a message.
pub fn encode(m: &Message) -> (r: Vec<u8>)
    requires
        encodable(message_view(*m)),
    ensures
        r@ == encoding(message_view(*m)),
{
    let mut out: Vec<u8> = Vec::new();
    match m {
        Message::Announce { mappings } => {
            out.push(1);
            push_u16(&mut out, mappings.len() as u16);
            let ghost head = out@;
            let mut k: usize = 0;
            while k < mappings.len()
                invariant
                    k <= mappings@.len(),
                    out@ == head + mappings_bytes(mappings@.take(k as int)),
                decreases mappings@.len() - k,
            {
                push_u16(&mut out, mappings[k].local_port);
                push_u16(&mut out, mappings[k].exposed_port);
                proof {
                    assert(mappings@.take(k + 1).drop_last() =~= mappings@.take(k as int));
                    assert(out@ =~= head + mappings_bytes(mappings@.take(k + 1)));
                }
                k += 1;
            }
            proof {
                assert(mappings@.take(mappings@.len() as int) =~= mappings@);
                assert(out@ =~= encoding(message_view(*m)));
            }
        },
        Message::Accepted => out.push(2),
        Message::Conflict => out.push(3),
        Message::RelayRequest { pair, local_port } => {
            out.push(4);
            push_u64(&mut out, *pair);
            push_u16(&mut out, *local_port);
            proof {
                assert(out@ =~= encoding(message_view(*m)));
            }
        },
        Message::Attach { pair } => {
            out.push(5);
            push_u64(&mut out, *pair);
            proof {
                assert(out@ =~= encoding(message_view(*m)));
            }
        },
        Message::Ping => out.push(6),
        Message::Pong => out.push(7),
    }
    proof {
        assert(out@ =~= encoding(message_view(*m)));
    }
    out
}

/// The first message in `b` and the number of bytes it takes; nothing when
/// `b` does not start with a whole message (too short, or an unknown tag).
pub fn decode(b: &[u8]) -> (r: Option<(Message, usize)>)
    ensures
        match r {
            Some((m, n)) => decoding(b@) == Some((message_view(m), n as nat)),
            None => decoding(b@) is None,
        },
{
    if b.len() == 0 {
        return None;
    }
    let tag = b[0];
    if tag == 1 {
        if b.len() < 3 {
            return None;
        }
        let n = read_u16(b, 1) as usize;
        if b.len() < 3 + 4 * n {
            return None;
        }
        let mut ms: Vec<Mapping> = Vec::new();
        let mut k: usize = 0;
        while k < n
            invariant
                k <= n,
                n == u16_at(b@, 1),
                3 + 4 * n <= b@.len(),
                ms@ == Seq::new(k as nat, |j: int| mapping_at(b@, 3, j)),
            decreases n - k,
        {
            let m = Mapping { local_port: read_u16(b, 3 + 4 * k), exposed_port: read_u16(b, 3 + 4 * k + 2) };
            ms.push(m);
            proof {
                assert(ms@ =~= Seq::new((k + 1) as nat, |j: int| mapping_at(b@, 3, j)));
            }
            k += 1;
        }
        Some((Message::Announce { mappings: ms }, 3 + 4 * n))
    } else if tag == 2 {
        Some((Message::Accepted, 1))
    } else if tag == 3 {
        Some((Message::Conflict, 1))
    } else if tag == 4 {
        if b.len() < 11 {
            return None;
        }
        Some((Message::RelayRequest { pair: read_u64(b, 1), local_port: read_u16(b, 9) }, 11))
    } else if tag == 5 {
        if b.len() < 9 {
            return None;
        }
        Some((Message::Attach { pair: read_u64(b, 1) }, 9))
    } else if tag == 6 {
        Some((Message::Ping, 1))
    } else if tag == 7 {
        Some((Message::Pong, 1))
    } else {
        None
    }
}

} // verus!
