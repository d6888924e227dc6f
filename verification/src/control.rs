//! Wire formats that the bonding engine reads itself: the Noise message type
//! at the head of every tunnel datagram, and the 13-byte control frame that
//! probes a link.
//!
//! A control frame is the four bytes `VTBD`, one type byte, and a token of
//! eight bytes, most significant first.

use vstd::prelude::*;

verus! {

/// Message type of a probe.
pub const BOND_PING: u8 = 1;

/// Message type of a probe reply.
pub const BOND_PONG: u8 = 2;

/// Length of every control frame.
pub const BOND_PACKET_LEN: usize = 13;

/// Length of a Noise keepalive: a transport message without payload.
pub const WG_KEEPALIVE_LEN: usize = 32;

/// The kinds of datagram that the dispatcher tells apart.
#[derive(Debug, Clone, Copy, PartialEq, Eq, Structural)]
pub enum PacketClass {
    /// Noise initiation, response or cookie reply: message types 1, 2 and 3.
    Handshake,
    /// A transport message, type 4, of exactly 32 bytes.
    Keepalive,
    /// A transport message, type 4, longer than 32 bytes.
    Data,
    /// Anything else.
    Unknown,
}

/// The bytes `VTBD` that open a control frame.
pub open spec fn magic() -> Seq<u8> {
    seq![0x56u8, 0x54u8, 0x42u8, 0x44u8]
}

/// The number that four bytes spell, least significant first.
pub open spec fn le_u32(b: Seq<u8>) -> int
    recommends
        b.len() == 4,
{
    b[0] as int + b[1] as int * 0x100 + b[2] as int * 0x1_0000 + b[3] as int * 0x100_0000
}

/// The number that eight bytes spell, most significant first.
pub open spec fn be_u64(b: Seq<u8>) -> int
    recommends
        b.len() == 8,
{
    b[0] as int * 0x100_0000_0000_0000 + b[1] as int * 0x1_0000_0000_0000 + b[2] as int
        * 0x100_0000_0000 + b[3] as int * 0x1_0000_0000 + b[4] as int * 0x100_0000 + b[5] as int
        * 0x1_0000 + b[6] as int * 0x100 + b[7] as int
}

/// The eight bytes that spell `token`, most significant first.
pub open spec fn be_bytes(token: u64) -> Seq<u8> {
    seq![
        (token / 0x100_0000_0000_0000) as u8,
        (token / 0x1_0000_0000_0000 % 0x100) as u8,
        (token / 0x100_0000_0000 % 0x100) as u8,
        (token / 0x1_0000_0000 % 0x100) as u8,
        (token / 0x100_0000 % 0x100) as u8,
        (token / 0x1_0000 % 0x100) as u8,
        (token / 0x100 % 0x100) as u8,
        (token % 0x100) as u8,
    ]
}

/// The control frame of a message type and a token.
pub open spec fn frame(message_type: u8, token: u64) -> Seq<u8> {
    magic().push(message_type) + be_bytes(token)
}

/// What a datagram says as a control frame, if it is one: thirteen bytes that
/// begin with the magic.
pub open spec fn parsed(data: Seq<u8>) -> Option<(u8, u64)> {
    if data.len() == 13 && data.subrange(0, 4) == magic() {
        Some((data[4], be_u64(data.subrange(5, 13)) as u64))
    } else {
        None
    }
}

/// The Noise message type of a datagram: its first four bytes, least
/// significant first.
pub open spec fn message_type(packet: Seq<u8>) -> Option<u32> {
    if packet.len() < 4 {
        None
    } else {
        Some(le_u32(packet.subrange(0, 4)) as u32)
    }
}

/// The class of a datagram.
pub open spec fn class_of(packet: Seq<u8>) -> PacketClass {
    match message_type(packet) {
        Some(kind) => if 1 <= kind <= 3 {
            PacketClass::Handshake
        } else if kind == 4 && packet.len() == 32 {
            PacketClass::Keepalive
        } else if kind == 4 && packet.len() > 32 {
            PacketClass::Data
        } else {
            PacketClass::Unknown
        },
        None => PacketClass::Unknown,
    }
}

/// Eight bytes spell one number below 2^64.
pub proof fn lemma_be_u64_range(b: Seq<u8>)
    requires
        b.len() == 8,
    ensures
        0 <= be_u64(b) <= u64::MAX,
{
}

/// A token is spelled by its bytes, and the bytes of a token spell it.
pub proof fn lemma_be_round_trip(token: u64)
    ensures
        be_bytes(token).len() == 8,
        be_u64(be_bytes(token)) == token,
{
    assert((token / 0x100_0000_0000_0000) * 0x100_0000_0000_0000 + (token / 0x1_0000_0000_0000
        % 0x100) * 0x1_0000_0000_0000 + (token / 0x100_0000_0000 % 0x100) * 0x100_0000_0000 + (
    token / 0x1_0000_0000 % 0x100) * 0x1_0000_0000 + (token / 0x100_0000 % 0x100) * 0x100_0000 + (
    token / 0x1_0000 % 0x100) * 0x1_0000 + (token / 0x100 % 0x100) * 0x100 + token % 0x100
        == token) by (bit_vector);
    assert(token / 0x100_0000_0000_0000 < 0x100) by (bit_vector);
}

/// A frame that was built parses to the type and token it was built from.
pub proof fn lemma_control_round_trip(message_type: u8, token: u64)
    ensures
        frame(message_type, token).len() == 13,
        parsed(frame(message_type, token)) == Some((message_type, token)),
{
    let f = frame(message_type, token);
    lemma_be_round_trip(token);
    assert(f.subrange(0, 4) =~= magic());
    assert(f.subrange(5, 13) =~= be_bytes(token));
    assert(f[4] == message_type);
}

/// Nothing but thirteen bytes that begin with the magic is a control frame.
pub proof fn lemma_control_rejects(data: Seq<u8>)
    ensures
        data.len() != 13 ==> parsed(data) is None,
        data.len() == 13 && !(data[0] == 0x56 && data[1] == 0x54 && data[2] == 0x42 && data[3]
            == 0x44) ==> parsed(data) is None,
        data.len() == 13 && data[0] == 0x56 && data[1] == 0x54 && data[2] == 0x42 && data[3]
            == 0x44 ==> parsed(data) is Some,
{
    if data.len() == 13 {
        let head = data.subrange(0, 4);
        assert(head[0] == data[0] && head[1] == data[1] && head[2] == data[2] && head[3]
            == data[3]);
        if data[0] == 0x56 && data[1] == 0x54 && data[2] == 0x42 && data[3] == 0x44 {
            assert(head =~= magic());
        } else {
            assert(magic()[0] == 0x56 && magic()[1] == 0x54 && magic()[2] == 0x42 && magic()[3]
                == 0x44);
        }
    }
}

/// Reads the Noise message type: the first four bytes, least significant first.
pub fn wg_packet_type(packet: &[u8]) -> (kind: Option<u32>)
    ensures
        kind == message_type(packet@),
{
    if packet.len() < 4 {
        return None;
    }
    let b0: u32 = packet[0] as u32;
    let b1: u32 = packet[1] as u32;
    let b2: u32 = packet[2] as u32;
    let b3: u32 = packet[3] as u32;
    Some(b0 + b1 * 0x100 + b2 * 0x1_0000 + b3 * 0x100_0000)
}

/// Sorts a datagram into the class that decides how it is dispatched.
pub fn classify(packet: &[u8]) -> (class: PacketClass)
    ensures
        class == class_of(packet@),
{
    match wg_packet_type(packet) {
        Some(kind) => {
            if 1 <= kind && kind <= 3 {
                PacketClass::Handshake
            } else if kind == 4 && packet.len() == WG_KEEPALIVE_LEN {
                PacketClass::Keepalive
            } else if kind == 4 && packet.len() > WG_KEEPALIVE_LEN {
                PacketClass::Data
            } else {
                PacketClass::Unknown
            }
        },
        None => PacketClass::Unknown,
    }
}

/// Builds the control frame of a message type and a token.
pub fn build_control_packet(message_type: u8, token: u64) -> (buf: [u8; 13])
    ensures
        buf@ == frame(message_type, token),
        parsed(buf@) == Some((message_type, token)),
{
    let mut buf: [u8; 13] = [0u8; 13];
    buf[0] = 0x56;
    buf[1] = 0x54;
    buf[2] = 0x42;
    buf[3] = 0x44;
    buf[4] = message_type;
    buf[5] = (token / 0x100_0000_0000_0000) as u8;
    buf[6] = (token / 0x1_0000_0000_0000 % 0x100) as u8;
    buf[7] = (token / 0x100_0000_0000 % 0x100) as u8;
    buf[8] = (token / 0x1_0000_0000 % 0x100) as u8;
    buf[9] = (token / 0x100_0000 % 0x100) as u8;
    buf[10] = (token / 0x1_0000 % 0x100) as u8;
    buf[11] = (token / 0x100 % 0x100) as u8;
    buf[12] = (token % 0x100) as u8;
    proof {
        assert(buf@ =~= frame(message_type, token));
        lemma_control_round_trip(message_type, token);
    }
    buf
}

/// Reads a datagram as a control frame. Gives the message type and the token
/// of a frame, and `None` for every other datagram.
pub fn parse_control_packet(data: &[u8]) -> (result: Option<(u8, u64)>)
    ensures
        result == parsed(data@),
        data@.len() != 13 ==> result is None,
{
    if data.len() != BOND_PACKET_LEN {
        return None;
    }
    if data[0] != 0x56 || data[1] != 0x54 || data[2] != 0x42 || data[3] != 0x44 {
        proof {
            lemma_control_rejects(data@);
        }
        return None;
    }
    proof {
        lemma_control_rejects(data@);
        lemma_be_u64_range(data@.subrange(5, 13));
    }
    let message_type = data[4];
    let b0: u64 = data[5] as u64;
    let b1: u64 = data[6] as u64;
    let b2: u64 = data[7] as u64;
    let b3: u64 = data[8] as u64;
    let b4: u64 = data[9] as u64;
    let b5: u64 = data[10] as u64;
    let b6: u64 = data[11] as u64;
    let b7: u64 = data[12] as u64;
    let token: u64 = b0 * 0x100_0000_0000_0000 + b1 * 0x1_0000_0000_0000 + b2 * 0x100_0000_0000
        + b3 * 0x1_0000_0000 + b4 * 0x100_0000 + b5 * 0x1_0000 + b6 * 0x100 + b7;
    Some((message_type, token))
}

} // verus!
