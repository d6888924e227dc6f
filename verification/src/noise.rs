//! The Noise session: `boringtun`'s tunnel behind a driver that owns the
//! output buffer and keeps it large enough for everything the tunnel may
//! write into it.
//!
//! The tunnel keeps a queue of packets that arrived before a session was
//! established, and writes them out later. The driver's invariant is over
//! that queue: no queued packet is longer than the driver's packet limit.

use boringtun::noise::errors::WireGuardError;
use boringtun::noise::Tunn;
use boringtun::noise::TunnResult;
use boringtun::x25519::PublicKey;
use boringtun::x25519::StaticSecret;
use vstd::prelude::*;
use vstd::string::*;

use crate::address::IpAddress;
use crate::control::class_of;
use crate::control::message_type;
use crate::control::wg_packet_type;
use crate::control::PacketClass;
use crate::error::VtrunkdError;
use crate::error::VtrunkdResult;
use crate::text::join;

verus! {

/// `boringtun`'s tunnel.
#[verifier::external_type_specification]
#[verifier::external_body]
pub struct ExTunn(Tunn);

/// `boringtun`'s error.
#[verifier::external_type_specification]
#[verifier::external_body]
pub struct ExWireGuardError(WireGuardError);

/// The packets that wait in a tunnel's queue for a session.
pub uninterp spec fn queued(tunnel: Tunn) -> Seq<Seq<u8>>;

/// The least buffer that holds a handshake initiation.
pub const MIN_BUFFER: usize = 148;

/// The bytes that the tunnel adds to a packet.
pub const DATA_OVERHEAD: usize = 32;

/// The width of the window of counters in which the session takes transport
/// messages out of order.
pub const COUNTER_WINDOW: u64 = 1024;

/// What the tunnel asks for after a call.
#[derive(Debug)]
pub enum NoiseOutput {
    /// Nothing.
    Done,
    /// The call failed.
    Failed(WireGuardError),
    /// Send these bytes to the peer.
    WriteToNetwork(Vec<u8>),
    /// Hand this IPv4 packet, from this source, to the tunnel device.
    WriteToTunnelV4(Vec<u8>, u32),
    /// Hand this IPv6 packet, from this source, to the tunnel device.
    WriteToTunnelV6(Vec<u8>, u128),
}

/// Whether every packet in the tunnel's queue is at most `limit` bytes long.
pub open spec fn backlog_within(tunnel: Tunn, limit: int) -> bool {
    forall|i: int| 0 <= i < queued(tunnel).len() ==> (#[trigger] queued(tunnel)[i]).len() <= limit
}

/// Whether `b` is a handshake initiation by type and length: 148 bytes of
/// message type 1.
pub open spec fn is_initiation(b: Seq<u8>) -> bool {
    b.len() == 148 && message_type(b) == Some(1u32)
}

/// Whether `b` is a transport message around `payload` bytes by type and
/// length: message type 4, and 32 bytes more than the payload.
pub open spec fn is_transport(b: Seq<u8>, payload: int) -> bool {
    b.len() == payload + 32 && message_type(b) == Some(4u32)
}

/// Whether `b` is a message of the tunnel's protocol by type and length: an
/// initiation of 148 bytes, a response of 92, a cookie reply of 64, or a
/// transport message of 32 or more.
pub open spec fn is_message(b: Seq<u8>) -> bool {
    match message_type(b) {
        Some(kind) => {
            ||| kind == 1 && b.len() == 148
            ||| kind == 2 && b.len() == 92
            ||| kind == 3 && b.len() == 64
            ||| kind == 4 && b.len() >= 32
        },
        None => false,
    }
}

/// The number that eight bytes spell, least significant first.
pub open spec fn le_u64(b: Seq<u8>) -> int
    recommends
        b.len() == 8,
{
    b[0] as int + b[1] as int * 0x100 + b[2] as int * 0x1_0000 + b[3] as int * 0x100_0000 + b[4] as int
        * 0x1_0000_0000 + b[5] as int * 0x100_0000_0000 + b[6] as int * 0x1_0000_0000_0000
        + b[7] as int * 0x100_0000_0000_0000
}

/// The counter of a transport message: the bytes 8 to 15 of a datagram of
/// message type 4 and of 32 bytes or more, least significant first. No other
/// datagram has a counter.
pub open spec fn counter_of(datagram: Seq<u8>) -> Option<int> {
    if datagram.len() >= 32 && message_type(datagram) == Some(4u32) {
        Some(le_u64(datagram.subrange(8, 16)))
    } else {
        None
    }
}

/// Whether the session can take a datagram by its counter: the session keeps
/// a window of 1024 counters and adds the window's width to the counter it
/// is given, so a counter within 1024 of the largest is beyond it.
pub open spec fn counter_fits(datagram: Seq<u8>) -> bool {
    counter_of(datagram) matches Some(counter) ==> counter <= u64::MAX - COUNTER_WINDOW
}

/// What wrapping a packet of `payload` bytes can give: the transport message
/// around it where a session is open; else nothing, or the initiation of the
/// handshake that is to open one.
pub open spec fn wrapped(out: NoiseOutput, payload: int) -> bool {
    match out {
        NoiseOutput::Done => true,
        NoiseOutput::WriteToNetwork(b) => is_transport(b@, payload) || is_initiation(b@),
        _ => false,
    }
}

/// What the passing of time can give: nothing, the end of the session, a
/// keepalive, which is a transport message around nothing, or the initiation
/// of a new handshake.
pub open spec fn ticked(out: NoiseOutput) -> bool {
    match out {
        NoiseOutput::Done => true,
        NoiseOutput::Failed(_) => true,
        NoiseOutput::WriteToNetwork(b) => is_transport(b@, 0) || is_initiation(b@),
        _ => false,
    }
}

/// What asking for a handshake initiation can give: the initiation; or
/// nothing, if resending was not forced.
pub open spec fn initiated(out: NoiseOutput, force_resend: bool) -> bool {
    match out {
        NoiseOutput::Done => !force_resend,
        NoiseOutput::WriteToNetwork(b) => is_initiation(b@),
        _ => false,
    }
}

/// What unwrapping a datagram of `datagram` bytes into a buffer of `room`
/// bytes can give: nothing, a failure, a message for the peer that fits the
/// buffer, or a packet for the tunnel device, which is shorter than the
/// datagram by the tunnel's 32 bytes at least.
pub open spec fn unwrapped(out: NoiseOutput, datagram: int, room: int) -> bool {
    match out {
        NoiseOutput::Done => true,
        NoiseOutput::Failed(_) => true,
        NoiseOutput::WriteToNetwork(b) => is_message(b@) && b@.len() <= room,
        NoiseOutput::WriteToTunnelV4(b, _) => b@.len() + 32 <= datagram,
        NoiseOutput::WriteToTunnelV6(b, _) => b@.len() + 32 <= datagram,
    }
}

/// The length of the buffer for packets of up to `limit` bytes: room for the
/// packet with the tunnel's overhead, and for a handshake initiation.
pub open spec fn buffer_len(limit: usize) -> int {
    if limit + DATA_OVERHEAD < MIN_BUFFER {
        MIN_BUFFER as int
    } else {
        limit + DATA_OVERHEAD
    }
}

/// An initiation is a handshake message; a transport message around nothing
/// is a keepalive, one around something is data.
pub proof fn lemma_message_classes(b: Seq<u8>, payload: int)
    ensures
        is_initiation(b) ==> class_of(b) == PacketClass::Handshake && is_message(b),
        is_transport(b, payload) && payload == 0 ==> class_of(b) == PacketClass::Keepalive,
        is_transport(b, payload) && payload > 0 ==> class_of(b) == PacketClass::Data,
        is_transport(b, payload) && payload >= 0 ==> is_message(b),
{
}

/// The classes of what the session writes for the peer: an initiation is
/// dispatched as a handshake, a keepalive as a keepalive, a wrapped packet
/// as data.
pub proof fn lemma_output_classes(out: NoiseOutput, payload: int)
    ensures
        out matches NoiseOutput::WriteToNetwork(b) ==> {
            &&& is_initiation(b@) ==> class_of(b@) == PacketClass::Handshake
            &&& is_transport(b@, payload) && payload == 0 ==> class_of(b@)
                == PacketClass::Keepalive
            &&& is_transport(b@, payload) && payload > 0 ==> class_of(b@) == PacketClass::Data
        },
{
    match out {
        NoiseOutput::WriteToNetwork(b) => {
            lemma_message_classes(b@, payload);
        },
        _ => {},
    }
}

/// `Tunn::new` with no rate limiter of the caller's. It returns a `Result`,
/// but none of the steps it takes has a failing outcome: it always gives a
/// tunnel. A new tunnel's queue is empty. The error, a text, is handed on as
/// a `String`.
#[verifier::external_body]
fn tunn_new(
    private: [u8; 32],
    peer_public: [u8; 32],
    preshared: Option<[u8; 32]>,
    keepalive: Option<u16>,
    index: u32,
) -> (made: Result<Tunn, String>)
    ensures
        made is Ok,
        made matches Ok(tunnel) ==> queued(tunnel).len() == 0,
{
    let secret = StaticSecret::from(private);
    match Tunn::new(secret, PublicKey::from(peer_public), preshared, keepalive, index, None) {
        Ok(tunnel) => Ok(tunnel),
        Err(text) => Err(text.to_string()),
    }
}

/// `Tunn::encapsulate`. It panics on a buffer shorter than the packet and 32
/// bytes more, so that is required, with the 148 bytes its documentation asks
/// for. With an open session it gives the transport message around the
/// packet: 16 bytes of header that begin with message type 4, the packet
/// sealed, and 16 bytes of tag. Without one it queues the packet and gives
/// what `format_handshake_initiation` gives unforced: nothing, or an
/// initiation of 148 bytes that begins with message type 1. In a buffer of
/// the required length it has no failure to report. The buffer keeps its
/// length. The queue gains the packet at most.
#[verifier::external_body]
fn tunn_encapsulate(tunnel: &mut Tunn, src: &[u8], dst: &mut Vec<u8>) -> (out: NoiseOutput)
    requires
        old(dst)@.len() >= 148,
        old(dst)@.len() >= src@.len() + 32,
    ensures
        wrapped(out, src@.len() as int),
        final(dst)@.len() == old(dst)@.len(),
        forall|i: int|
            0 <= i < queued(*final(tunnel)).len() ==> queued(*old(tunnel)).contains(
                #[trigger] queued(*final(tunnel))[i],
            ) || queued(*final(tunnel))[i] == src@,
{
    match tunnel.encapsulate(src, dst.as_mut_slice()) {
        TunnResult::Done => NoiseOutput::Done,
        TunnResult::Err(e) => NoiseOutput::Failed(e),
        TunnResult::WriteToNetwork(b) => NoiseOutput::WriteToNetwork(b.to_vec()),
        TunnResult::WriteToTunnelV4(b, a) => NoiseOutput::WriteToTunnelV4(b.to_vec(), u32::from(a)),
        TunnResult::WriteToTunnelV6(b, a) => NoiseOutput::WriteToTunnelV6(b.to_vec(), u128::from(a)),
    }
}

/// `Tunn::decapsulate`. It panics on a buffer shorter than the datagram's
/// payload, than a cookie reply, or than a queued packet and 32 bytes more;
/// all of that is required. Where overflow is checked it also panics on a
/// transport message whose counter is within 1024 of the largest, since it
/// adds 1024 to the counter; such a datagram is left out. What it gives for the peer is written into the
/// buffer and is one of: a handshake response, 92 bytes of message type 2; a
/// cookie reply, 64 bytes of type 3; a keepalive or a queued packet wrapped,
/// 32 bytes or more of type 4; an initiation, 148 bytes of type 1. What it
/// gives for the tunnel device is cut from the payload of a transport
/// message, which is 32 bytes shorter than the datagram. The buffer keeps
/// its length. The queue gains nothing.
#[verifier::external_body]
fn tunn_decapsulate(
    tunnel: &mut Tunn,
    src: Option<IpAddress>,
    datagram: &[u8],
    dst: &mut Vec<u8>,
) -> (out: NoiseOutput)
    requires
        old(dst)@.len() >= 148,
        old(dst)@.len() >= datagram@.len(),
        backlog_within(*old(tunnel), old(dst)@.len() - 32),
        counter_fits(datagram@),
    ensures
        unwrapped(out, datagram@.len() as int, old(dst)@.len() as int),
        final(dst)@.len() == old(dst)@.len(),
        forall|i: int|
            0 <= i < queued(*final(tunnel)).len() ==> queued(*old(tunnel)).contains(
                #[trigger] queued(*final(tunnel))[i],
            ),
{
    let from = match src {
        Some(IpAddress::V4(bits)) => Some(bits.to_be_bytes().into()),
        Some(IpAddress::V6(bits)) => Some(bits.to_be_bytes().into()),
        None => None,
    };
    match tunnel.decapsulate(from, datagram, dst.as_mut_slice()) {
        TunnResult::Done => NoiseOutput::Done,
        TunnResult::Err(e) => NoiseOutput::Failed(e),
        TunnResult::WriteToNetwork(b) => NoiseOutput::WriteToNetwork(b.to_vec()),
        TunnResult::WriteToTunnelV4(b, a) => NoiseOutput::WriteToTunnelV4(b.to_vec(), u32::from(a)),
        TunnResult::WriteToTunnelV6(b, a) => NoiseOutput::WriteToTunnelV6(b.to_vec(), u128::from(a)),
    }
}

/// `Tunn::update_timers`. A keepalive that falls due is written like an empty
/// packet, for which the buffer must hold 32 bytes; 148 are required. It
/// gives nothing, or the expiry of the connection as a failure, or what
/// `format_handshake_initiation` gives when forced, or what `encapsulate`
/// gives for an empty packet. The buffer keeps its length. The queue gains an
/// empty packet at most.
#[verifier::external_body]
fn tunn_update_timers(tunnel: &mut Tunn, dst: &mut Vec<u8>) -> (out: NoiseOutput)
    requires
        old(dst)@.len() >= 148,
    ensures
        ticked(out),
        final(dst)@.len() == old(dst)@.len(),
        forall|i: int|
            0 <= i < queued(*final(tunnel)).len() ==> queued(*old(tunnel)).contains(
                #[trigger] queued(*final(tunnel))[i],
            ) || queued(*final(tunnel))[i].len() == 0,
{
    match tunnel.update_timers(dst.as_mut_slice()) {
        TunnResult::Done => NoiseOutput::Done,
        TunnResult::Err(e) => NoiseOutput::Failed(e),
        TunnResult::WriteToNetwork(b) => NoiseOutput::WriteToNetwork(b.to_vec()),
        TunnResult::WriteToTunnelV4(b, a) => NoiseOutput::WriteToTunnelV4(b.to_vec(), u32::from(a)),
        TunnResult::WriteToTunnelV6(b, a) => NoiseOutput::WriteToTunnelV6(b.to_vec(), u128::from(a)),
    }
}

/// `Tunn::format_handshake_initiation`. While a handshake is under way and
/// resending is not forced it gives nothing. Else it writes an initiation:
/// 148 bytes that begin with message type 1. Its one failure is a buffer
/// shorter than that, which is left out. The buffer keeps its length. The
/// queue stays as it is.
#[verifier::external_body]
fn tunn_format_handshake_initiation(tunnel: &mut Tunn, dst: &mut Vec<u8>, force_resend: bool) -> (out:
    NoiseOutput)
    requires
        old(dst)@.len() >= 148,
    ensures
        initiated(out, force_resend),
        final(dst)@.len() == old(dst)@.len(),
        queued(*final(tunnel)) == queued(*old(tunnel)),
{
    match tunnel.format_handshake_initiation(dst.as_mut_slice(), force_resend) {
        TunnResult::Done => NoiseOutput::Done,
        TunnResult::Err(e) => NoiseOutput::Failed(e),
        TunnResult::WriteToNetwork(b) => NoiseOutput::WriteToNetwork(b.to_vec()),
        TunnResult::WriteToTunnelV4(b, a) => NoiseOutput::WriteToTunnelV4(b.to_vec(), u32::from(a)),
        TunnResult::WriteToTunnelV6(b, a) => NoiseOutput::WriteToTunnelV6(b.to_vec(), u128::from(a)),
    }
}

/// The `Debug` text of a `boringtun` error. Nothing is claimed of the text.
#[verifier::external_body]
fn wireguard_error_text(err: &WireGuardError) -> (text: String) {
    format!("{:?}", err)
}

/// `rand::random::<u32>()`. Nothing is claimed of the number.
#[verifier::external_body]
fn random_u32() -> (n: u32) {
    rand::random::<u32>()
}

/// A Noise session with its output buffer.
pub struct NoiseDriver {
    tunnel: Tunn,
    buffer: Vec<u8>,
    limit: usize,
}

impl NoiseDriver {
    /// The longest packet that the driver takes.
    pub closed spec fn limit(&self) -> usize {
        self.limit
    }

    /// The buffer holds a handshake initiation and a packet of the limit's
    /// length with the tunnel's overhead, and no queued packet exceeds the limit.
    pub closed spec fn wf(&self) -> bool {
        &&& self.buffer@.len() == buffer_len(self.limit)
        &&& backlog_within(self.tunnel, self.limit as int)
    }

    /// Opens a session between the owner of `private` and the owner of
    /// `peer_public`, for packets of up to `max_packet` bytes. The session
    /// numbers its messages from a random index. Fails on a limit too large to
    /// size a buffer for, and on nothing else.
    pub fn new(
        private: [u8; 32],
        peer_public: [u8; 32],
        preshared: Option<[u8; 32]>,
        keepalive: Option<u16>,
        max_packet: usize,
    ) -> (made: VtrunkdResult<NoiseDriver>)
        ensures
            max_packet <= usize::MAX - DATA_OVERHEAD ==> made is Ok,
            max_packet > usize::MAX - DATA_OVERHEAD ==> (made matches Err(
                VtrunkdError::InvalidConfig(text),
            ) && text@ == "Network buffer_size is too large"@),
            made matches Ok(driver) ==> driver.wf() && driver.limit() == max_packet,
    {
        if max_packet > usize::MAX - DATA_OVERHEAD {
            return Err(VtrunkdError::InvalidConfig("Network buffer_size is too large".to_owned()));
        }
        let needed = max_packet + DATA_OVERHEAD;
        let size = if needed < MIN_BUFFER {
            MIN_BUFFER
        } else {
            needed
        };
        match tunn_new(private, peer_public, preshared, keepalive, random_u32()) {
            Ok(tunnel) => Ok(NoiseDriver { tunnel, buffer: vec![0u8; size], limit: max_packet }),
            Err(text) => Err(VtrunkdError::InvalidConfig(text)),
        }
    }

    /// The longest packet that the driver takes.
    pub fn max_packet(&self) -> (n: usize)
        ensures
            n == self.limit(),
    {
        self.limit
    }

    /// Wraps a packet from the tunnel device for the peer. With an open
    /// session the result is the transport message around the packet. Without
    /// one the packet waits for the session, and the result is nothing or the
    /// initiation of the handshake that is to open it.
    pub fn encapsulate(&mut self, plain: &[u8]) -> (out: NoiseOutput)
        requires
            old(self).wf(),
            plain@.len() <= old(self).limit(),
        ensures
            wrapped(out, plain@.len() as int),
            final(self).wf(),
            final(self).limit() == old(self).limit(),
    {
        let ghost before = self.tunnel;
        let out = tunn_encapsulate(&mut self.tunnel, plain, &mut self.buffer);
        proof {
            assert forall|i: int| 0 <= i < queued(self.tunnel).len() implies (#[trigger] queued(
                self.tunnel,
            )[i]).len() <= self.limit by {
                let p = queued(self.tunnel)[i];
                if before_holds(before, p) {
                    lemma_backlog_member(before, self.limit as int, p);
                }
            }
        }
        out
    }

    /// Unwraps a datagram from the peer, whose address is `src`. An empty
    /// datagram asks for the next packet that waited for the session. A
    /// transport message must have a counter that the session can take, which
    /// `counter_in_range` tells. The
    /// result is nothing, a failure, a message of the protocol for the peer
    /// that fits the driver's buffer, or a packet for the tunnel device that
    /// is within the driver's limit.
    pub fn decapsulate(&mut self, src: Option<IpAddress>, datagram: &[u8]) -> (out: NoiseOutput)
        requires
            old(self).wf(),
            datagram@.len() <= old(self).limit() + DATA_OVERHEAD,
            counter_fits(datagram@),
        ensures
            unwrapped(out, datagram@.len() as int, buffer_len(old(self).limit())),
            out matches NoiseOutput::WriteToTunnelV4(b, _) ==> b@.len() <= old(self).limit(),
            out matches NoiseOutput::WriteToTunnelV6(b, _) ==> b@.len() <= old(self).limit(),
            final(self).wf(),
            final(self).limit() == old(self).limit(),
    {
        let ghost before = self.tunnel;
        let out = tunn_decapsulate(&mut self.tunnel, src, datagram, &mut self.buffer);
        proof {
            assert forall|i: int| 0 <= i < queued(self.tunnel).len() implies (#[trigger] queued(
                self.tunnel,
            )[i]).len() <= self.limit by {
                lemma_backlog_member(before, self.limit as int, queued(self.tunnel)[i]);
            }
        }
        out
    }

    /// Lets the session act on the passing of time. The result is nothing, the
    /// expiry of the connection as a failure, a keepalive, or the initiation
    /// of a new handshake.
    pub fn update_timers(&mut self) -> (out: NoiseOutput)
        requires
            old(self).wf(),
        ensures
            ticked(out),
            final(self).wf(),
            final(self).limit() == old(self).limit(),
    {
        let ghost before = self.tunnel;
        let out = tunn_update_timers(&mut self.tunnel, &mut self.buffer);
        proof {
            assert forall|i: int| 0 <= i < queued(self.tunnel).len() implies (#[trigger] queued(
                self.tunnel,
            )[i]).len() <= self.limit by {
                let p = queued(self.tunnel)[i];
                if before_holds(before, p) {
                    lemma_backlog_member(before, self.limit as int, p);
                }
            }
        }
        out
    }

    /// Writes a handshake initiation; with `force_resend`, also while a
    /// handshake is under way. The result is the initiation, or nothing where
    /// a handshake is under way and resending is not forced.
    pub fn format_handshake_initiation(&mut self, force_resend: bool) -> (out: NoiseOutput)
        requires
            old(self).wf(),
        ensures
            initiated(out, force_resend),
            force_resend ==> (out matches NoiseOutput::WriteToNetwork(b) && is_initiation(b@)),
            final(self).wf(),
            final(self).limit() == old(self).limit(),
    {
        tunn_format_handshake_initiation(&mut self.tunnel, &mut self.buffer, force_resend)
    }
}

/// Tells whether the session can take a datagram by its counter.
pub fn counter_in_range(datagram: &[u8]) -> (fits: bool)
    ensures
        fits == counter_fits(datagram@),
{
    if datagram.len() < 32 {
        return true;
    }
    match wg_packet_type(datagram) {
        Some(kind) => {
            if kind != 4 {
                return true;
            }
        },
        None => {
            return true;
        },
    }
    let b0: u64 = datagram[8] as u64;
    let b1: u64 = datagram[9] as u64;
    let b2: u64 = datagram[10] as u64;
    let b3: u64 = datagram[11] as u64;
    let b4: u64 = datagram[12] as u64;
    let b5: u64 = datagram[13] as u64;
    let b6: u64 = datagram[14] as u64;
    let b7: u64 = datagram[15] as u64;
    let counter: u64 = b0 + b1 * 0x100 + b2 * 0x1_0000 + b3 * 0x100_0000 + b4 * 0x1_0000_0000 + b5
        * 0x100_0000_0000 + b6 * 0x1_0000_0000_0000 + b7 * 0x100_0000_0000_0000;
    assert(counter == le_u64(datagram@.subrange(8, 16)));
    counter <= u64::MAX - COUNTER_WINDOW
}

/// Whether `packet` waits in the tunnel's queue.
spec fn before_holds(tunnel: Tunn, packet: Seq<u8>) -> bool {
    queued(tunnel).contains(packet)
}

/// A packet of a queue that is within a limit is within the limit.
proof fn lemma_backlog_member(tunnel: Tunn, limit: int, packet: Seq<u8>)
    requires
        backlog_within(tunnel, limit),
        queued(tunnel).contains(packet),
    ensures
        packet.len() <= limit,
{
    let i = choose|i: int| 0 <= i < queued(tunnel).len() && queued(tunnel)[i] == packet;
    assert(queued(tunnel)[i].len() <= limit);
}

/// The text of a session error for the operator: what was being done, and
/// the error.
pub fn session_error(doing: &str, err: &WireGuardError) -> (report: VtrunkdError)
    ensures
        report matches VtrunkdError::Network(text) && text@.len() >= doing@.len()
            && text@.subrange(0, doing@.len() as int) == doing@,
{
    let detail = wireguard_error_text(err);
    let text = join(doing, detail.as_str());
    assert(text@.subrange(0, doing@.len() as int) =~= doing@);
    VtrunkdError::Network(text)
}

} // verus!
