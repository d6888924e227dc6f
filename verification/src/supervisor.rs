//! The decisions of the daemon's event loop. The loop itself, with the
//! tunnel device, the sockets and the timers, belongs to the caller: it
//! brings each event here with the time, and carries out what comes back.

use vstd::prelude::*;
use vstd::string::*;

use crate::address::SocketAddress;
use crate::config::Config;
use crate::control::class_of;
use crate::control::parsed;
use crate::control::PacketClass;
use crate::error::VtrunkdError;
use crate::error::VtrunkdResult;
use crate::keys::decode_key;
use crate::keys::decoded_key;
use crate::keys::key_fault_text;
use crate::keys::KeyFault;
use crate::manager::is_configured;
use crate::manager::ControlOutcome;
use crate::manager::LinkManager;
use crate::manager::Probe;
use crate::noise::buffer_len;
use crate::noise::counter_fits;
use crate::noise::counter_in_range;
use crate::noise::is_initiation;
use crate::noise::is_message;
use crate::noise::is_transport;
use crate::noise::lemma_output_classes;
use crate::noise::session_error;
use crate::noise::unwrapped;
use crate::noise::NoiseDriver;
use crate::noise::NoiseOutput;
use crate::noise::DATA_OVERHEAD;
use crate::text::join;

verus! {

/// The most datagrams that one arrival can release from the session's queue.
pub const DRAIN_LIMIT: usize = 512;

/// The datagrams that may wait between the sockets' receive tasks and the
/// event loop; a receive task that finds the queue full waits.
pub const RECEIVE_QUEUE: usize = 1024;

/// A datagram as a socket's receive task hands it over.
#[derive(Debug, Clone)]
pub struct NetPacket {
    /// The link on whose socket the datagram arrived.
    pub link_index: usize,
    /// Where it came from.
    pub src: SocketAddress,
    pub data: Vec<u8>,
}

/// The keys of a session, read from their texts.
#[derive(Debug, Clone, Copy)]
pub struct SessionKeys {
    pub private: [u8; 32],
    pub peer_public: [u8; 32],
    pub preshared: Option<[u8; 32]>,
}

/// What the session was doing when it produced an output.
#[derive(Debug, Clone, Copy, PartialEq, Eq, Structural)]
pub enum Stage {
    Encapsulate,
    Timer,
    Handshake,
}

/// What to do with an output of the session after a datagram from the peer.
#[derive(Debug)]
pub enum Inbound {
    /// Send these bytes to the peer, then ask the session for more.
    Forward(Vec<u8>),
    /// Hand this packet to the tunnel device.
    Deliver(Vec<u8>),
    /// Nothing more.
    Stop,
}

/// What an arrived datagram leads to.
#[derive(Debug)]
pub struct Incoming {
    /// Whether the datagram was a control frame, which the session never sees.
    pub control: bool,
    /// The pong to put on a link, where the datagram was a ping.
    pub reply: Option<Probe>,
    /// Datagrams to dispatch to the peer, in order.
    pub to_network: Vec<Vec<u8>>,
    /// The packet to hand to the tunnel device.
    pub to_tunnel: Option<Vec<u8>>,
}

/// How the task that runs the tunnel, or the wait for a signal, came to an end.
#[derive(Debug)]
pub enum Exit {
    /// The tunnel's task returned.
    Returned(VtrunkdResult<()>),
    /// The tunnel's task could not be joined.
    JoinFailed(String),
    /// The wait for the shutdown signal returned.
    Signal(Result<(), std::io::Error>),
}

impl Stage {
    /// The words that open the report of a session error at this stage.
    pub open spec fn heading(self) -> Seq<char> {
        match self {
            Stage::Encapsulate => "WireGuard encapsulate error: "@,
            Stage::Timer => "WireGuard timer error: "@,
            Stage::Handshake => "WireGuard handshake error: "@,
        }
    }

    fn heading_text(self) -> (text: &'static str)
        ensures
            text@ == self.heading(),
    {
        match self {
            Stage::Encapsulate => "WireGuard encapsulate error: ",
            Stage::Timer => "WireGuard timer error: ",
            Stage::Handshake => "WireGuard handshake error: ",
        }
    }
}

/// What the daemon does with an output of the session when it wrapped a
/// packet, let time pass or began a handshake: bytes for the peer are sent,
/// an error ends the daemon, anything else asks for nothing.
pub fn outbound(stage: Stage, output: NoiseOutput) -> (result: VtrunkdResult<Option<Vec<u8>>>)
    ensures
        match output {
            NoiseOutput::WriteToNetwork(bytes) => result == Ok::<Option<Vec<u8>>, VtrunkdError>(
                Some(bytes),
            ),
            NoiseOutput::Failed(_) => result matches Err(VtrunkdError::Network(text)) && text@.len()
                >= stage.heading().len() && text@.subrange(0, stage.heading().len() as int)
                == stage.heading(),
            _ => result == Ok::<Option<Vec<u8>>, VtrunkdError>(None),
        },
{
    match output {
        NoiseOutput::WriteToNetwork(bytes) => Ok(Some(bytes)),
        NoiseOutput::Done => Ok(None),
        NoiseOutput::Failed(err) => Err(session_error(stage.heading_text(), &err)),
        NoiseOutput::WriteToTunnelV4(_, _) => Ok(None),
        NoiseOutput::WriteToTunnelV6(_, _) => Ok(None),
    }
}

/// What the daemon does with an output of the session after a datagram from
/// the peer: bytes for the peer are sent and the session is asked again, a
/// packet goes to the tunnel device, and an error or nothing ends the matter.
pub fn after_decapsulate(output: NoiseOutput) -> (next: Inbound)
    ensures
        match output {
            NoiseOutput::WriteToNetwork(bytes) => next == Inbound::Forward(bytes),
            NoiseOutput::WriteToTunnelV4(bytes, _) => next == Inbound::Deliver(bytes),
            NoiseOutput::WriteToTunnelV6(bytes, _) => next == Inbound::Deliver(bytes),
            NoiseOutput::Done => next == Inbound::Stop,
            NoiseOutput::Failed(_) => next == Inbound::Stop,
        },
{
    match output {
        NoiseOutput::WriteToNetwork(bytes) => Inbound::Forward(bytes),
        NoiseOutput::WriteToTunnelV4(bytes, _) => Inbound::Deliver(bytes),
        NoiseOutput::WriteToTunnelV6(bytes, _) => Inbound::Deliver(bytes),
        NoiseOutput::Done => Inbound::Stop,
        NoiseOutput::Failed(_) => Inbound::Stop,
    }
}

/// What the end of the tunnel's task, or of the wait for the signal, means for
/// the daemon: only the signal ends it well. A task that returns, even
/// without an error, has failed it.
pub fn shutdown_outcome(exit: Exit) -> (result: VtrunkdResult<()>)
    ensures
        match exit {
            Exit::Returned(Ok(_)) => result matches Err(VtrunkdError::Network(text)) && text@
                == "WireGuard task exited unexpectedly"@,
            Exit::Returned(Err(err)) => result == Err::<(), VtrunkdError>(err),
            Exit::JoinFailed(detail) => result matches Err(VtrunkdError::Network(text)) && text@
                == "WireGuard task join error: "@ + detail@,
            Exit::Signal(Ok(_)) => result is Ok,
            Exit::Signal(Err(err)) => result == Err::<(), VtrunkdError>(VtrunkdError::Io(err)),
        },
{
    match exit {
        Exit::Returned(Ok(_)) => Err(
            VtrunkdError::Network("WireGuard task exited unexpectedly".to_owned()),
        ),
        Exit::Returned(Err(err)) => Err(err),
        Exit::JoinFailed(detail) => Err(
            VtrunkdError::Network(join("WireGuard task join error: ", detail.as_str())),
        ),
        Exit::Signal(Ok(_)) => Ok(()),
        Exit::Signal(Err(err)) => Err(VtrunkdError::Io(err)),
    }
}

/// The key that a configuration may carry besides the two it must.
fn decode_preshared(value: &Option<String>) -> (result: VtrunkdResult<Option<[u8; 32]>>)
    ensures
        match *value {
            None => result == Ok::<Option<[u8; 32]>, VtrunkdError>(None),
            Some(text) => match decoded_key(text@) {
                Ok(bytes) => result matches Ok(Some(key)) && key@ == bytes,
                Err(fault) => result matches Err(VtrunkdError::InvalidConfig(report)) && report@
                    == key_fault_text("preshared_key"@, fault),
            },
        },
{
    match value {
        Some(text) => match decode_key("preshared_key", text.as_str()) {
            Ok(key) => Ok(Some(key)),
            Err(err) => Err(err),
        },
        None => Ok(None),
    }
}

/// The first fault among the keys of a configuration, in the order private
/// key, peer's public key, preshared key.
pub open spec fn first_key_fault(config: Config) -> Option<Seq<char>> {
    if let Err(fault) = decoded_key(config.wireguard.private_key@) {
        Some(key_fault_text("private_key"@, fault))
    } else if let Err(fault) = decoded_key(config.wireguard.peer_public_key@) {
        Some(key_fault_text("peer_public_key"@, fault))
    } else {
        match config.wireguard.preshared_key {
            Some(text) => if let Err(fault) = decoded_key(text@) {
                Some(key_fault_text("preshared_key"@, fault))
            } else {
                None
            },
            None => None,
        }
    }
}

/// Whether `keys` are the keys that the texts of a configuration stand for.
pub open spec fn keys_of(keys: SessionKeys, config: Config) -> bool {
    &&& decoded_key(config.wireguard.private_key@) == Ok::<Seq<u8>, KeyFault>(keys.private@)
    &&& decoded_key(config.wireguard.peer_public_key@) == Ok::<Seq<u8>, KeyFault>(
        keys.peer_public@,
    )
    &&& match config.wireguard.preshared_key {
        Some(text) => keys.preshared matches Some(key) && decoded_key(text@) == Ok::<
            Seq<u8>,
            KeyFault,
        >(key@),
        None => keys.preshared is None,
    }
}

/// What keeps a configuration from being set up, if anything: the first key
/// that does not read, else a packet buffer too large to make room for the
/// tunnel's overhead, else the want of a link.
pub open spec fn setup_fault(config: Config) -> Option<Seq<char>> {
    if first_key_fault(config) is Some {
        first_key_fault(config)
    } else if config.network.buffer_size > usize::MAX - DATA_OVERHEAD {
        Some("Network buffer_size is too large"@)
    } else if config.wireguard.links@.len() == 0 {
        Some("WireGuard links must include at least one entry"@)
    } else {
        None
    }
}

/// Reads the keys of a configuration, in the order private key, peer's
/// public key, preshared key, and reports the first that does not read.
pub fn read_keys(config: &Config) -> (result: VtrunkdResult<SessionKeys>)
    ensures
        match first_key_fault(*config) {
            Some(report) => result matches Err(VtrunkdError::InvalidConfig(text)) && text@
                == report,
            None => result matches Ok(keys) && keys_of(keys, *config),
        },
{
    let private = match decode_key("private_key", config.wireguard.private_key.as_str()) {
        Ok(key) => key,
        Err(err) => {
            return Err(err);
        },
    };
    let peer_public = match decode_key(
        "peer_public_key",
        config.wireguard.peer_public_key.as_str(),
    ) {
        Ok(key) => key,
        Err(err) => {
            return Err(err);
        },
    };
    let preshared = match decode_preshared(&config.wireguard.preshared_key) {
        Ok(key) => key,
        Err(err) => {
            return Err(err);
        },
    };
    Ok(SessionKeys { private, peer_public, preshared })
}

/// Sets up the session and the links of a configuration. `remotes[i]` is the
/// address that the endpoint of link `i` resolved to. Fails on the first key
/// that does not read, on a packet buffer too large, and on a configuration
/// without links, in that order, and on nothing else.
pub fn establish(config: &Config, remotes: &Vec<Option<SocketAddress>>) -> (result: VtrunkdResult<
    (NoiseDriver, LinkManager),
>)
    ensures
        result is Ok <==> setup_fault(*config) is None,
        setup_fault(*config) matches Some(report) ==> (result matches Err(
            VtrunkdError::InvalidConfig(text),
        ) && text@ == report),
        result matches Ok(pair) ==> {
            &&& pair.0.wf()
            &&& pair.0.limit() == config.network.buffer_size
            &&& pair.1@.wf()
            &&& pair.1@.links.len() == config.wireguard.links@.len()
            &&& pair.1@.links.len() > 0
            &&& forall|i: int|
                0 <= i < config.wireguard.links@.len() ==> is_configured(
                    #[trigger] pair.1@.links[i],
                    config.wireguard.links@[i],
                    i,
                    if i < remotes@.len() {
                        remotes@[i]
                    } else {
                        None
                    },
                )
            &&& pair.1@.cursor == 0
            &&& pair.1@.credit == 0
            &&& pair.1@.mode == config.wireguard.spec_settings().mode
            &&& pair.1@.error_backoff == config.wireguard.spec_settings().error_backoff_ms
            &&& pair.1@.health_timeout == config.wireguard.spec_settings().health_timeout_ms
        },
{
    let keys = match read_keys(config) {
        Ok(keys) => keys,
        Err(err) => {
            return Err(err);
        },
    };
    let driver = match NoiseDriver::new(
        keys.private,
        keys.peer_public,
        keys.preshared,
        config.wireguard.persistent_keepalive,
        config.network.buffer_size,
    ) {
        Ok(driver) => driver,
        Err(err) => {
            return Err(err);
        },
    };
    let links = LinkManager::from_config(&config.wireguard, remotes);
    if links.len() == 0 {
        return Err(
            VtrunkdError::InvalidConfig("WireGuard links must include at least one entry".to_owned()),
        );
    }
    Ok((driver, links))
}

/// A packet read from the tunnel device: the session wraps it, and what it
/// wraps goes to the peer. An empty read is passed over. With an open session
/// what goes to the peer is the transport message around the packet, which
/// the links dispatch as data. Without one the packet waits in the session,
/// and what goes to the peer is nothing, or the initiation of the handshake
/// that is to open the session, which goes out on all links.
pub fn on_tun_packet(noise: &mut NoiseDriver, plain: &[u8]) -> (result: VtrunkdResult<
    Option<Vec<u8>>,
>)
    requires
        old(noise).wf(),
        plain@.len() <= old(noise).limit(),
    ensures
        final(noise).wf(),
        final(noise).limit() == old(noise).limit(),
        plain@.len() == 0 ==> result == Ok::<Option<Vec<u8>>, VtrunkdError>(None) && *final(noise)
            == *old(noise),
        result is Ok,
        result matches Ok(Some(b)) ==> {
            ||| is_transport(b@, plain@.len() as int) && class_of(b@) == PacketClass::Data
            ||| is_initiation(b@) && class_of(b@) == PacketClass::Handshake
        },
{
    if plain.len() == 0 {
        return Ok(None);
    }
    let out = noise.encapsulate(plain);
    proof {
        lemma_output_classes(out, plain@.len() as int);
    }
    outbound(Stage::Encapsulate, out)
}

/// A tick of the session's timer: what the session writes goes to the peer.
/// That is a keepalive or the initiation of a new handshake, either of which
/// goes out on all links. The expiry of the connection ends the daemon.
pub fn on_timer(noise: &mut NoiseDriver) -> (result: VtrunkdResult<Option<Vec<u8>>>)
    requires
        old(noise).wf(),
    ensures
        final(noise).wf(),
        final(noise).limit() == old(noise).limit(),
        result matches Ok(Some(b)) ==> {
            ||| is_transport(b@, 0) && class_of(b@) == PacketClass::Keepalive
            ||| is_initiation(b@) && class_of(b@) == PacketClass::Handshake
        },
        result matches Err(err) ==> err matches VtrunkdError::Network(text) && text@.len()
            >= Stage::Timer.heading().len() && text@.subrange(
            0,
            Stage::Timer.heading().len() as int,
        ) == Stage::Timer.heading(),
{
    let out = noise.update_timers();
    proof {
        lemma_output_classes(out, 0);
    }
    outbound(Stage::Timer, out)
}

/// The handshake that opens the session: where some link knows where the
/// peer is, a fresh initiation, which goes out on all links; else nothing.
pub fn send_handshake(noise: &mut NoiseDriver, links: &LinkManager) -> (result: VtrunkdResult<
    Option<Vec<u8>>,
>)
    requires
        old(noise).wf(),
    ensures
        final(noise).wf(),
        final(noise).limit() == old(noise).limit(),
        (forall|i: int| 0 <= i < links@.links.len() ==> (#[trigger] links@.links[i]).remote is None)
            ==> result == Ok::<Option<Vec<u8>>, VtrunkdError>(None) && *final(noise) == *old(
            noise,
        ),
        (exists|i: int| 0 <= i < links@.links.len() && (#[trigger] links@.links[i]).remote is Some)
            ==> (result matches Ok(Some(b)) && is_initiation(b@) && class_of(b@)
            == PacketClass::Handshake),
{
    if !links.has_endpoints() {
        return Ok(None);
    }
    let out = noise.format_handshake_initiation(true);
    proof {
        lemma_output_classes(out, 0);
    }
    outbound(Stage::Handshake, out)
}

/// Whether what an arrived datagram led to is within bounds: every datagram
/// for the peer is a message of the tunnel's protocol that fits the session's
/// buffer, and a packet for the tunnel device is within the session's limit.
pub open spec fn within_bounds(incoming: Incoming, limit: usize) -> bool {
    &&& forall|k: int|
        0 <= k < incoming.to_network@.len() ==> is_message((#[trigger] incoming.to_network@[k])@)
            && incoming.to_network@[k]@.len() <= buffer_len(limit)
    &&& incoming.to_tunnel matches Some(b) ==> b@.len() <= limit
}

/// A datagram that arrived on a link at `now`. A control frame is dealt with
/// by the links and never reaches the session. A datagram longer than the
/// session's buffer is passed over, and does not reach the session either;
/// nor does a transport message with a counter beyond what the session can
/// take.
/// Anything else goes to the session, which is asked again as long as it has
/// bytes for the peer.
pub fn handle_incoming(
    noise: &mut NoiseDriver,
    links: &mut LinkManager,
    packet: &NetPacket,
    now: u64,
) -> (incoming: Incoming)
    requires
        old(noise).wf(),
    ensures
        final(noise).wf(),
        final(noise).limit() == old(noise).limit(),
        old(links)@.wf() ==> final(links)@.wf(),
        final(links)@ == old(links)@.after_control(packet.link_index, packet.data@, now),
        incoming.control == parsed(packet.data@) is Some,
        incoming.control ==> incoming.to_network@.len() == 0 && incoming.to_tunnel is None
            && *final(noise) == *old(noise),
        packet.data@.len() > old(noise).limit() + DATA_OVERHEAD ==> incoming.to_network@.len() == 0
            && incoming.to_tunnel is None && *final(noise) == *old(noise),
        !counter_fits(packet.data@) ==> incoming.to_network@.len() == 0 && incoming.to_tunnel is None
            && *final(noise) == *old(noise),
        match old(links)@.owed_pong(packet.link_index, packet.data@) {
            Some((remote, token)) => {
                &&& incoming.reply matches Some(p)
                &&& p.link == packet.link_index
                &&& p.remote == remote
                &&& p.frame@ == crate::control::frame(crate::control::BOND_PONG, token)
            },
            None => incoming.reply is None,
        },
        incoming.to_network@.len() <= DRAIN_LIMIT,
        within_bounds(incoming, old(noise).limit()),
        incoming.to_tunnel matches Some(b) ==> b@.len() + DATA_OVERHEAD <= packet.data@.len(),
{
    let mut to_network: Vec<Vec<u8>> = Vec::new();
    match links.handle_control_packet(packet.link_index, packet.data.as_slice(), now) {
        ControlOutcome::Handled { reply } => {
            return Incoming { control: true, reply, to_network, to_tunnel: None };
        },
        ControlOutcome::NotControl => {},
    }
    let limit = noise.max_packet();
    if packet.data.len() > limit && packet.data.len() - limit > DATA_OVERHEAD {
        return Incoming { control: false, reply: None, to_network, to_tunnel: None };
    }
    if !counter_in_range(packet.data.as_slice()) {
        return Incoming { control: false, reply: None, to_network, to_tunnel: None };
    }
    let mut output = noise.decapsulate(Some(packet.src.ip()), packet.data.as_slice());
    let mut to_tunnel: Option<Vec<u8>> = None;
    let mut rounds: usize = 0;
    while rounds < DRAIN_LIMIT
        invariant
            noise.wf(),
            noise.limit() == old(noise).limit(),
            limit == old(noise).limit(),
            rounds <= DRAIN_LIMIT,
            to_network@.len() == rounds,
            old(links)@.wf() ==> links@.wf(),
            links@ == old(links)@.after_control(packet.link_index, packet.data@, now),
            parsed(packet.data@) is None,
            old(links)@.owed_pong(packet.link_index, packet.data@) is None,
            to_tunnel is None,
            packet.data@.len() <= limit + DATA_OVERHEAD,
            counter_fits(packet.data@),
            unwrapped(output, packet.data@.len() as int, buffer_len(limit)),
            forall|k: int|
                0 <= k < to_network@.len() ==> is_message((#[trigger] to_network@[k])@)
                    && to_network@[k]@.len() <= buffer_len(limit),
        decreases DRAIN_LIMIT - rounds,
    {
        let ghost given = output;
        match after_decapsulate(output) {
            Inbound::Forward(bytes) => {
                assert(given == NoiseOutput::WriteToNetwork(bytes));
                to_network.push(bytes);
                output = noise.decapsulate(None, empty_datagram().as_slice());
            },
            Inbound::Deliver(bytes) => {
                assert(bytes@.len() + DATA_OVERHEAD <= packet.data@.len());
                to_tunnel = Some(bytes);
                return Incoming { control: false, reply: None, to_network, to_tunnel };
            },
            Inbound::Stop => {
                return Incoming { control: false, reply: None, to_network, to_tunnel };
            },
        }
        rounds = rounds + 1;
    }
    Incoming { control: false, reply: None, to_network, to_tunnel }
}

/// The empty datagram that asks the session for what it has queued.
fn empty_datagram() -> (d: Vec<u8>)
    ensures
        d@.len() == 0,
{
    Vec::new()
}

/// A datagram from a socket's receive task, at `now`: the link it arrived on
/// learns where its peer is now, and the datagram is dealt with.
pub fn on_net_packet(
    noise: &mut NoiseDriver,
    links: &mut LinkManager,
    packet: &NetPacket,
    now: u64,
) -> (incoming: Incoming)
    requires
        old(noise).wf(),
    ensures
        final(noise).wf(),
        final(noise).limit() == old(noise).limit(),
        old(links)@.wf() ==> final(links)@.wf(),
        final(links)@ == old(links)@.arrived(packet.link_index, packet.src, now).after_control(
            packet.link_index,
            packet.data@,
            now,
        ),
        incoming.control == parsed(packet.data@) is Some,
        incoming.control ==> incoming.to_network@.len() == 0 && incoming.to_tunnel is None
            && *final(noise) == *old(noise),
        packet.data@.len() > old(noise).limit() + DATA_OVERHEAD ==> incoming.to_network@.len() == 0
            && incoming.to_tunnel is None && *final(noise) == *old(noise),
        !counter_fits(packet.data@) ==> incoming.to_network@.len() == 0 && incoming.to_tunnel is None
            && *final(noise) == *old(noise),
        within_bounds(incoming, old(noise).limit()),
        incoming.to_tunnel matches Some(b) ==> b@.len() + DATA_OVERHEAD <= packet.data@.len(),
        match old(links)@.arrived(packet.link_index, packet.src, now).owed_pong(
            packet.link_index,
            packet.data@,
        ) {
            Some((remote, token)) => {
                &&& incoming.reply matches Some(p)
                &&& p.link == packet.link_index
                &&& p.remote == packet.src
                &&& p.frame@ == crate::control::frame(crate::control::BOND_PONG, token)
            },
            None => incoming.reply is None,
        },
        incoming.to_network@.len() <= DRAIN_LIMIT,
{
    links.update_remote(packet.link_index, packet.src, now);
    handle_incoming(noise, links, packet, now)
}

} // verus!
