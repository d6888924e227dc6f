//! Setting up a pair of daemons: the rules for the parameters of a generated
//! client and server configuration, the links of both sides, and the script
//! that installs a server.

use vstd::prelude::*;
use vstd::string::*;

use crate::address::IpAddress;
use crate::config::BondingMode;
use crate::config::Config;
use crate::config::NetworkConfig;
use crate::config::WireGuardConfig;
use crate::config::WireGuardLinkConfig;
use crate::keys::base64_encode;
use crate::keys::base64_text;
use crate::keys::generate_keypair;
use crate::keys::public_key_of;
use crate::text::join;
use crate::text::trim;
use crate::text::trimmed;
use crate::text::contains_char;
use crate::text::decimal;
use crate::text::decimal_text;
use crate::text::is_blank;
use crate::text::is_blank_text;
use crate::text::same_text;
use crate::text::starts_with_char;

verus! {

/// One link as entered.
#[derive(Debug, Clone)]
pub struct LinkInput {
    pub name: String,
    pub bind: String,
    pub weight: u32,
}

/// The parameters from which a client and a server configuration are generated.
#[derive(Debug, Clone)]
pub struct ConfigParams {
    pub client_interface: String,
    pub client_address: String,
    pub server_address: String,
    pub netmask: String,
    pub mtu: u32,
    pub buffer_size: usize,
    pub bonding_mode: String,
    pub keepalive: u16,
    pub error_backoff_secs: u64,
    pub health_interval_ms: u64,
    pub health_timeout_ms: u64,
    pub health_enabled: bool,
    pub server_host: String,
    pub server_bind: String,
    pub server_port_base: u16,
    pub links: Vec<LinkInput>,
}

/// The rule that a set of parameters breaks.
#[derive(Debug, Clone, Copy, PartialEq, Eq, Structural)]
pub enum ParamFault {
    NoLinks,
    HostMissing,
    BindMissing,
    PortZero,
    MtuOutOfRange,
    BufferBelowMtu,
    PortRange,
    TimeoutNotAboveInterval,
    UnknownMode,
    LinkBindMissing,
    LinkWeightZero,
}

/// A client and a server configuration that belong together, and the keys
/// in them.
#[derive(Debug, Clone)]
pub struct GeneratedConfigs {
    pub client: Config,
    pub server: Config,
    pub client_private_key: String,
    pub client_public_key: String,
    pub server_private_key: String,
    pub server_public_key: String,
}

/// A network interface of this machine, with one of its addresses.
#[derive(Debug, Clone)]
pub struct LocalAddr {
    pub name: String,
    pub loopback: bool,
    pub ip: IpAddress,
}

/// How to reach the machine that is to run the server.
#[derive(Debug, Clone)]
pub struct SshConfig {
    pub host: String,
    pub user: String,
    pub port: u16,
    pub key_path: String,
    pub use_root: bool,
}

/// What the installation script does besides writing the configuration.
#[derive(Debug, Clone, Copy, PartialEq, Eq, Structural)]
pub struct ProvisionOptions {
    pub install_vtrunkd: bool,
    pub install_service: bool,
}

/// What to run to install a server: the arguments of `ssh`, and the script
/// for its standard input.
#[derive(Debug, Clone)]
pub struct ProvisionPlan {
    pub args: Vec<String>,
    pub script: String,
}

impl ParamFault {
    /// The text with which the fault is reported.
    pub open spec fn message(self) -> Seq<char> {
        match self {
            ParamFault::NoLinks => "At least one link is required"@,
            ParamFault::HostMissing => "Server host is required"@,
            ParamFault::BindMissing => "Server bind address is required"@,
            ParamFault::PortZero => "Server base port must be between 1 and 65535"@,
            ParamFault::MtuOutOfRange => "MTU must be between 1 and 65535"@,
            ParamFault::BufferBelowMtu => "Buffer size must be at least MTU"@,
            ParamFault::PortRange => "Port range exceeds 65535"@,
            ParamFault::TimeoutNotAboveInterval => "Health timeout must be greater than interval"@,
            ParamFault::UnknownMode => "Bonding mode must be aggregate, redundant, or failover"@,
            ParamFault::LinkBindMissing => "All links require a bind address"@,
            ParamFault::LinkWeightZero => "Link weight must be greater than 0"@,
        }
    }

    fn report(self) -> (text: String)
        ensures
            text@ == self.message(),
    {
        let text = match self {
            ParamFault::NoLinks => "At least one link is required",
            ParamFault::HostMissing => "Server host is required",
            ParamFault::BindMissing => "Server bind address is required",
            ParamFault::PortZero => "Server base port must be between 1 and 65535",
            ParamFault::MtuOutOfRange => "MTU must be between 1 and 65535",
            ParamFault::BufferBelowMtu => "Buffer size must be at least MTU",
            ParamFault::PortRange => "Port range exceeds 65535",
            ParamFault::TimeoutNotAboveInterval => "Health timeout must be greater than interval",
            ParamFault::UnknownMode => "Bonding mode must be aggregate, redundant, or failover",
            ParamFault::LinkBindMissing => "All links require a bind address",
            ParamFault::LinkWeightZero => "Link weight must be greater than 0",
        };
        text.to_owned()
    }
}

/// The names under which a bonding mode is entered.
pub open spec fn known_mode(text: Seq<char>) -> bool {
    text == "aggregate"@ || text == "redundant"@ || text == "failover"@
}

impl LinkInput {
    /// The rule that the link breaks: it must say where to bind, and weigh
    /// more than nothing.
    pub open spec fn fault(self) -> Option<ParamFault> {
        if is_blank(self.bind@) {
            Some(ParamFault::LinkBindMissing)
        } else if self.weight == 0 {
            Some(ParamFault::LinkWeightZero)
        } else {
            None
        }
    }
}

impl ConfigParams {
    /// The fault of the first faulty link from `from` on.
    pub open spec fn first_link_fault(self, from: int) -> Option<ParamFault>
        decreases self.links@.len() - from,
    {
        if from < 0 || from >= self.links@.len() {
            None
        } else if self.links@[from].fault() is Some {
            self.links@[from].fault()
        } else {
            self.first_link_fault(from + 1)
        }
    }

    /// Whether the ports of all links fit below 65536: link `i` gets the base
    /// port plus `i`.
    pub open spec fn ports_fit(self) -> bool {
        self.server_port_base + self.links@.len() <= 65536
    }

    /// The rules of usable parameters.
    pub open spec fn valid(self) -> bool {
        &&& self.links@.len() > 0
        &&& !is_blank(self.server_host@)
        &&& !is_blank(self.server_bind@)
        &&& self.server_port_base != 0
        &&& 1 <= self.mtu <= 65535
        &&& self.buffer_size >= self.mtu
        &&& self.ports_fit()
        &&& (self.health_enabled ==> self.health_timeout_ms > self.health_interval_ms)
        &&& known_mode(self.bonding_mode@)
        &&& forall|i: int| 0 <= i < self.links@.len() ==> (#[trigger] self.links@[i]).fault() is None
    }

    /// The first rule that the parameters break, in the order in which the
    /// rules are tested.
    pub open spec fn first_fault(self) -> Option<ParamFault> {
        if self.links@.len() == 0 {
            Some(ParamFault::NoLinks)
        } else if is_blank(self.server_host@) {
            Some(ParamFault::HostMissing)
        } else if is_blank(self.server_bind@) {
            Some(ParamFault::BindMissing)
        } else if self.server_port_base == 0 {
            Some(ParamFault::PortZero)
        } else if self.mtu == 0 || self.mtu > 65535 {
            Some(ParamFault::MtuOutOfRange)
        } else if self.buffer_size < self.mtu {
            Some(ParamFault::BufferBelowMtu)
        } else if !self.ports_fit() {
            Some(ParamFault::PortRange)
        } else if self.health_enabled && self.health_timeout_ms <= self.health_interval_ms {
            Some(ParamFault::TimeoutNotAboveInterval)
        } else if !known_mode(self.bonding_mode@) {
            Some(ParamFault::UnknownMode)
        } else {
            self.first_link_fault(0)
        }
    }

    /// No link from `from` on is faulty exactly when the scan finds no fault.
    pub proof fn lemma_first_link_fault(self, from: int)
        requires
            0 <= from <= self.links@.len(),
        ensures
            self.first_link_fault(from) is None <==> forall|i: int|
                from <= i < self.links@.len() ==> (#[trigger] self.links@[i]).fault() is None,
        decreases self.links@.len() - from,
    {
        if from < self.links@.len() {
            self.lemma_first_link_fault(from + 1);
        }
    }

    /// Parameters break no rule exactly when they are valid.
    pub proof fn lemma_fault_free_is_valid(self)
        ensures
            self.first_fault() is None <==> self.valid(),
    {
        self.lemma_first_link_fault(0);
    }
}

/// Tests parameters against the rules, in order, and reports the first that
/// they break.
pub fn validate_params(params: &ConfigParams) -> (result: Result<(), String>)
    ensures
        result is Ok <==> params.valid(),
        match params.first_fault() {
            None => result is Ok,
            Some(fault) => result matches Err(text) && text@ == fault.message(),
        },
{
    proof {
        params.lemma_fault_free_is_valid();
    }
    if params.links.len() == 0 {
        return Err(ParamFault::NoLinks.report());
    }
    if is_blank_text(params.server_host.as_str()) {
        return Err(ParamFault::HostMissing.report());
    }
    if is_blank_text(params.server_bind.as_str()) {
        return Err(ParamFault::BindMissing.report());
    }
    if params.server_port_base == 0 {
        return Err(ParamFault::PortZero.report());
    }
    if params.mtu == 0 || params.mtu > 65535 {
        return Err(ParamFault::MtuOutOfRange.report());
    }
    if params.buffer_size < params.mtu as usize {
        return Err(ParamFault::BufferBelowMtu.report());
    }
    if params.links.len() > 65536 - params.server_port_base as usize {
        return Err(ParamFault::PortRange.report());
    }
    if params.health_enabled && params.health_timeout_ms <= params.health_interval_ms {
        return Err(ParamFault::TimeoutNotAboveInterval.report());
    }
    let mode = params.bonding_mode.as_str();
    if !(same_text(mode, "aggregate") || same_text(mode, "redundant") || same_text(
        mode,
        "failover",
    )) {
        return Err(ParamFault::UnknownMode.report());
    }
    let count = params.links.len();
    let mut i: usize = 0;
    while i < count
        invariant
            count == params.links@.len(),
            i <= count,
            params.first_fault() == params.first_link_fault(0),
            params.first_link_fault(0) == params.first_link_fault(i as int),
        decreases count - i,
    {
        if is_blank_text(params.links[i].bind.as_str()) {
            return Err(ParamFault::LinkBindMissing.report());
        }
        if params.links[i].weight == 0 {
            return Err(ParamFault::LinkWeightZero.report());
        }
        i = i + 1;
    }
    Ok(())
}

/// A host and a port as one address: `host:port`, with the host in square
/// brackets where it holds a colon and does not begin with a bracket.
pub open spec fn socket_text(host: Seq<char>, port: u16) -> Seq<char> {
    if host.contains(':') && !(host.len() > 0 && host[0] == '[') {
        "["@ + host + "]:"@ + decimal(port as nat)
    } else {
        host + ":"@ + decimal(port as nat)
    }
}

/// Writes a host and a port as one address.
pub fn format_socket(host: &str, port: u16) -> (text: String)
    ensures
        text@ == socket_text(host@, port),
{
    let digits = decimal_text(port as u64);
    if contains_char(host, ':') && !starts_with_char(host, '[') {
        let mut text = "[".to_owned();
        text.append(host);
        text.append("]:");
        text.append(digits.as_str());
        assert(text@ =~= socket_text(host@, port));
        text
    } else {
        let mut text = host.to_owned();
        text.append(":");
        text.append(digits.as_str());
        assert(text@ =~= socket_text(host@, port));
        text
    }
}

/// The link of the client side that belongs to the `i`-th entered link.
pub open spec fn is_client_link(out: WireGuardLinkConfig, params: ConfigParams, i: int) -> bool {
    &&& out.name matches Some(name) && name@ == params.links@[i].name@
    &&& out.bind matches Some(bind) && bind@ == params.links@[i].bind@
    &&& out.endpoint matches Some(endpoint) && endpoint@ == socket_text(
        params.server_host@,
        (params.server_port_base + i) as u16,
    )
    &&& out.weight == Some(params.links@[i].weight)
}

/// The link of the server side that belongs to the `i`-th entered link.
pub open spec fn is_server_link(out: WireGuardLinkConfig, params: ConfigParams, i: int) -> bool {
    &&& out.name matches Some(name) && name@ == "server-"@ + decimal(i as nat) + "-"@
        + params.links@[i].name@
    &&& out.bind matches Some(bind) && bind@ == socket_text(
        params.server_bind@,
        (params.server_port_base + i) as u16,
    )
    &&& out.endpoint is None
    &&& out.weight == Some(params.links@[i].weight)
}

/// The links of the client's configuration: each entered link under its own
/// name and bind address, aimed at the server's host on the link's port.
pub fn build_client_links(params: &ConfigParams) -> (links: Vec<WireGuardLinkConfig>)
    requires
        params.ports_fit(),
    ensures
        links@.len() == params.links@.len(),
        forall|i: int| 0 <= i < links@.len() ==> is_client_link(#[trigger] links@[i], *params, i),
{
    let count = params.links.len();
    let mut links: Vec<WireGuardLinkConfig> = Vec::new();
    let mut index: usize = 0;
    while index < count
        invariant
            count == params.links@.len(),
            params.ports_fit(),
            index <= count,
            links@.len() == index,
            forall|i: int| 0 <= i < index ==> is_client_link(#[trigger] links@[i], *params, i),
        decreases count - index,
    {
        let link = &params.links[index];
        let port: u16 = params.server_port_base + index as u16;
        links.push(
            WireGuardLinkConfig {
                name: Some(link.name.clone()),
                bind: Some(link.bind.clone()),
                endpoint: Some(format_socket(params.server_host.as_str(), port)),
                weight: Some(link.weight),
            },
        );
        index = index + 1;
    }
    links
}

/// The links of the server's configuration: one passive link per entered
/// link, named `server-`, the index, a hyphen and the entered name, and bound
/// to the server's address on the link's port.
pub fn build_server_links(params: &ConfigParams) -> (links: Vec<WireGuardLinkConfig>)
    requires
        params.ports_fit(),
    ensures
        links@.len() == params.links@.len(),
        forall|i: int| 0 <= i < links@.len() ==> is_server_link(#[trigger] links@[i], *params, i),
{
    let count = params.links.len();
    let mut links: Vec<WireGuardLinkConfig> = Vec::new();
    let mut index: usize = 0;
    while index < count
        invariant
            count == params.links@.len(),
            params.ports_fit(),
            index <= count,
            links@.len() == index,
            forall|i: int| 0 <= i < index ==> is_server_link(#[trigger] links@[i], *params, i),
        decreases count - index,
    {
        let link = &params.links[index];
        let port: u16 = params.server_port_base + index as u16;
        let mut name = "server-".to_owned();
        name.append(decimal_text(index as u64).as_str());
        name.append("-");
        name.append(link.name.as_str());
        assert(name@ =~= "server-"@ + decimal(index as nat) + "-"@ + link.name@);
        links.push(
            WireGuardLinkConfig {
                name: Some(name),
                bind: Some(format_socket(params.server_bind.as_str(), port)),
                endpoint: None,
                weight: Some(link.weight),
            },
        );
        index = index + 1;
    }
    links
}

/// The persistent keepalive of a generated configuration: none for zero.
pub open spec fn keepalive_of(params: ConfigParams) -> Option<u16> {
    if params.keepalive == 0 {
        None
    } else {
        Some(params.keepalive)
    }
}

/// Whether `config` is the configuration of one side that `params` describe,
/// but for its interface, its address and its links.
pub open spec fn is_side_config(
    config: Config,
    params: ConfigParams,
    private_key: Seq<char>,
    peer_public_key: Seq<char>,
) -> bool {
    &&& config.network.mtu == params.mtu
    &&& config.network.buffer_size == params.buffer_size
    &&& config.network.netmask matches Some(mask) && mask@ == params.netmask@
    &&& config.network.destination is None
    &&& config.wireguard.private_key@ == private_key
    &&& config.wireguard.peer_public_key@ == peer_public_key
    &&& config.wireguard.preshared_key is None
    &&& config.wireguard.persistent_keepalive == keepalive_of(params)
    &&& config.wireguard.bonding_mode == BondingMode::named(params.bonding_mode@)
    &&& config.wireguard.error_backoff_secs == Some(params.error_backoff_secs)
    &&& config.wireguard.health_check_interval_ms == if params.health_enabled {
        Some(params.health_interval_ms)
    } else {
        None
    }
    &&& config.wireguard.health_check_timeout_ms == if params.health_enabled {
        Some(params.health_timeout_ms)
    } else {
        None
    }
    &&& config.wireguard.links@.len() == params.links@.len()
}

/// Whether a pair of configurations is the one that `params` describe, with
/// the given key texts: each side holds its own private key and the other
/// side's public key.
pub open spec fn is_generated(
    made: GeneratedConfigs,
    params: ConfigParams,
    client_keys: (Seq<char>, Seq<char>),
    server_keys: (Seq<char>, Seq<char>),
) -> bool {
    &&& made.client_private_key@ == client_keys.0
    &&& made.client_public_key@ == client_keys.1
    &&& made.server_private_key@ == server_keys.0
    &&& made.server_public_key@ == server_keys.1
    &&& is_side_config(made.client, params, client_keys.0, server_keys.1)
    &&& made.client.network.interface matches Some(name) && name@ == params.client_interface@
    &&& made.client.network.address matches Some(a) && a@ == params.client_address@
    &&& forall|i: int|
        0 <= i < params.links@.len() ==> is_client_link(
            #[trigger] made.client.wireguard.links@[i],
            params,
            i,
        )
    &&& is_side_config(made.server, params, server_keys.0, client_keys.1)
    &&& made.server.network.interface is None
    &&& made.server.network.address matches Some(a) && a@ == params.server_address@
    &&& forall|i: int|
        0 <= i < params.links@.len() ==> is_server_link(
            #[trigger] made.server.wireguard.links@[i],
            params,
            i,
        )
}

/// Builds the client's and the server's configuration from parameters and
/// the key pairs of both sides, each a private key's text and its public
/// key's text.
pub fn configs_from(params: &ConfigParams, client_keys: (String, String), server_keys: (
    String,
    String,
)) -> (made: GeneratedConfigs)
    requires
        params.ports_fit(),
    ensures
        is_generated(
            made,
            *params,
            (client_keys.0@, client_keys.1@),
            (server_keys.0@, server_keys.1@),
        ),
{
    let (health_interval, health_timeout) = if params.health_enabled {
        (Some(params.health_interval_ms), Some(params.health_timeout_ms))
    } else {
        (None, None)
    };
    let keepalive = if params.keepalive == 0 {
        None
    } else {
        Some(params.keepalive)
    };
    let mode = BondingMode::parse(params.bonding_mode.as_str());
    let client = Config {
        network: NetworkConfig {
            mtu: params.mtu,
            buffer_size: params.buffer_size,
            interface: Some(params.client_interface.clone()),
            address: Some(params.client_address.clone()),
            netmask: Some(params.netmask.clone()),
            destination: None,
        },
        wireguard: WireGuardConfig {
            private_key: client_keys.0.clone(),
            peer_public_key: server_keys.1.clone(),
            preshared_key: None,
            persistent_keepalive: keepalive,
            bonding_mode: mode,
            error_backoff_secs: Some(params.error_backoff_secs),
            health_check_interval_ms: health_interval,
            health_check_timeout_ms: health_timeout,
            links: build_client_links(params),
        },
    };
    let server = Config {
        network: NetworkConfig {
            mtu: params.mtu,
            buffer_size: params.buffer_size,
            interface: None,
            address: Some(params.server_address.clone()),
            netmask: Some(params.netmask.clone()),
            destination: None,
        },
        wireguard: WireGuardConfig {
            private_key: server_keys.0.clone(),
            peer_public_key: client_keys.1.clone(),
            preshared_key: None,
            persistent_keepalive: keepalive,
            bonding_mode: mode,
            error_backoff_secs: Some(params.error_backoff_secs),
            health_check_interval_ms: health_interval,
            health_check_timeout_ms: health_timeout,
            links: build_server_links(params),
        },
    };
    GeneratedConfigs {
        client,
        server,
        client_private_key: client_keys.0,
        client_public_key: client_keys.1,
        server_private_key: server_keys.0,
        server_public_key: server_keys.1,
    }
}

/// A new key pair as texts, with the private key it was made from.
fn fresh_keypair() -> (made: ((String, String), Ghost<Seq<u8>>))
    ensures
        made.1@.len() == 32,
        made.0.0@ == base64_text(made.1@),
        made.0.1@ == base64_text(public_key_of(made.1@)),
{
    let pair = generate_keypair();
    let ghost private = choose|private: Seq<u8>|
        {
            &&& private.len() == 32
            &&& pair.0@ == #[trigger] base64_text(private)
            &&& pair.1@ == base64_text(public_key_of(private))
        };
    (pair, Ghost(private))
}

/// Generates the configurations of a client and a server from parameters,
/// with a new key pair for each side. Parameters that break a rule are
/// refused with the report of the first rule they break.
pub fn generate_configs(params: &ConfigParams) -> (result: Result<GeneratedConfigs, String>)
    ensures
        result is Ok <==> params.valid(),
        match params.first_fault() {
            Some(fault) => result matches Err(text) && text@ == fault.message(),
            None => result matches Ok(made) && exists|client: Seq<u8>, server: Seq<u8>|
                {
                    &&& client.len() == 32
                    &&& server.len() == 32
                    &&& #[trigger] is_generated(
                        made,
                        *params,
                        (base64_text(client), base64_text(public_key_of(client))),
                        (base64_text(server), base64_text(public_key_of(server))),
                    )
                },
        },
{
    match validate_params(params) {
        Err(text) => {
            return Err(text);
        },
        Ok(_) => {},
    }
    let client_keys = fresh_keypair();
    let server_keys = fresh_keypair();
    let ghost client = client_keys.1@;
    let ghost server = server_keys.1@;
    let made = configs_from(params, client_keys.0, server_keys.0);
    proof {
        params.lemma_fault_free_is_valid();
        assert(is_generated(
            made,
            *params,
            (base64_text(client), base64_text(public_key_of(client))),
            (base64_text(server), base64_text(public_key_of(server))),
        ));
    }
    Ok(made)
}

/// The file that a configuration of a kind is written to.
pub fn config_filename(kind: &str) -> (name: Option<&'static str>)
    ensures
        kind@ == "client"@ ==> (name matches Some(n) && n@ == "client.yaml"@),
        kind@ == "server"@ ==> (name matches Some(n) && n@ == "server.yaml"@),
        kind@ != "client"@ && kind@ != "server"@ ==> name is None,
{
    proof {
        reveal_strlit("client");
        reveal_strlit("server");
        assert("client"@[0] != "server"@[0]);
    }
    if same_text(kind, "client") {
        Some("client.yaml")
    } else if same_text(kind, "server") {
        Some("server.yaml")
    } else {
        None
    }
}

/// Whether an address of an interface is one to offer for binding: not of
/// the loopback interface, and not an IPv6 link-local address.
pub open spec fn offered(addr: LocalAddr) -> bool {
    !addr.loopback && !addr.ip.link_local_v6()
}

/// Whether `ip` is among the addresses of `list`.
pub open spec fn lists_ip(list: Seq<LocalAddr>, ip: IpAddress) -> bool {
    exists|k: int| 0 <= k < list.len() && (#[trigger] list[k]).ip == ip
}

/// The addresses to offer among the first `upto` of `found`: those that are
/// offered, each IP address once, under the first interface that has it.
pub open spec fn selection(found: Seq<LocalAddr>, upto: int) -> Seq<LocalAddr>
    decreases upto,
{
    if upto <= 0 {
        Seq::empty()
    } else {
        let before = selection(found, upto - 1);
        if offered(found[upto - 1]) && !lists_ip(before, found[upto - 1].ip) {
            before.push(found[upto - 1])
        } else {
            before
        }
    }
}

impl LocalAddr {
    /// A copy of the address.
    fn clone_addr(&self) -> (copy: LocalAddr)
        ensures
            copy == *self,
    {
        LocalAddr { name: self.name.clone(), loopback: self.loopback, ip: self.ip }
    }
}

/// Tells whether `ip` is among the addresses of `list`.
fn has_ip(list: &Vec<LocalAddr>, ip: IpAddress) -> (found: bool)
    ensures
        found == lists_ip(list@, ip),
{
    let count = list.len();
    let mut k: usize = 0;
    while k < count
        invariant
            count == list@.len(),
            k <= count,
            forall|j: int| 0 <= j < k ==> (#[trigger] list@[j]).ip != ip,
        decreases count - k,
    {
        if list[k].ip == ip {
            return true;
        }
        k = k + 1;
    }
    false
}

/// Picks the addresses to offer for binding among those found on the machine.
pub fn select_local_addrs(found: Vec<LocalAddr>) -> (picked: Vec<LocalAddr>)
    ensures
        picked@ == selection(found@, found@.len() as int),
{
    let count = found.len();
    let mut picked: Vec<LocalAddr> = Vec::new();
    let mut index: usize = 0;
    while index < count
        invariant
            count == found@.len(),
            index <= count,
            picked@ == selection(found@, index as int),
        decreases count - index,
    {
        let candidate = &found[index];
        if !candidate.loopback && !candidate.ip.is_unicast_link_local() && !has_ip(
            &picked,
            candidate.ip,
        ) {
            picked.push(candidate.clone_addr());
        }
        index = index + 1;
    }
    picked
}

/// The text of a flag of the installation script.
pub open spec fn flag_text(on: bool) -> Seq<char> {
    if on {
        "1"@
    } else {
        "0"@
    }
}

/// The installation script for an encoded configuration and a set of options.
pub open spec fn script_text(config_b64: Seq<char>, options: ProvisionOptions) -> Seq<char> {
    SCRIPT_HEAD@ + config_b64 + SCRIPT_INSTALL@ + flag_text(options.install_vtrunkd)
        + SCRIPT_SERVICE@ + flag_text(options.install_service) + SCRIPT_TAIL@
}

/// Writes the script that installs a server: it holds the encoded
/// configuration and one flag for each option.
pub fn build_provision_script(config_b64: &str, options: &ProvisionOptions) -> (script: String)
    ensures
        script@ == script_text(config_b64@, *options),
{
    let install_flag = if options.install_vtrunkd {
        "1"
    } else {
        "0"
    };
    let service_flag = if options.install_service {
        "1"
    } else {
        "0"
    };
    let mut script = SCRIPT_HEAD.to_owned();
    script.append(config_b64);
    script.append(SCRIPT_INSTALL);
    script.append(install_flag);
    script.append(SCRIPT_SERVICE);
    script.append(service_flag);
    script.append(SCRIPT_TAIL);
    assert(script@ =~= script_text(config_b64@, *options));
    script
}

/// The user to log in as: `root` if asked for, else the trimmed name given.
pub open spec fn login_of(ssh: SshConfig) -> Seq<char> {
    if ssh.use_root {
        "root"@
    } else {
        trimmed(ssh.user@)
    }
}

/// What is missing for an installation, if anything: the host, the user, or
/// the configuration, in that order.
pub open spec fn provision_fault(ssh: SshConfig, server_yaml: Seq<char>) -> Option<Seq<char>> {
    if is_blank(ssh.host@) {
        Some("SSH host is required"@)
    } else if is_blank(login_of(ssh)) {
        Some("SSH user is required"@)
    } else if is_blank(server_yaml) {
        Some("Server config is empty"@)
    } else {
        None
    }
}

/// The arguments of `ssh` for an installation: the port, the options for an
/// unattended login, the key file if one is named, the user at the host, and
/// the shell that reads the script.
pub open spec fn ssh_args(ssh: SshConfig) -> Seq<Seq<char>> {
    let head = seq![
        "-p"@,
        decimal(ssh.port as nat),
        "-o"@,
        "BatchMode=yes"@,
        "-o"@,
        "StrictHostKeyChecking=accept-new"@,
        "-o"@,
        "ConnectTimeout=10"@,
    ];
    let key = if is_blank(ssh.key_path@) {
        Seq::<Seq<char>>::empty()
    } else {
        seq!["-i"@, trimmed(ssh.key_path@)]
    };
    head + key + seq![login_of(ssh) + "@"@ + ssh.host@, "bash -s"@]
}

/// Plans the installation of a server over `ssh`. The script carries the
/// server's configuration as base64 text of its bytes.
pub fn provision_plan(ssh: &SshConfig, options: &ProvisionOptions, server_yaml: &str) -> (result:
    Result<ProvisionPlan, String>)
    ensures
        match provision_fault(*ssh, server_yaml@) {
            Some(report) => result matches Err(text) && text@ == report,
            None => {
                &&& result matches Ok(plan)
                &&& plan.script@ == script_text(base64_text(server_yaml.spec_bytes()), *options)
                &&& plan.args@.len() == ssh_args(*ssh).len()
                &&& forall|i: int|
                    0 <= i < plan.args@.len() ==> (#[trigger] plan.args@[i])@ == ssh_args(*ssh)[i]
            },
        },
{
    let user = if ssh.use_root {
        "root".to_owned()
    } else {
        trim(ssh.user.as_str()).to_owned()
    };
    if is_blank_text(ssh.host.as_str()) {
        return Err("SSH host is required".to_owned());
    }
    if is_blank_text(user.as_str()) {
        return Err("SSH user is required".to_owned());
    }
    if is_blank_text(server_yaml) {
        return Err("Server config is empty".to_owned());
    }
    let config_b64 = base64_encode(server_yaml.as_bytes());
    let script = build_provision_script(config_b64.as_str(), options);
    let mut target = user;
    target.append("@");
    target.append(ssh.host.as_str());
    let mut args: Vec<String> = Vec::new();
    args.push("-p".to_owned());
    args.push(decimal_text(ssh.port as u64));
    args.push("-o".to_owned());
    args.push("BatchMode=yes".to_owned());
    args.push("-o".to_owned());
    args.push("StrictHostKeyChecking=accept-new".to_owned());
    args.push("-o".to_owned());
    args.push("ConnectTimeout=10".to_owned());
    if !is_blank_text(ssh.key_path.as_str()) {
        args.push("-i".to_owned());
        args.push(trim(ssh.key_path.as_str()).to_owned());
    }
    args.push(target);
    args.push("bash -s".to_owned());
    proof {
        let expected = ssh_args(*ssh);
        assert(args@.len() == expected.len());
        assert forall|i: int| 0 <= i < args@.len() implies (#[trigger] args@[i])@ == expected[i] by {}
    }
    Ok(ProvisionPlan { args, script })
}

/// What an installation came to: everything that `ssh` wrote, trimmed; as
/// the result where `ssh` succeeded, as the error where it failed.
pub fn provision_result(success: bool, stdout: &str, stderr: &str) -> (result: Result<String, String>)
    ensures
        success ==> (result matches Ok(text) && text@ == trimmed(stdout@ + stderr@)),
        !success ==> (result matches Err(text) && text@ == trimmed(stdout@ + stderr@)),
{
    let combined = join(stdout, stderr);
    let text = trim(combined.as_str()).to_owned();
    if success {
        Ok(text)
    } else {
        Err(text)
    }
}

/// The script up to the encoded configuration.
pub const SCRIPT_HEAD: &'static str = "set -euo pipefail\n\
CONFIG_B64='";

/// The script between the encoded configuration and the first flag.
pub const SCRIPT_INSTALL: &'static str = "'\n\
INSTALL_VTRUNKD='";

/// The script between the two flags.
pub const SCRIPT_SERVICE: &'static str = "'\n\
INSTALL_SERVICE='";

/// The script after the second flag.
pub const SCRIPT_TAIL: &'static str = "'\n\
SUDO=\"\"\n\
if [ \"$(id -u)\" != \"0\" ]; then\n\
SUDO=\"sudo\"\n\
fi\n\
\n\
write_config() {\n\
printf '%s' \"$CONFIG_B64\" | base64 -d | $SUDO tee /etc/vtrunkd.yaml >/dev/null\n\
}\n\
\n\
install_deps() {\n\
if command -v apt-get >/dev/null 2>&1; then\n\
$SUDO apt-get update -y\n\
$SUDO apt-get install -y curl git build-essential pkg-config libssl-dev\n\
elif command -v dnf >/dev/null 2>&1; then\n\
$SUDO dnf install -y curl git gcc gcc-c++ make pkgconfig openssl-devel\n\
elif command -v yum >/dev/null 2>&1; then\n\
$SUDO yum install -y curl git gcc gcc-c++ make pkgconfig openssl-devel\n\
else\n\
echo 'Unsupported package manager' >&2\n\
exit 1\n\
fi\n\
}\n\
\n\
install_rust() {\n\
if ! command -v cargo >/dev/null 2>&1; then\n\
curl https://sh.rustup.rs -sSf | sh -s -- -y\n\
fi\n\
if [ -f \"$HOME/.cargo/env\" ]; then\n\
. \"$HOME/.cargo/env\"\n\
fi\n\
export PATH=\"$HOME/.cargo/bin:$PATH\"\n\
}\n\
\n\
install_vtrunkd() {\n\
if command -v vtrunkd >/dev/null 2>&1; then\n\
return\n\
fi\n\
install_deps\n\
install_rust\n\
REPO_DIR=\"$HOME/.vtrunkd-build\"\n\
if [ ! -d \"$REPO_DIR\" ]; then\n\
git clone https://github.com/vzwjustin/vtrunkd.git \"$REPO_DIR\"\n\
else\n\
git -C \"$REPO_DIR\" pull --rebase\n\
fi\n\
cd \"$REPO_DIR\"\n\
cargo build --release\n\
$SUDO cp target/release/vtrunkd /usr/local/bin/vtrunkd\n\
}\n\
\n\
install_service() {\n\
if ! command -v systemctl >/dev/null 2>&1; then\n\
echo 'systemd not detected; skipping service install'\n\
return\n\
fi\n\
$SUDO tee /etc/systemd/system/vtrunkd.service >/dev/null <<'UNIT'\n\
[Unit]\n\
Description=vtrunkd bonding daemon\n\
After=network-online.target\n\
Wants=network-online.target\n\
\n\
[Service]\n\
Type=simple\n\
ExecStart=/usr/local/bin/vtrunkd --config /etc/vtrunkd.yaml --foreground\n\
Restart=on-failure\n\
RestartSec=2\n\
\n\
[Install]\n\
WantedBy=multi-user.target\n\
UNIT\n\
$SUDO systemctl daemon-reload\n\
$SUDO systemctl enable --now vtrunkd\n\
}\n\
\n\
if [ \"$INSTALL_VTRUNKD\" = \"1\" ]; then\n\
install_vtrunkd\n\
fi\n\
write_config\n\
if [ \"$INSTALL_SERVICE\" = \"1\" ]; then\n\
install_service\n\
fi\n\
\n\
if command -v vtrunkd >/dev/null 2>&1; then\n\
vtrunkd --version || true\n\
fi\n\
";

} // verus!
