//! The daemon's configuration: its shape, its defaults and the rules a
//! configuration must meet before the daemon starts.

use vstd::prelude::*;
use vstd::string::*;

use crate::error::VtrunkdError;
use crate::error::VtrunkdResult;

verus! {

/// Probe cadence used when the configuration names none, in milliseconds.
pub const DEFAULT_HEALTH_INTERVAL_MS: u64 = 1000;

/// Seconds a failed link stays excluded when the configuration names none.
pub const DEFAULT_ERROR_BACKOFF_SECS: u64 = 5;

/// The largest MTU a tunnel device takes.
pub const MAX_MTU: u32 = 65535;

/// How data datagrams are spread over the links.
#[derive(Debug, Clone, Copy, PartialEq, Eq, Structural)]
pub enum BondingMode {
    /// Weighted round-robin over the available links.
    Aggregate,
    /// A copy on every available link.
    Redundant,
    /// The available link of highest weight.
    Failover,
}

#[derive(Debug, Clone)]
pub struct WireGuardLinkConfig {
    pub name: Option<String>,
    pub bind: Option<String>,
    pub endpoint: Option<String>,
    pub weight: Option<u32>,
}

#[derive(Debug, Clone)]
pub struct WireGuardConfig {
    pub private_key: String,
    pub peer_public_key: String,
    pub preshared_key: Option<String>,
    pub persistent_keepalive: Option<u16>,
    pub bonding_mode: Option<BondingMode>,
    pub error_backoff_secs: Option<u64>,
    pub health_check_interval_ms: Option<u64>,
    pub health_check_timeout_ms: Option<u64>,
    pub links: Vec<WireGuardLinkConfig>,
}

#[derive(Debug, Clone)]
pub struct NetworkConfig {
    pub mtu: u32,
    pub buffer_size: usize,
    pub interface: Option<String>,
    pub address: Option<String>,
    pub netmask: Option<String>,
    pub destination: Option<String>,
}

#[derive(Debug, Clone)]
pub struct Config {
    pub network: NetworkConfig,
    pub wireguard: WireGuardConfig,
}

/// The effective bonding parameters of a configuration, defaults filled in.
/// Durations are in milliseconds.
#[derive(Debug, Clone, Copy, PartialEq, Eq, Structural)]
pub struct BondSettings {
    pub mode: BondingMode,
    pub error_backoff_ms: u64,
    pub health_interval_ms: u64,
    pub health_timeout_ms: Option<u64>,
}

/// The rule that a configuration breaks.
#[derive(Debug, Clone, Copy, PartialEq, Eq, Structural)]
pub enum ConfigFault {
    MtuZero,
    MtuTooLarge,
    BufferZero,
    BufferBelowMtu,
    PrivateKeyMissing,
    PeerKeyMissing,
    NoLinks,
    BackoffZero,
    IntervalZero,
    TimeoutZero,
    TimeoutNotAboveInterval,
    LinkWeightZero,
}

impl Default for BondingMode {
    fn default() -> (mode: BondingMode)
        ensures
            mode == BondingMode::Aggregate,
    {
        BondingMode::Aggregate
    }
}

/// The ASCII lower-case form of a code point.
pub open spec fn lower_code(c: char) -> u32 {
    let v = c as u32;
    if 0x41 <= v <= 0x5A {
        (v + 0x20) as u32
    } else {
        v
    }
}

/// Whether two texts are equal up to ASCII letter case.
pub open spec fn same_ignoring_case(a: Seq<char>, b: Seq<char>) -> bool {
    &&& a.len() == b.len()
    &&& forall|i: int| 0 <= i < a.len() ==> lower_code(#[trigger] a[i]) == lower_code(b[i])
}

fn eq_ignoring_case(a: &str, b: &str) -> (r: bool)
    ensures
        r == same_ignoring_case(a@, b@),
{
    let n = a.unicode_len();
    if b.unicode_len() != n {
        return false;
    }
    let mut i: usize = 0;
    while i < n
        invariant
            n == a@.len(),
            n == b@.len(),
            i <= n,
            forall|j: int| 0 <= j < i ==> lower_code(#[trigger] a@[j]) == lower_code(b@[j]),
        decreases n - i,
    {
        let x: u32 = a.get_char(i) as u32;
        let y: u32 = b.get_char(i) as u32;
        let lx: u32 = if 0x41 <= x && x <= 0x5A {
            x + 0x20
        } else {
            x
        };
        let ly: u32 = if 0x41 <= y && y <= 0x5A {
            y + 0x20
        } else {
            y
        };
        if lx != ly {
            return false;
        }
        i = i + 1;
    }
    true
}

impl BondingMode {
    /// The mode that a configured name stands for: the three mode names, and
    /// `bonding` and `bonded` for `Aggregate`, in any letter case.
    pub open spec fn named(text: Seq<char>) -> Option<BondingMode> {
        if same_ignoring_case(text, "aggregate"@) || same_ignoring_case(text, "bonding"@)
            || same_ignoring_case(text, "bonded"@) {
            Some(BondingMode::Aggregate)
        } else if same_ignoring_case(text, "redundant"@) {
            Some(BondingMode::Redundant)
        } else if same_ignoring_case(text, "failover"@) {
            Some(BondingMode::Failover)
        } else {
            None
        }
    }

    /// Reads a mode from its configured name.
    pub fn parse(text: &str) -> (mode: Option<BondingMode>)
        ensures
            mode == BondingMode::named(text@),
    {
        if eq_ignoring_case(text, "aggregate") || eq_ignoring_case(text, "bonding")
            || eq_ignoring_case(text, "bonded") {
            Some(BondingMode::Aggregate)
        } else if eq_ignoring_case(text, "redundant") {
            Some(BondingMode::Redundant)
        } else if eq_ignoring_case(text, "failover") {
            Some(BondingMode::Failover)
        } else {
            None
        }
    }

    /// The name under which the mode is written to a configuration.
    pub fn name(&self) -> (text: &'static str)
        ensures
            text@ == match *self {
                BondingMode::Aggregate => "aggregate"@,
                BondingMode::Redundant => "redundant"@,
                BondingMode::Failover => "failover"@,
            },
    {
        match self {
            BondingMode::Aggregate => "aggregate",
            BondingMode::Redundant => "redundant",
            BondingMode::Failover => "failover",
        }
    }
}

impl ConfigFault {
    /// The text with which the fault is reported.
    pub open spec fn message(self) -> Seq<char> {
        match self {
            ConfigFault::MtuZero => "Network MTU cannot be 0"@,
            ConfigFault::MtuTooLarge => "Network MTU exceeds u16::MAX"@,
            ConfigFault::BufferZero => "Network buffer_size cannot be 0"@,
            ConfigFault::BufferBelowMtu => "Network buffer_size must be at least MTU size"@,
            ConfigFault::PrivateKeyMissing => "WireGuard private_key is required"@,
            ConfigFault::PeerKeyMissing => "WireGuard peer_public_key is required"@,
            ConfigFault::NoLinks => "WireGuard links cannot be empty"@,
            ConfigFault::BackoffZero => "error_backoff_secs must be greater than 0"@,
            ConfigFault::IntervalZero => "health_check_interval_ms must be greater than 0"@,
            ConfigFault::TimeoutZero => "health_check_timeout_ms must be greater than 0"@,
            ConfigFault::TimeoutNotAboveInterval => "health_check_timeout_ms must be greater than health_check_interval_ms"@,
            ConfigFault::LinkWeightZero => "WireGuard link weight must be greater than 0"@,
        }
    }

    fn report(self) -> (err: VtrunkdError)
        ensures
            err matches VtrunkdError::InvalidConfig(text) && text@ == self.message(),
    {
        let text = match self {
            ConfigFault::MtuZero => "Network MTU cannot be 0",
            ConfigFault::MtuTooLarge => "Network MTU exceeds u16::MAX",
            ConfigFault::BufferZero => "Network buffer_size cannot be 0",
            ConfigFault::BufferBelowMtu => "Network buffer_size must be at least MTU size",
            ConfigFault::PrivateKeyMissing => "WireGuard private_key is required",
            ConfigFault::PeerKeyMissing => "WireGuard peer_public_key is required",
            ConfigFault::NoLinks => "WireGuard links cannot be empty",
            ConfigFault::BackoffZero => "error_backoff_secs must be greater than 0",
            ConfigFault::IntervalZero => "health_check_interval_ms must be greater than 0",
            ConfigFault::TimeoutZero => "health_check_timeout_ms must be greater than 0",
            ConfigFault::TimeoutNotAboveInterval => "health_check_timeout_ms must be greater than health_check_interval_ms",
            ConfigFault::LinkWeightZero => "WireGuard link weight must be greater than 0",
        };
        VtrunkdError::InvalidConfig(text.to_owned())
    }
}

impl NetworkConfig {
    /// The name of the tunnel device: the configured one, or `tun0`.
    pub fn interface_name(&self) -> (name: String)
        ensures
            name@ == match self.interface {
                Some(configured) => configured@,
                None => "tun0"@,
            },
    {
        match &self.interface {
            Some(configured) => configured.clone(),
            None => "tun0".to_owned(),
        }
    }

    /// The MTU as the tunnel device takes it: the low 16 bits of the
    /// configured one, which are all of it in a valid configuration.
    pub fn device_mtu(&self) -> (mtu: u16)
        ensures
            mtu == self.mtu % 65536,
            self.mtu <= MAX_MTU ==> mtu == self.mtu,
    {
        (self.mtu % 65536) as u16
    }
}

impl WireGuardConfig {
    /// The probe cadence in force.
    pub open spec fn health_interval(self) -> u64 {
        match self.health_check_interval_ms {
            Some(interval) => interval,
            None => DEFAULT_HEALTH_INTERVAL_MS,
        }
    }

    /// Whether some link is configured with weight zero.
    pub open spec fn has_zero_weight(self) -> bool {
        exists|i: int| 0 <= i < self.links@.len() && (#[trigger] self.links@[i]).weight == Some(0u32)
    }

    /// The bonding parameters in force: `Aggregate`, five seconds of backoff and
    /// a probe every second unless configured; probing is off without a timeout.
    /// A backoff too long to count in milliseconds is held at the largest count.
    pub open spec fn spec_settings(self) -> BondSettings {
        let secs = match self.error_backoff_secs {
            Some(s) => s,
            None => DEFAULT_ERROR_BACKOFF_SECS,
        };
        BondSettings {
            mode: match self.bonding_mode {
                Some(m) => m,
                None => BondingMode::Aggregate,
            },
            error_backoff_ms: if secs * 1000 <= u64::MAX {
                (secs * 1000) as u64
            } else {
                u64::MAX
            },
            health_interval_ms: self.health_interval(),
            health_timeout_ms: self.health_check_timeout_ms,
        }
    }

    /// Tells whether some link is configured with weight zero.
    pub fn any_zero_weight(&self) -> (found: bool)
        ensures
            found == self.has_zero_weight(),
    {
        let n = self.links.len();
        let mut i: usize = 0;
        while i < n
            invariant
                n == self.links@.len(),
                i <= n,
                forall|j: int| 0 <= j < i ==> (#[trigger] self.links@[j]).weight != Some(0u32),
            decreases n - i,
        {
            if let Some(weight) = self.links[i].weight {
                if weight == 0 {
                    assert(self.links@[i as int].weight == Some(0u32));
                    return true;
                }
            }
            i = i + 1;
        }
        false
    }

    /// Computes the bonding parameters in force.
    pub fn settings(&self) -> (s: BondSettings)
        ensures
            s == self.spec_settings(),
    {
        let secs: u64 = match self.error_backoff_secs {
            Some(s) => s,
            None => DEFAULT_ERROR_BACKOFF_SECS,
        };
        BondSettings {
            mode: match self.bonding_mode {
                Some(m) => m,
                None => BondingMode::Aggregate,
            },
            error_backoff_ms: if secs <= u64::MAX / 1000 {
                secs * 1000
            } else {
                u64::MAX
            },
            health_interval_ms: match self.health_check_interval_ms {
                Some(interval) => interval,
                None => DEFAULT_HEALTH_INTERVAL_MS,
            },
            health_timeout_ms: self.health_check_timeout_ms,
        }
    }
}

impl Config {
    /// The rules of a usable configuration: an MTU of 1 to 65535, a buffer that
    /// holds a packet of that size, both keys present, at least one link, a
    /// positive backoff and probe cadence, a probe timeout above the cadence,
    /// and no link of weight zero.
    pub open spec fn valid(self) -> bool {
        &&& 1 <= self.network.mtu <= MAX_MTU
        &&& self.network.buffer_size >= self.network.mtu
        &&& self.wireguard.private_key@.len() > 0
        &&& self.wireguard.peer_public_key@.len() > 0
        &&& self.wireguard.links@.len() > 0
        &&& self.wireguard.error_backoff_secs != Some(0u64)
        &&& self.wireguard.health_check_interval_ms != Some(0u64)
        &&& (self.wireguard.health_check_timeout_ms matches Some(timeout)
            ==> timeout > self.wireguard.health_interval())
        &&& !self.wireguard.has_zero_weight()
    }

    /// The first rule that the configuration breaks, in the order in which the
    /// rules are tested.
    pub open spec fn first_fault(self) -> Option<ConfigFault> {
        if self.network.mtu == 0 {
            Some(ConfigFault::MtuZero)
        } else if self.network.mtu > MAX_MTU {
            Some(ConfigFault::MtuTooLarge)
        } else if self.network.buffer_size == 0 {
            Some(ConfigFault::BufferZero)
        } else if self.network.buffer_size < self.network.mtu {
            Some(ConfigFault::BufferBelowMtu)
        } else if self.wireguard.private_key@.len() == 0 {
            Some(ConfigFault::PrivateKeyMissing)
        } else if self.wireguard.peer_public_key@.len() == 0 {
            Some(ConfigFault::PeerKeyMissing)
        } else if self.wireguard.links@.len() == 0 {
            Some(ConfigFault::NoLinks)
        } else if self.wireguard.error_backoff_secs == Some(0u64) {
            Some(ConfigFault::BackoffZero)
        } else if self.wireguard.health_check_interval_ms == Some(0u64) {
            Some(ConfigFault::IntervalZero)
        } else if self.wireguard.health_check_timeout_ms == Some(0u64) {
            Some(ConfigFault::TimeoutZero)
        } else if self.wireguard.health_check_timeout_ms matches Some(timeout) && timeout
            <= self.wireguard.health_interval() {
            Some(ConfigFault::TimeoutNotAboveInterval)
        } else if self.wireguard.has_zero_weight() {
            Some(ConfigFault::LinkWeightZero)
        } else {
            None
        }
    }

    /// A configuration breaks no rule exactly when it is valid.
    pub proof fn lemma_fault_free_is_valid(self)
        ensures
            self.first_fault() is None <==> self.valid(),
    {
    }

    /// A buffer smaller than the MTU is never accepted; one of exactly the MTU's size
    /// is as good as any larger one.
    pub proof fn lemma_buffer_bound(self, other: Config)
        requires
            other.wireguard == self.wireguard,
            other.network.mtu == self.network.mtu,
        ensures
            self.network.buffer_size < self.network.mtu ==> !self.valid(),
            self.valid() && other.network.buffer_size == other.network.mtu ==> other.valid(),
    {
    }

    /// A probe timeout is accepted exactly when it exceeds the probe cadence.
    pub proof fn lemma_timeout_bound(self)
        ensures
            self.wireguard.health_check_timeout_ms matches Some(timeout) && timeout
                <= self.wireguard.health_interval() ==> !self.valid(),
    {
    }

    /// A link of weight zero is never accepted.
    pub proof fn lemma_weight_bound(self, i: int)
        requires
            0 <= i < self.wireguard.links@.len(),
            self.wireguard.links@[i].weight == Some(0u32),
        ensures
            !self.valid(),
    {
    }
}

impl Default for Config {
    /// The sample configuration written for a new installation.
    fn default() -> (config: Config)
        ensures
            config.network.mtu == 1420,
            config.network.buffer_size == 65536,
            config.network.interface is None,
            config.network.address is None,
            config.network.netmask is None,
            config.network.destination is None,
            config.wireguard.private_key@ == "REPLACE_ME"@,
            config.wireguard.peer_public_key@ == "REPLACE_ME"@,
            config.wireguard.preshared_key is None,
            config.wireguard.persistent_keepalive == Some(25u16),
            config.wireguard.bonding_mode == Some(BondingMode::Aggregate),
            config.wireguard.error_backoff_secs == Some(5u64),
            config.wireguard.health_check_interval_ms == Some(DEFAULT_HEALTH_INTERVAL_MS),
            config.wireguard.health_check_timeout_ms == Some(5000u64),
            config.wireguard.links@.len() == 1,
            config.wireguard.links@[0].name matches Some(name) && name@ == "link-0"@,
            config.wireguard.links@[0].bind matches Some(bind) && bind@ == "0.0.0.0:0"@,
            config.wireguard.links@[0].endpoint matches Some(endpoint) && endpoint@
                == "example.com:51820"@,
            config.wireguard.links@[0].weight == Some(1u32),
            config.valid(),
    {
        let mut links: Vec<WireGuardLinkConfig> = Vec::new();
        links.push(
            WireGuardLinkConfig {
                name: Some("link-0".to_owned()),
                bind: Some("0.0.0.0:0".to_owned()),
                endpoint: Some("example.com:51820".to_owned()),
                weight: Some(1),
            },
        );
        proof {
            reveal_strlit("REPLACE_ME");
        }
        Config {
            network: NetworkConfig {
                mtu: 1420,
                buffer_size: 65536,
                interface: None,
                address: None,
                netmask: None,
                destination: None,
            },
            wireguard: WireGuardConfig {
                private_key: "REPLACE_ME".to_owned(),
                peer_public_key: "REPLACE_ME".to_owned(),
                preshared_key: None,
                persistent_keepalive: Some(25),
                bonding_mode: Some(BondingMode::Aggregate),
                error_backoff_secs: Some(5),
                health_check_interval_ms: Some(DEFAULT_HEALTH_INTERVAL_MS),
                health_check_timeout_ms: Some(5000),
                links,
            },
        }
    }
}

/// Tests a configuration against the rules, in order, and reports the first
/// that it breaks.
pub fn validate_config(config: &Config) -> (result: VtrunkdResult<()>)
    ensures
        result is Ok <==> config.valid(),
        match config.first_fault() {
            None => result is Ok,
            Some(fault) => result matches Err(VtrunkdError::InvalidConfig(text)) && text@
                == fault.message(),
        },
{
    if config.network.mtu == 0 {
        return Err(ConfigFault::MtuZero.report());
    }
    if config.network.mtu > MAX_MTU {
        return Err(ConfigFault::MtuTooLarge.report());
    }
    if config.network.buffer_size == 0 {
        return Err(ConfigFault::BufferZero.report());
    }
    if config.network.buffer_size < config.network.mtu as usize {
        return Err(ConfigFault::BufferBelowMtu.report());
    }
    if config.wireguard.private_key.as_str().is_empty() {
        return Err(ConfigFault::PrivateKeyMissing.report());
    }
    if config.wireguard.peer_public_key.as_str().is_empty() {
        return Err(ConfigFault::PeerKeyMissing.report());
    }
    if config.wireguard.links.len() == 0 {
        return Err(ConfigFault::NoLinks.report());
    }
    if let Some(backoff) = config.wireguard.error_backoff_secs {
        if backoff == 0 {
            return Err(ConfigFault::BackoffZero.report());
        }
    }
    if let Some(interval) = config.wireguard.health_check_interval_ms {
        if interval == 0 {
            return Err(ConfigFault::IntervalZero.report());
        }
    }
    if let Some(timeout) = config.wireguard.health_check_timeout_ms {
        if timeout == 0 {
            return Err(ConfigFault::TimeoutZero.report());
        }
    }
    if let Some(timeout) = config.wireguard.health_check_timeout_ms {
        let interval = match config.wireguard.health_check_interval_ms {
            Some(interval) => interval,
            None => DEFAULT_HEALTH_INTERVAL_MS,
        };
        if timeout <= interval {
            return Err(ConfigFault::TimeoutNotAboveInterval.report());
        }
    }
    if config.wireguard.any_zero_weight() {
        return Err(ConfigFault::LinkWeightZero.report());
    }
    proof {
        config.lemma_fault_free_is_valid();
    }
    Ok(())
}

} // verus!
