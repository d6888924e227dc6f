//! One underlying transport and its health record.
//!
//! Times are milliseconds on the daemon's monotonic clock, counted from the
//! moment the daemon chose as its epoch.

use vstd::prelude::*;

use crate::address::SocketAddress;

verus! {

/// The state of one link.
#[derive(Debug, Clone)]
pub struct Link {
    /// Name under which the link is reported.
    pub name: String,
    /// Where the peer is reached on this link; follows the source of what arrives.
    pub remote: Option<SocketAddress>,
    /// Share of the traffic in `Aggregate` mode, rank in `Failover` mode.
    pub weight: u32,
    /// Start of the current failure, if the link is in one.
    pub down_since: Option<u64>,
    /// Arrival of the latest datagram of any kind.
    pub last_rx: Option<u64>,
    /// Emission of the latest probe.
    pub last_ping_sent: Option<u64>,
    /// Latest measured round trip, in milliseconds.
    pub last_rtt_ms: Option<u64>,
}

/// The time from `earlier` to `now`; zero where `earlier` is the later one.
pub open spec fn elapsed(now: u64, earlier: u64) -> int {
    if now >= earlier {
        now - earlier
    } else {
        0
    }
}

fn elapsed_between(now: u64, earlier: u64) -> (d: u64)
    ensures
        d == elapsed(now, earlier),
{
    if now >= earlier {
        now - earlier
    } else {
        0
    }
}

impl Link {
    /// A link that has neither failed nor carried anything yet.
    pub open spec fn fresh(name: String, remote: Option<SocketAddress>, weight: u32) -> Link {
        Link {
            name,
            remote,
            weight,
            down_since: None,
            last_rx: None,
            last_ping_sent: None,
            last_rtt_ms: None,
        }
    }

    /// Whether the link has been silent for longer than `timeout`: nothing has
    /// arrived for that long, or nothing ever arrived and the latest probe is
    /// that old. A link that never received and was never probed is not silent.
    /// Without a timeout no link is.
    pub open spec fn silent(self, now: u64, timeout: Option<u64>) -> bool {
        match timeout {
            None => false,
            Some(limit) => match (self.last_rx, self.last_ping_sent) {
                (Some(rx), _) => elapsed(now, rx) > limit,
                (None, Some(ping)) => elapsed(now, ping) > limit,
                (None, None) => false,
            },
        }
    }

    /// Whether the link failed less than `backoff` ago.
    pub open spec fn backing_off(self, now: u64, backoff: u64) -> bool {
        self.down_since matches Some(since) && elapsed(now, since) < backoff
    }

    /// Whether the link may carry traffic: it has a remote, it is not silent,
    /// and it is not backing off from a failure.
    pub open spec fn available(self, now: u64, backoff: u64, timeout: Option<u64>) -> bool {
        &&& self.remote is Some
        &&& !self.silent(now, timeout)
        &&& !self.backing_off(now, backoff)
    }

    /// The link after its availability was asked at `now`: a link with a remote
    /// that is silent is in failure from `now`; any other is as before.
    pub open spec fn checked(self, now: u64, timeout: Option<u64>) -> Link {
        if self.remote is Some && self.silent(now, timeout) {
            Link { down_since: Some(now), ..self }
        } else {
            self
        }
    }

    /// A link that was asked and found available is as it was; one that is not
    /// available stays so when asked again at the same time.
    pub proof fn lemma_checked_stable(self, now: u64, backoff: u64, timeout: Option<u64>)
        ensures
            self.available(now, backoff, timeout) ==> self.checked(now, timeout) == self,
            self.checked(now, timeout).available(now, backoff, timeout) == self.available(
                now,
                backoff,
                timeout,
            ),
            self.checked(now, timeout).checked(now, timeout) == self.checked(now, timeout),
            self.checked(now, timeout).remote == self.remote,
            self.checked(now, timeout).weight == self.weight,
    {
    }

    /// Makes a link that has neither failed nor carried anything yet.
    pub fn new(name: String, remote: Option<SocketAddress>, weight: u32) -> (link: Link)
        ensures
            link == Link::fresh(name, remote, weight),
    {
        Link {
            name,
            remote,
            weight,
            down_since: None,
            last_rx: None,
            last_ping_sent: None,
            last_rtt_ms: None,
        }
    }

    /// Tells whether the link may carry traffic at `now`, and puts a link that
    /// has fallen silent in failure from `now`.
    pub fn is_available(&mut self, now: u64, error_backoff: u64, health_timeout: Option<u64>) -> (up:
        bool)
        ensures
            up == old(self).available(now, error_backoff, health_timeout),
            *final(self) == old(self).checked(now, health_timeout),
    {
        if self.remote.is_none() {
            return false;
        }
        if let Some(timeout) = health_timeout {
            match (self.last_rx, self.last_ping_sent) {
                (Some(last_rx), _) => {
                    if elapsed_between(now, last_rx) > timeout {
                        self.down_since = Some(now);
                        return false;
                    }
                },
                (None, Some(last_ping)) => {
                    if elapsed_between(now, last_ping) > timeout {
                        self.down_since = Some(now);
                        return false;
                    }
                },
                (None, None) => {},
            }
        }
        if let Some(down_since) = self.down_since {
            if elapsed_between(now, down_since) < error_backoff {
                return false;
            }
        }
        true
    }

    /// Notes an arrival at `now`, which ends any failure.
    pub fn record_rx(&mut self, now: u64)
        ensures
            *final(self) == (Link { last_rx: Some(now), down_since: None, ..*old(self) }),
            final(self).down_since is None,
    {
        self.last_rx = Some(now);
        self.down_since = None;
    }

    /// Notes the emission of a probe at `now`.
    pub fn record_ping(&mut self, now: u64)
        ensures
            *final(self) == (Link { last_ping_sent: Some(now), ..*old(self) }),
    {
        self.last_ping_sent = Some(now);
    }

    /// Notes a measured round trip.
    pub fn record_rtt(&mut self, rtt_ms: u64)
        ensures
            *final(self) == (Link { last_rtt_ms: Some(rtt_ms), ..*old(self) }),
    {
        self.last_rtt_ms = Some(rtt_ms);
    }

    /// Notes a datagram that the socket accepted, which ends any failure.
    pub fn record_send_ok(&mut self)
        ensures
            *final(self) == (Link { down_since: None, ..*old(self) }),
            final(self).down_since is None,
    {
        self.down_since = None;
    }

    /// Notes a datagram that the socket refused at `now`: the link is in failure
    /// from `now`.
    pub fn record_send_error(&mut self, now: u64)
        ensures
            *final(self) == (Link { down_since: Some(now), ..*old(self) }),
    {
        self.down_since = Some(now);
    }

    /// Whether the link is in failure, for the caller that reports transitions.
    pub fn is_down(&self) -> (down: bool)
        ensures
            down == self.down_since is Some,
    {
        self.down_since.is_some()
    }
}

} // verus!
