//! The link manager: the set of links, the bonding policy, the weighted
//! scheduler, and the bookkeeping of every send and every arrival.
//!
//! The manager never touches a socket. It says on which link and to which
//! address a datagram goes; the caller transmits and reports what the socket
//! said. Times are milliseconds on the daemon's monotonic clock.

use vstd::prelude::*;

use crate::address::SocketAddress;
use crate::bond::route_for;
use crate::bond::Bond;
use crate::bond::Dispatch;
use crate::bond::Route;
use crate::bond::SendStep;
use crate::config::BondingMode;
use crate::config::WireGuardConfig;
use crate::config::WireGuardLinkConfig;
use crate::control::build_control_packet;
use crate::control::class_of;
use crate::control::classify;
use crate::control::frame;
use crate::control::parse_control_packet;
use crate::control::parsed;
use crate::control::PacketClass;
use crate::control::BOND_PING;
use crate::control::BOND_PONG;
use crate::link::Link;
use crate::schedule::first_from;
use crate::schedule::in_arc;
use crate::schedule::lemma_first_from;
use crate::schedule::lemma_first_from_is;
use crate::schedule::lemma_next_true_is;
use crate::schedule::succ;
use crate::schedule::targets;
use crate::text::decimal;
use crate::text::decimal_text;
use crate::text::join;

verus! {

/// The links of a tunnel, the policy by which datagrams are spread over them,
/// and the scheduler of the weighted round-robin. Its state is read through
/// its view.
pub struct LinkManager {
    links: Vec<Link>,
    mode: BondingMode,
    error_backoff: u64,
    health_timeout: Option<u64>,
    next_index: usize,
    remaining_weight: u32,
}

/// A control frame to put on a link's socket.
#[derive(Debug, Clone, Copy, PartialEq, Eq)]
pub struct Probe {
    pub link: usize,
    pub remote: SocketAddress,
    pub frame: [u8; 13],
}

/// What became of an arrived datagram that was offered as a control frame.
#[derive(Debug, Clone, Copy, PartialEq, Eq)]
pub enum ControlOutcome {
    /// It is no control frame: it belongs to the tunnel.
    NotControl,
    /// It was a control frame and has been dealt with; `reply` is the pong to
    /// send where the frame was a ping that can be answered.
    Handled { reply: Option<Probe> },
}

impl View for LinkManager {
    type V = Bond;

    closed spec fn view(&self) -> Bond {
        Bond {
            links: self.links@,
            mode: self.mode,
            error_backoff: self.error_backoff,
            health_timeout: self.health_timeout,
            cursor: self.next_index,
            credit: self.remaining_weight,
        }
    }
}

/// Whether `link` is the fresh link that the `index`-th entry of a
/// configuration describes, with `remote` as its resolved endpoint.
pub open spec fn is_configured(
    link: Link,
    entry: WireGuardLinkConfig,
    index: int,
    remote: Option<SocketAddress>,
) -> bool {
    &&& link.name@ == match entry.name {
        Some(name) => name@,
        None => "link-"@ + decimal(index as nat),
    }
    &&& link.weight == match entry.weight {
        Some(weight) => weight,
        None => 1u32,
    }
    &&& link.remote == remote
    &&& link.down_since is None
    &&& link.last_rx is None
    &&& link.last_ping_sent is None
    &&& link.last_rtt_ms is None
}

/// The place reached from `cursor` after `steps` steps round a ring of `len` places.
spec fn ring(cursor: int, steps: int, len: int) -> int {
    if cursor + steps < len {
        cursor + steps
    } else {
        cursor + steps - len
    }
}

/// Whether place `j` is among the first `steps` places from `cursor` on the ring.
spec fn passed(cursor: int, steps: int, len: int, j: int) -> bool {
    (cursor <= j < cursor + steps) || j < cursor + steps - len
}

/// Ends a dispatch.
fn finish(d: Dispatch) -> (r: (Dispatch, SendStep))
    ensures
        r.0 == d.finished(),
        r.1 == d.verdict(),
{
    (
        Dispatch {
            route: Route::Finished,
            now: d.now,
            next: d.next,
            attempts: d.attempts,
            delivered: d.delivered,
            pending: None,
        },
        if d.delivered {
            SendStep::Delivered
        } else {
            SendStep::Dropped
        },
    )
}

/// Sends a dispatch to its last resort.
fn fall_back(d: Dispatch) -> (r: Dispatch)
    ensures
        r == d.fallen_back(),
{
    Dispatch {
        route: Route::Fallback,
        now: d.now,
        next: 0,
        attempts: d.attempts,
        delivered: d.delivered,
        pending: None,
    }
}

/// Ends a dispatch on an acceptance.
fn accept(d: Dispatch) -> (r: Dispatch)
    ensures
        r == (Dispatch { delivered: true, ..d }).finished(),
{
    Dispatch {
        route: Route::Finished,
        now: d.now,
        next: d.next,
        attempts: d.attempts,
        delivered: true,
        pending: None,
    }
}

impl LinkManager {
    /// Makes a manager of the given links, with the scheduler at the first link.
    pub fn new(
        links: Vec<Link>,
        mode: BondingMode,
        error_backoff: u64,
        health_timeout: Option<u64>,
    ) -> (manager: LinkManager)
        ensures
            manager@ == (Bond {
                links: links@,
                mode,
                error_backoff,
                health_timeout,
                cursor: 0,
                credit: 0,
            }),
            manager@.wf(),
    {
        assert(links@.len() == links.len());
        LinkManager { links, mode, error_backoff, health_timeout, next_index: 0, remaining_weight: 0 }
    }

    /// The number of links.
    pub fn len(&self) -> (n: usize)
        ensures
            n == self@.links.len(),
    {
        self.links.len()
    }

    /// The link at `index`, if there is one.
    pub fn link(&self, index: usize) -> (link: Option<&Link>)
        ensures
            index < self@.links.len() ==> link == Some(&self@.links[index as int]),
            index >= self@.links.len() ==> link is None,
    {
        if index < self.links.len() {
            Some(&self.links[index])
        } else {
            None
        }
    }

    /// The bonding mode.
    pub fn mode(&self) -> (mode: BondingMode)
        ensures
            mode == self@.mode,
    {
        self.mode
    }

    /// Whether links are probed.
    pub fn probing(&self) -> (on: bool)
        ensures
            on == self@.health_timeout is Some,
    {
        self.health_timeout.is_some()
    }

    /// Tells whether any link has a remote.
    pub fn has_endpoints(&self) -> (any: bool)
        ensures
            any == exists|i: int| 0 <= i < self@.links.len() && (#[trigger] self@.links[i]).remote is Some,
    {
        let n = self.links.len();
        let mut i: usize = 0;
        while i < n
            invariant
                n == self.links@.len(),
                i <= n,
                forall|j: int| 0 <= j < i ==> (#[trigger] self.links@[j]).remote is None,
            decreases n - i,
        {
            if self.links[i].remote.is_some() {
                assert(self@.links[i as int].remote is Some);
                return true;
            }
            i = i + 1;
        }
        false
    }

    /// Notes a datagram that arrived on link `index` from `src` at `now`: the
    /// link's remote becomes `src`, and the arrival ends any failure. An index
    /// that names no link changes nothing.
    pub fn update_remote(&mut self, index: usize, src: SocketAddress, now: u64)
        ensures
            final(self)@ == old(self)@.arrived(index, src, now),
            old(self)@.wf() ==> final(self)@.wf(),
    {
        if index < self.links.len() {
            self.links[index].remote = Some(src);
            self.links[index].record_rx(now);
            assert(self@.links =~= old(self)@.links.update(
                index as int,
                Link {
                    remote: Some(src),
                    last_rx: Some(now),
                    down_since: None,
                    ..old(self)@.links[index as int]
                },
            ));
        }
    }

    /// Moves the scheduler's cursor to the next link and forgets the credit.
    fn advance_cursor(&mut self, len: usize)
        requires
            len == old(self)@.links.len(),
            old(self)@.cursor < len,
        ensures
            final(self)@ == (Bond {
                cursor: succ(old(self)@.cursor as int, len as int) as usize,
                credit: 0,
                ..old(self)@
            }),
    {
        self.next_index = if self.next_index + 1 >= len {
            0
        } else {
            self.next_index + 1
        };
        self.remaining_weight = 0;
    }

    /// Takes one turn of the weighted round-robin at `now` and gives the link
    /// to send on: the first link from the cursor that is available and of
    /// non-zero weight. The turn uses up one credit of that link; the cursor
    /// moves on when the link has had as many turns in a row as its weight.
    /// Where no link can be served, gives `None` and clears the credit.
    pub fn next_weighted_index(&mut self, now: u64) -> (pick: Option<usize>)
        requires
            old(self)@.wf(),
        ensures
            final(self)@ == old(self)@.after_turn(now),
            final(self)@.wf(),
            match old(self)@.turn(now) {
                Some(t) => 0 <= t.link < old(self)@.links.len() && pick == Some(t.link as usize),
                None => pick is None,
            },
            pick matches Some(i) ==> {
                &&& i < old(self)@.links.len()
                &&& old(self)@.eligible_flags(now)[i as int]
                &&& final(self)@.links[i as int] == old(self)@.links[i as int]
            },
            pick is None ==> forall|j: int|
                0 <= j < old(self)@.links.len() ==> !#[trigger] old(self)@.eligible_flags(now)[j],
    {
        let len = self.links.len();
        let ghost b0 = self@;
        let ghost flags = b0.eligible_flags(now);
        if len == 0 {
            assert(first_from(flags, b0.cursor as int) is None);
            assert(self@.links =~= b0.after_turn(now).links);
            return None;
        }
        proof {
            lemma_first_from(flags, b0.cursor as int);
        }
        let backoff = self.error_backoff;
        let timeout = self.health_timeout;
        let mut attempts: usize = 0;
        while attempts < len
            invariant
                b0 == old(self)@,
                len == b0.links.len(),
                len > 0,
                b0.wf(),
                flags == b0.eligible_flags(now),
                backoff == b0.error_backoff,
                timeout == b0.health_timeout,
                attempts <= len,
                self@.links.len() == len,
                self@.mode == b0.mode,
                self@.error_backoff == b0.error_backoff,
                self@.health_timeout == b0.health_timeout,
                self@.cursor as int == ring(b0.cursor as int, attempts as int, len as int),
                attempts == 0 ==> self@.credit == b0.credit,
                attempts > 0 ==> self@.credit == 0,
                forall|j: int|
                    0 <= j < len ==> #[trigger] self@.links[j] == (if passed(
                        b0.cursor as int,
                        attempts as int,
                        len as int,
                        j,
                    ) && b0.links[j].weight > 0 {
                        b0.links[j].checked(now, b0.health_timeout)
                    } else {
                        b0.links[j]
                    }),
                forall|j: int|
                    0 <= j < len && passed(b0.cursor as int, attempts as int, len as int, j)
                        ==> !#[trigger] flags[j],
            decreases len - attempts,
        {
            let index = self.next_index;
            assert(!passed(b0.cursor as int, attempts as int, len as int, index as int));
            assert(self@.links[index as int] == b0.links[index as int]);
            let usable = if self.links[index].weight == 0 {
                false
            } else {
                self.links[index].is_available(now, backoff, timeout)
            };
            if usable {
                proof {
                    b0.links[index as int].lemma_checked_stable(now, backoff, timeout);
                    assert(flags[index as int]);
                    assert forall|j: int|
                        0 <= j < len && in_arc(b0.cursor as int, index as int, j) implies !#[trigger] flags[j] by {
                        assert(passed(b0.cursor as int, attempts as int, len as int, j));
                    }
                    lemma_first_from_is(flags, b0.cursor as int, index as int);
                }
                if self.remaining_weight == 0 {
                    self.remaining_weight = self.links[index].weight;
                }
                self.remaining_weight = self.remaining_weight - 1;
                if self.remaining_weight == 0 {
                    self.advance_cursor(len);
                }
                proof {
                    assert(b0.weights()[index as int] == b0.links[index as int].weight);
                    assert(first_from(flags, b0.cursor as int) == Some(index as int));
                    let t = b0.turn(now).unwrap();
                    assert(t.link == index);
                    assert(t.cursor == self@.cursor);
                    assert(t.credit == self@.credit);
                    assert forall|j: int| 0 <= j < len implies #[trigger] self@.links[j]
                        == b0.after_turn(now).links[j] by {
                        if j != index {
                            assert(passed(b0.cursor as int, attempts as int, len as int, j)
                                == in_arc(b0.cursor as int, index as int, j));
                        }
                    }
                    assert(self@.links =~= b0.after_turn(now).links);
                }
                return Some(index);
            }
            self.advance_cursor(len);
            attempts = attempts + 1;
            proof {
                b0.links[index as int].lemma_checked_stable(now, backoff, timeout);
                assert(!flags[index as int]);
                assert forall|j: int| 0 <= j < len implies #[trigger] self@.links[j] == (if passed(
                    b0.cursor as int,
                    attempts as int,
                    len as int,
                    j,
                ) && b0.links[j].weight > 0 {
                    b0.links[j].checked(now, b0.health_timeout)
                } else {
                    b0.links[j]
                }) by {
                    if j != index {
                        assert(passed(b0.cursor as int, attempts as int, len as int, j) == passed(
                            b0.cursor as int,
                            attempts as int - 1,
                            len as int,
                            j,
                        ));
                    }
                }
            }
        }
        proof {
            assert forall|j: int| 0 <= j < len implies !#[trigger] flags[j] by {
                assert(passed(b0.cursor as int, attempts as int, len as int, j));
            }
            assert(first_from(flags, b0.cursor as int) is None);
            assert(self@.links =~= b0.after_turn(now).links);
        }
        None
    }

    /// Asks the availability of every link at `now` and gives the one that
    /// `Failover` prefers: the available link of highest weight, the first of
    /// them where several share it.
    pub fn best_failover_index(&mut self, now: u64) -> (pick: Option<usize>)
        ensures
            final(self)@ == old(self)@.asked(0, old(self)@.links.len() as int, now),
            old(self)@.wf() ==> final(self)@.wf(),
            pick matches Some(i) ==> old(self)@.is_best(i as int, now),
            pick is None ==> forall|j: int|
                0 <= j < old(self)@.links.len() ==> !#[trigger] old(self)@.available_flags(now)[j],
            match old(self)@.best(now) {
                Some(i) => pick == Some(i as usize),
                None => pick is None,
            },
    {
        let len = self.links.len();
        let ghost b0 = self@;
        let backoff = self.error_backoff;
        let timeout = self.health_timeout;
        let mut best: Option<(usize, u32)> = None;
        let mut index: usize = 0;
        assert(self@.links =~= b0.asked(0, 0, now).links);
        while index < len
            invariant
                b0 == old(self)@,
                len == b0.links.len(),
                backoff == b0.error_backoff,
                timeout == b0.health_timeout,
                index <= len,
                self@ == b0.asked(0, index as int, now),
                match best {
                    Some((i, w)) => {
                        &&& i < index
                        &&& b0.available_flags(now)[i as int]
                        &&& w == b0.links[i as int].weight
                        &&& forall|j: int|
                            0 <= j < index && #[trigger] b0.available_flags(now)[j] ==> {
                                ||| b0.links[j].weight < w
                                ||| b0.links[j].weight == w && i <= j
                            }
                    },
                    None => forall|j: int| 0 <= j < index ==> !#[trigger] b0.available_flags(now)[j],
                },
            decreases len - index,
        {
            assert(self@.links[index as int] == b0.links[index as int]);
            let up = self.links[index].is_available(now, backoff, timeout);
            assert(up == b0.available_flags(now)[index as int]);
            if up {
                let weight = self.links[index].weight;
                match best {
                    Some((_, best_weight)) if best_weight >= weight => {},
                    _ => {
                        best = Some((index, weight));
                    },
                }
            }
            index = index + 1;
            assert(self@.links =~= b0.asked(0, index as int, now).links);
        }
        proof {
            b0.lemma_best(now);
            match best {
                Some((i, _)) => {
                    b0.lemma_best_is(i as int, now);
                },
                None => {
                    if b0.best(now) is Some {
                        assert(b0.available_flags(now)[b0.best(now).unwrap()]);
                    }
                },
            }
        }
        match best {
            Some((i, _)) => Some(i),
            None => None,
        }
    }

    /// Where a datagram for link `index` goes: the link's remote. `None` where
    /// the link has no remote, or where there is no such link; nothing is sent then.
    pub fn send_to_link(&self, index: usize) -> (target: Option<SocketAddress>)
        ensures
            index < self@.links.len() ==> target == self@.links[index as int].remote,
            index >= self@.links.len() ==> target is None,
    {
        if index < self.links.len() {
            self.links[index].remote
        } else {
            None
        }
    }

    /// Notes what the socket of link `index` said to a datagram at `now`: an
    /// acceptance ends the link's failure, a refusal begins one.
    pub fn record_send(&mut self, index: usize, accepted: bool, now: u64)
        ensures
            final(self)@ == old(self)@.answered(index, accepted, now),
            old(self)@.wf() ==> final(self)@.wf(),
    {
        if index < self.links.len() {
            if accepted {
                self.links[index].record_send_ok();
            } else {
                self.links[index].record_send_error(now);
            }
            assert(self@.links =~= old(self)@.answered(index, accepted, now).links);
        }
    }

    /// The next step of a `Broadcast`: the next link from `d.next` on that has
    /// a remote, whatever its health.
    pub fn send_all(&self, d: Dispatch) -> (r: (Dispatch, SendStep))
        ensures
            r.0 == self@.broadcast(d).dispatch,
            r.1 == self@.broadcast(d).step,
            r.1 matches SendStep::Transmit { link, remote } ==> link < self@.links.len()
                && self@.links[link as int].remote == Some(remote),
    {
        let len = self.links.len();
        let ghost flags = self@.remote_flags();
        let mut j: usize = d.next;
        while j < len
            invariant
                len == self@.links.len(),
                flags == self@.remote_flags(),
                d.next <= j,
                forall|k: int| d.next <= k < j && k < len ==> !#[trigger] flags[k],
            decreases len - j,
        {
            if let Some(remote) = self.links[j].remote {
                proof {
                    assert(flags[j as int]);
                    lemma_next_true_is(flags, d.next as int, j as int);
                }
                return (
                    Dispatch {
                        route: d.route,
                        now: d.now,
                        next: j + 1,
                        attempts: d.attempts,
                        delivered: d.delivered,
                        pending: Some(j),
                    },
                    SendStep::Transmit { link: j, remote },
                );
            }
            assert(!flags[j as int]);
            j = j + 1;
        }
        proof {
            if d.next <= len {
                lemma_next_true_is(flags, d.next as int, len as int);
            }
        }
        finish(d)
    }

    /// The next step of a `Mirror` or of the last resort: the next link from
    /// `d.next` on that is available at the time of the send.
    pub fn send_any(&mut self, d: Dispatch) -> (r: (Dispatch, SendStep))
        ensures
            final(self)@ == old(self)@.sweep(d).bond,
            r.0 == old(self)@.sweep(d).dispatch,
            r.1 == old(self)@.sweep(d).step,
            old(self)@.wf() ==> final(self)@.wf(),
            r.1 matches SendStep::Transmit { link, remote } ==> link < final(self)@.links.len()
                && final(self)@.links[link as int].remote == Some(remote),
    {
        let len = self.links.len();
        let ghost b0 = self@;
        let ghost flags = b0.available_flags(d.now);
        let backoff = self.error_backoff;
        let timeout = self.health_timeout;
        let mut j: usize = d.next;
        assert(self@.links =~= b0.asked(d.next as int, j as int, d.now).links);
        while j < len
            invariant
                b0 == old(self)@,
                len == b0.links.len(),
                flags == b0.available_flags(d.now),
                backoff == b0.error_backoff,
                timeout == b0.health_timeout,
                d.next <= j,
                self@ == b0.asked(d.next as int, j as int, d.now),
                forall|k: int| d.next <= k < j && k < len ==> !#[trigger] flags[k],
            decreases len - j,
        {
            let up = self.links[j].is_available(d.now, backoff, timeout);
            assert(up == flags[j as int]);
            if up {
                proof {
                    b0.links[j as int].lemma_checked_stable(d.now, backoff, timeout);
                    lemma_next_true_is(flags, d.next as int, j as int);
                    assert(self@.links =~= b0.asked(d.next as int, j as int, d.now).links);
                }
                if let Some(remote) = self.links[j].remote {
                    return (
                        Dispatch {
                            route: d.route,
                            now: d.now,
                            next: j + 1,
                            attempts: d.attempts,
                            delivered: d.delivered,
                            pending: Some(j),
                        },
                        SendStep::Transmit { link: j, remote },
                    );
                }
            }
            j = j + 1;
            assert(self@.links =~= b0.asked(d.next as int, j as int, d.now).links);
        }
        proof {
            if d.next <= len {
                lemma_next_true_is(flags, d.next as int, len as int);
            }
            assert(self@.links =~= b0.asked(d.next as int, len as int, d.now).links);
        }
        finish(d)
    }

    /// The next step of a `RoundRobin`: the link whose turn it is, or the last
    /// resort once every link has refused or none can take a turn.
    pub fn send_round_robin(&mut self, d: Dispatch) -> (r: (Dispatch, SendStep))
        requires
            old(self)@.wf(),
        ensures
            final(self)@ == old(self)@.rotate(d).bond,
            r.0 == old(self)@.rotate(d).dispatch,
            r.1 == old(self)@.rotate(d).step,
            final(self)@.wf(),
            r.1 matches SendStep::Transmit { link, remote } ==> link < final(self)@.links.len()
                && final(self)@.links[link as int].remote == Some(remote),
    {
        if d.attempts < self.links.len() {
            if let Some(index) = self.next_weighted_index(d.now) {
                if let Some(remote) = self.links[index].remote {
                    return (
                        Dispatch {
                            route: d.route,
                            now: d.now,
                            next: d.next,
                            attempts: d.attempts,
                            delivered: d.delivered,
                            pending: Some(index),
                        },
                        SendStep::Transmit { link: index, remote },
                    );
                }
            }
        }
        self.send_any(fall_back(d))
    }

    /// The next step of a `Failover`: the available link of highest weight, or
    /// the last resort where no link is available.
    pub fn send_failover(&mut self, d: Dispatch) -> (r: (Dispatch, SendStep))
        ensures
            final(self)@ == old(self)@.prefer(d, old(self)@.best(d.now)).bond,
            r.0 == old(self)@.prefer(d, old(self)@.best(d.now)).dispatch,
            r.1 == old(self)@.prefer(d, old(self)@.best(d.now)).step,
            old(self)@.wf() ==> final(self)@.wf(),
            r.1 matches SendStep::Transmit { link, remote } ==> link < final(self)@.links.len()
                && final(self)@.links[link as int].remote == Some(remote),
    {
        let ghost b0 = self@;
        let pick = self.best_failover_index(d.now);
        proof {
            b0.lemma_best(d.now);
            match pick {
                Some(i) => {
                    b0.lemma_best_is(i as int, d.now);
                },
                None => {},
            }
        }
        if let Some(index) = pick {
            if let Some(remote) = self.links[index].remote {
                return (
                    Dispatch {
                        route: d.route,
                        now: d.now,
                        next: d.next,
                        attempts: d.attempts,
                        delivered: d.delivered,
                        pending: Some(index),
                    },
                    SendStep::Transmit { link: index, remote },
                );
            }
        }
        self.send_any(fall_back(d))
    }

    /// The step that follows in a dispatch, by its route.
    pub fn resume(&mut self, d: Dispatch) -> (r: (Dispatch, SendStep))
        requires
            old(self)@.wf(),
        ensures
            final(self)@ == old(self)@.advance(d).bond,
            r.0 == old(self)@.advance(d).dispatch,
            r.1 == old(self)@.advance(d).step,
            final(self)@.wf(),
            r.1 matches SendStep::Transmit { link, remote } ==> link < final(self)@.links.len()
                && final(self)@.links[link as int].remote == Some(remote),
    {
        match d.route {
            Route::Broadcast => self.send_all(d),
            Route::Mirror => self.send_any(d),
            Route::Fallback => self.send_any(d),
            Route::RoundRobin => self.send_round_robin(d),
            Route::Failover => self.send_failover(d),
            Route::Finished => finish(d),
        }
    }

    /// Begins the dispatch of a tunnel datagram at `now` and gives the first
    /// step. Handshakes and keepalives go out on every link that has a remote;
    /// everything else goes by the bonding mode.
    pub fn send_packet(&mut self, packet: &[u8], now: u64) -> (r: (Dispatch, SendStep))
        requires
            old(self)@.wf(),
        ensures
            final(self)@ == old(self)@.advance(
                Dispatch::start(route_for(class_of(packet@), old(self)@.mode), now),
            ).bond,
            r.0 == old(self)@.advance(
                Dispatch::start(route_for(class_of(packet@), old(self)@.mode), now),
            ).dispatch,
            r.1 == old(self)@.advance(
                Dispatch::start(route_for(class_of(packet@), old(self)@.mode), now),
            ).step,
            final(self)@.wf(),
            r.1 matches SendStep::Transmit { link, remote } ==> link < final(self)@.links.len()
                && final(self)@.links[link as int].remote == Some(remote),
    {
        let route = match classify(packet) {
            PacketClass::Handshake => Route::Broadcast,
            PacketClass::Keepalive => Route::Broadcast,
            _ => match self.mode {
                BondingMode::Aggregate => Route::RoundRobin,
                BondingMode::Redundant => Route::Mirror,
                BondingMode::Failover => Route::Failover,
            },
        };
        self.resume(
            Dispatch { route, now, next: 0, attempts: 0, delivered: false, pending: None },
        )
    }

    /// Notes what the pending socket of a dispatch said, and gives the step
    /// that follows.
    pub fn send_outcome(&mut self, d: Dispatch, accepted: bool) -> (r: (Dispatch, SendStep))
        requires
            old(self)@.wf(),
        ensures
            final(self)@ == old(self)@.settle(d, accepted).bond,
            r.0 == old(self)@.settle(d, accepted).dispatch,
            r.1 == old(self)@.settle(d, accepted).step,
            final(self)@.wf(),
            r.1 matches SendStep::Transmit { link, remote } ==> link < final(self)@.links.len()
                && final(self)@.links[link as int].remote == Some(remote),
    {
        match d.pending {
            Some(index) => {
                self.record_send(index, accepted, d.now);
                let after = match d.route {
                    Route::Broadcast | Route::Mirror => Dispatch {
                        route: d.route,
                        now: d.now,
                        next: d.next,
                        attempts: d.attempts,
                        delivered: d.delivered || accepted,
                        pending: None,
                    },
                    Route::RoundRobin => if accepted {
                        accept(d)
                    } else {
                        Dispatch {
                            route: d.route,
                            now: d.now,
                            next: d.next,
                            attempts: if d.attempts < usize::MAX {
                                d.attempts + 1
                            } else {
                                d.attempts
                            },
                            delivered: d.delivered,
                            pending: None,
                        }
                    },
                    Route::Failover => if accepted {
                        accept(d)
                    } else {
                        fall_back(d)
                    },
                    Route::Fallback => if accepted {
                        accept(d)
                    } else {
                        Dispatch {
                            route: d.route,
                            now: d.now,
                            next: d.next,
                            attempts: d.attempts,
                            delivered: d.delivered,
                            pending: None,
                        }
                    },
                    Route::Finished => d,
                };
                self.resume(after)
            },
            None => self.resume(d),
        }
    }

    /// The probe that carries `frame` on link `index`: to the link's remote.
    /// `None` where the link has no remote, or where there is no such link.
    pub fn send_probe(&self, index: usize, frame: [u8; 13]) -> (probe: Option<Probe>)
        ensures
            match probe {
                Some(p) => index < self@.links.len() && p.link == index && self@.links[index as int].remote
                    == Some(p.remote) && p.frame == frame,
                None => index >= self@.links.len() || self@.links[index as int].remote is None,
            },
    {
        match self.send_to_link(index) {
            Some(remote) => Some(Probe { link: index, remote, frame }),
            None => None,
        }
    }

    /// Notes what the socket of link `index` said to a probe at `now`, as for
    /// any datagram; an accepted ping is also noted as the link's latest probe.
    pub fn record_probe(&mut self, index: usize, ping: bool, accepted: bool, now: u64)
        ensures
            final(self)@ == if ping && accepted {
                old(self)@.answered(index, accepted, now).pinged(index, now)
            } else {
                old(self)@.answered(index, accepted, now)
            },
            old(self)@.wf() ==> final(self)@.wf(),
    {
        self.record_send(index, accepted, now);
        if ping && accepted && index < self.links.len() {
            let ghost before = self@;
            self.links[index].record_ping(now);
            assert(self@.links =~= before.pinged(index, now).links);
        }
    }

    /// The pings to emit at `now`: one for every link that has a remote, failed
    /// links included, each carrying `now` as its token. None where probing is off.
    pub fn send_health_pings(&self, now: u64) -> (probes: Vec<Probe>)
        ensures
            self@.health_timeout is None ==> probes@.len() == 0,
            self@.health_timeout is Some ==> {
                &&& probes@.len() == targets(self@.remote_flags(), 0).len()
                &&& forall|k: int|
                    0 <= k < probes@.len() ==> {
                        &&& (#[trigger] probes@[k]).link == targets(self@.remote_flags(), 0)[k]
                        &&& self@.links[probes@[k].link as int].remote == Some(probes@[k].remote)
                        &&& probes@[k].frame@ == frame(BOND_PING, now)
                    }
            },
    {
        let mut probes: Vec<Probe> = Vec::new();
        if self.health_timeout.is_none() {
            return probes;
        }
        let packet = build_control_packet(BOND_PING, now);
        let len = self.links.len();
        let ghost flags = self@.remote_flags();
        let mut index: usize = 0;
        while index < len
            invariant
                len == self@.links.len(),
                flags == self@.remote_flags(),
                index <= len,
                packet@ == frame(BOND_PING, now),
                probes@.len() + targets(flags, index as int).len() == targets(flags, 0).len(),
                forall|k: int|
                    0 <= k < probes@.len() ==> {
                        &&& (#[trigger] probes@[k]).link == targets(flags, 0)[k]
                        &&& self@.links[probes@[k].link as int].remote == Some(probes@[k].remote)
                        &&& probes@[k].frame@ == frame(BOND_PING, now)
                    },
                forall|k: int|
                    0 <= k < targets(flags, index as int).len() ==> #[trigger] targets(
                        flags,
                        index as int,
                    )[k] == targets(flags, 0)[probes@.len() + k],
            decreases len - index,
        {
            let ghost here = targets(flags, index as int);
            let ghost rest = targets(flags, index as int + 1);
            if let Some(probe) = self.send_probe(index, packet) {
                proof {
                    assert(flags[index as int]);
                    assert(here == seq![index as int] + rest);
                    assert(here[0] == index);
                    assert forall|k: int| 0 <= k < rest.len() implies #[trigger] rest[k] == targets(
                        flags,
                        0,
                    )[probes@.len() + 1 + k] by {
                        assert(here[k + 1] == rest[k]);
                    }
                }
                probes.push(probe);
            } else {
                assert(!flags[index as int]);
                assert(here == rest);
            }
            index = index + 1;
        }
        probes
    }

    /// Takes a datagram that arrived on link `link_index` at `now` if it is a
    /// control frame, and tells whether it was one. A ping is answered by a
    /// pong with the same token, on the same link. A pong whose token is not
    /// in the future gives the link's round trip: the time since the token.
    pub fn handle_control_packet(&mut self, link_index: usize, data: &[u8], now: u64) -> (outcome:
        ControlOutcome)
        ensures
            old(self)@.wf() ==> final(self)@.wf(),
            final(self)@ == old(self)@.after_control(link_index, data@, now),
            match parsed(data@) {
                None => outcome is NotControl,
                Some(_) => {
                    &&& outcome matches ControlOutcome::Handled { reply }
                    &&& match old(self)@.owed_pong(link_index, data@) {
                        Some((remote, token)) => {
                            &&& reply matches Some(p)
                            &&& p.link == link_index
                            &&& p.remote == remote
                            &&& p.frame@ == frame(BOND_PONG, token)
                        },
                        None => reply is None,
                    }
                },
            },
    {
        let (kind, token) = match parse_control_packet(data) {
            Some(parsed) => parsed,
            None => {
                return ControlOutcome::NotControl;
            },
        };
        if kind == BOND_PING {
            let response = build_control_packet(BOND_PONG, token);
            ControlOutcome::Handled { reply: self.send_probe(link_index, response) }
        } else if kind == BOND_PONG {
            if link_index < self.links.len() && now >= token {
                self.links[link_index].record_rtt(now - token);
                assert(self@.links =~= old(self)@.links.update(
                    link_index as int,
                    Link {
                        last_rtt_ms: Some((now - token) as u64),
                        ..old(self)@.links[link_index as int]
                    },
                ));
            }
            ControlOutcome::Handled { reply: None }
        } else {
            ControlOutcome::Handled { reply: None }
        }
    }

    /// Makes the manager that a configuration describes. Link `i` is named as
    /// configured, or `link-` and its index; it weighs what is configured, or 1;
    /// its remote is `remotes[i]`, the address that its endpoint resolved to.
    pub fn from_config(config: &WireGuardConfig, remotes: &Vec<Option<SocketAddress>>) -> (manager:
        LinkManager)
        ensures
            manager@.wf(),
            manager@.mode == config.spec_settings().mode,
            manager@.error_backoff == config.spec_settings().error_backoff_ms,
            manager@.health_timeout == config.spec_settings().health_timeout_ms,
            manager@.cursor == 0,
            manager@.credit == 0,
            manager@.links.len() == config.links@.len(),
            forall|i: int|
                0 <= i < config.links@.len() ==> is_configured(
                    #[trigger] manager@.links[i],
                    config.links@[i],
                    i,
                    if i < remotes@.len() {
                        remotes@[i]
                    } else {
                        None
                    },
                ),
    {
        let settings = config.settings();
        let count = config.links.len();
        let mut links: Vec<Link> = Vec::new();
        let mut index: usize = 0;
        while index < count
            invariant
                count == config.links@.len(),
                index <= count,
                links@.len() == index,
                forall|i: int|
                    0 <= i < index ==> is_configured(
                        #[trigger] links@[i],
                        config.links@[i],
                        i,
                        if i < remotes@.len() {
                            remotes@[i]
                        } else {
                            None
                        },
                    ),
            decreases count - index,
        {
            let name = match &config.links[index].name {
                Some(name) => name.clone(),
                None => join("link-", decimal_text(index as u64).as_str()),
            };
            let weight = match config.links[index].weight {
                Some(weight) => weight,
                None => 1,
            };
            let remote = if index < remotes.len() {
                remotes[index]
            } else {
                None
            };
            links.push(Link::new(name, remote, weight));
            index = index + 1;
        }
        LinkManager::new(links, settings.mode, settings.error_backoff_ms, settings.health_timeout_ms)
    }
}

} // verus!
