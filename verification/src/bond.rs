//! The bonding engine as mathematics: the state of the links and of the
//! scheduler as plain values, the steps by which a datagram makes its way
//! through the links, and what is true of every such way.
//!
//! A dispatch is a sequence of steps. Each step either names a link to
//! transmit on, and then waits for what the socket said, or ends the dispatch
//! with its verdict. Which step follows depends on the route of the datagram
//! and on the answers so far.

use vstd::prelude::*;

use crate::address::SocketAddress;
use crate::config::BondingMode;
use crate::control::class_of;
use crate::control::parsed;
use crate::control::PacketClass;
use crate::control::BOND_PING;
use crate::control::BOND_PONG;
use crate::link::Link;
use crate::schedule::after_turns;
use crate::schedule::first_from;
use crate::schedule::in_arc;
use crate::schedule::lemma_fair_share;
use crate::schedule::lemma_first_from;
use crate::schedule::lemma_next_true;
use crate::schedule::lemma_targets;
use crate::schedule::lemma_targets_agree;
use crate::schedule::lemma_targets_head;
use crate::schedule::next_true;
use crate::schedule::round_len;
use crate::schedule::served;
use crate::schedule::take_turn;
use crate::schedule::targets;
use crate::schedule::Turn;

verus! {

/// The manager's state as plain values.
pub struct Bond {
    pub links: Seq<Link>,
    pub mode: BondingMode,
    /// How long a failed link stays excluded.
    pub error_backoff: u64,
    /// Silence after which a link is taken for failed; `None` turns probing off.
    pub health_timeout: Option<u64>,
    /// The link whose turn it is in the weighted round-robin.
    pub cursor: usize,
    /// The turns left to the cursor's link before the cursor moves on; zero
    /// when its turns have not begun.
    pub credit: u32,
}

/// The rule by which the datagram in flight is spread over the links.
#[derive(Debug, Clone, Copy, PartialEq, Eq, Structural)]
pub enum Route {
    /// On every link that has a remote, in index order.
    Broadcast,
    /// On every available link, in index order.
    Mirror,
    /// On the link whose turn it is; on a refusal, on the next in turn.
    RoundRobin,
    /// On the available link of highest weight.
    Failover,
    /// The last resort: on the available links in index order until one accepts.
    Fallback,
    /// Nothing is left to do.
    Finished,
}

/// The progress of one datagram through the links.
#[derive(Debug, Clone, Copy, PartialEq, Eq, Structural)]
pub struct Dispatch {
    pub route: Route,
    /// The time of the send, by which availability is judged throughout.
    pub now: u64,
    /// The first link that a scan in index order has not reached yet.
    pub next: usize,
    /// The refusals met in `RoundRobin`.
    pub attempts: usize,
    /// Whether a socket has accepted the datagram.
    pub delivered: bool,
    /// The link whose socket holds the datagram, while its answer is awaited.
    pub pending: Option<usize>,
}

/// What the caller does next with the datagram in flight.
#[derive(Debug, Clone, Copy, PartialEq, Eq, Structural)]
pub enum SendStep {
    /// Hand the datagram to the socket of `link`, addressed to `remote`, and
    /// report what the socket said.
    Transmit { link: usize, remote: SocketAddress },
    /// Done: at least one socket accepted the datagram.
    Delivered,
    /// Done: no socket accepted the datagram, which is dropped. The caller
    /// warns once.
    Dropped,
}

/// A state, the progress of a datagram, and the step that follows.
pub struct Advance {
    pub bond: Bond,
    pub dispatch: Dispatch,
    pub step: SendStep,
}

/// The rule for a datagram of a class under a bonding mode: handshakes and
/// keepalives go out on all links whatever the mode, everything else by the mode.
pub open spec fn route_for(class: PacketClass, mode: BondingMode) -> Route {
    match class {
        PacketClass::Handshake | PacketClass::Keepalive => Route::Broadcast,
        _ => match mode {
            BondingMode::Aggregate => Route::RoundRobin,
            BondingMode::Redundant => Route::Mirror,
            BondingMode::Failover => Route::Failover,
        },
    }
}

impl Dispatch {
    /// The progress of a datagram that has not been offered to any link.
    pub open spec fn start(route: Route, now: u64) -> Dispatch {
        Dispatch { route, now, next: 0, attempts: 0, delivered: false, pending: None }
    }

    /// The step that ends a dispatch: delivered if a socket accepted, else dropped.
    pub open spec fn verdict(self) -> SendStep {
        if self.delivered {
            SendStep::Delivered
        } else {
            SendStep::Dropped
        }
    }

    /// The dispatch with nothing left to do.
    pub open spec fn finished(self) -> Dispatch {
        Dispatch { route: Route::Finished, pending: None, ..self }
    }

    /// The dispatch that has come to its last resort.
    pub open spec fn fallen_back(self) -> Dispatch {
        Dispatch { route: Route::Fallback, next: 0, pending: None, ..self }
    }
}

impl Bond {
    /// The scheduler's cursor points at a link, and the credit is within the
    /// weight of that link.
    pub open spec fn wf(self) -> bool {
        &&& self.links.len() <= usize::MAX
        &&& if self.links.len() == 0 {
            self.cursor == 0 && self.credit == 0
        } else {
            self.cursor < self.links.len() && self.credit <= self.links[self.cursor as int].weight
        }
    }

    /// Per link, whether it has a remote.
    pub open spec fn remote_flags(self) -> Seq<bool> {
        Seq::new(self.links.len(), |i: int| self.links[i].remote is Some)
    }

    /// Per link, whether it is available at `now`.
    pub open spec fn available_flags(self, now: u64) -> Seq<bool> {
        Seq::new(
            self.links.len(),
            |i: int| self.links[i].available(now, self.error_backoff, self.health_timeout),
        )
    }

    /// Per link, whether the weighted round-robin may serve it at `now`: it is
    /// available and its weight is not zero.
    pub open spec fn eligible_flags(self, now: u64) -> Seq<bool> {
        Seq::new(
            self.links.len(),
            |i: int|
                self.links[i].weight > 0 && self.links[i].available(
                    now,
                    self.error_backoff,
                    self.health_timeout,
                ),
        )
    }

    /// The weight of every link.
    pub open spec fn weights(self) -> Seq<u32> {
        Seq::new(self.links.len(), |i: int| self.links[i].weight)
    }

    /// The state with the availability of the links from `from` up to `to`
    /// asked at `now`.
    pub open spec fn asked(self, from: int, to: int, now: u64) -> Bond {
        Bond {
            links: Seq::new(
                self.links.len(),
                |i: int|
                    if from <= i < to {
                        self.links[i].checked(now, self.health_timeout)
                    } else {
                        self.links[i]
                    },
            ),
            ..self
        }
    }

    /// The turn that the weighted round-robin takes at `now`.
    pub open spec fn turn(self, now: u64) -> Option<Turn> {
        take_turn(self.eligible_flags(now), self.weights(), self.cursor as int, self.credit as int)
    }

    /// The state after the turn taken at `now`. The availability of every link
    /// of non-zero weight that the scan passed was asked: those between the
    /// cursor and the link served, or all of them where none could be served.
    pub open spec fn after_turn(self, now: u64) -> Bond {
        let found = first_from(self.eligible_flags(now), self.cursor as int);
        Bond {
            links: Seq::new(
                self.links.len(),
                |j: int|
                    if self.links[j].weight > 0 && (match found {
                        None => true,
                        Some(i) => in_arc(self.cursor as int, i, j),
                    }) {
                        self.links[j].checked(now, self.health_timeout)
                    } else {
                        self.links[j]
                    },
            ),
            cursor: match self.turn(now) {
                Some(t) => t.cursor as usize,
                None => self.cursor,
            },
            credit: match self.turn(now) {
                Some(t) => t.credit as u32,
                None => 0,
            },
            ..self
        }
    }

    /// Whether link `i` is the one that `Failover` prefers at `now`: it is
    /// available, no available link has a higher weight, and none of the same
    /// weight comes before it.
    pub open spec fn is_best(self, i: int, now: u64) -> bool {
        &&& 0 <= i < self.links.len()
        &&& self.available_flags(now)[i]
        &&& forall|j: int|
            0 <= j < self.links.len() && #[trigger] self.available_flags(now)[j] ==> {
                ||| self.links[j].weight < self.links[i].weight
                ||| self.links[j].weight == self.links[i].weight && i <= j
            }
    }

    /// The link that `Failover` prefers at `now`, if any link is available.
    pub open spec fn best(self, now: u64) -> Option<int> {
        if exists|i: int| self.is_best(i, now) {
            Some(choose|i: int| self.is_best(i, now))
        } else {
            None
        }
    }

    /// The state after a datagram arrived on link `index` from `src` at `now`:
    /// the link's remote is `src`, the arrival is its latest, and any failure
    /// of the link is over. An index that names no link changes nothing.
    pub open spec fn arrived(self, index: usize, src: SocketAddress, now: u64) -> Bond {
        if index < self.links.len() {
            Bond {
                links: self.links.update(
                    index as int,
                    Link {
                        remote: Some(src),
                        last_rx: Some(now),
                        down_since: None,
                        ..self.links[index as int]
                    },
                ),
                ..self
            }
        } else {
            self
        }
    }

    /// The links after the socket of link `index` answered at `now`: an
    /// acceptance ends the link's failure, a refusal begins one.
    pub open spec fn answered(self, index: usize, accepted: bool, now: u64) -> Bond {
        if index < self.links.len() {
            Bond {
                links: self.links.update(
                    index as int,
                    Link {
                        down_since: if accepted {
                            None
                        } else {
                            Some(now)
                        },
                        ..self.links[index as int]
                    },
                ),
                ..self
            }
        } else {
            self
        }
    }

    /// The state after link `index` emitted a probe at `now`.
    pub open spec fn pinged(self, index: usize, now: u64) -> Bond {
        if index < self.links.len() {
            Bond {
                links: self.links.update(
                    index as int,
                    Link { last_ping_sent: Some(now), ..self.links[index as int] },
                ),
                ..self
            }
        } else {
            self
        }
    }

    /// The pong that a datagram arrived on link `link_index` is owed: where
    /// the datagram is a ping and the link has a remote, a pong to that remote
    /// with the ping's token.
    pub open spec fn owed_pong(self, link_index: usize, data: Seq<u8>) -> Option<
        (SocketAddress, u64),
    > {
        match parsed(data) {
            Some((kind, token)) => if kind == BOND_PING && link_index < self.links.len()
                && self.links[link_index as int].remote is Some {
                Some((self.links[link_index as int].remote.unwrap(), token))
            } else {
                None
            },
            None => None,
        }
    }

    /// The state after a datagram arrived on link `link_index` at `now` was
    /// offered as a control frame: a pong whose token is not in the future
    /// gives the link its round trip, the time since the token; nothing else
    /// changes anything.
    pub open spec fn after_control(self, link_index: usize, data: Seq<u8>, now: u64) -> Bond {
        match parsed(data) {
            Some((kind, token)) => if kind == BOND_PONG && link_index < self.links.len() && now
                >= token {
                Bond {
                    links: self.links.update(
                        link_index as int,
                        Link {
                            last_rtt_ms: Some((now - token) as u64),
                            ..self.links[link_index as int]
                        },
                    ),
                    ..self
                }
            } else {
                self
            },
            None => self,
        }
    }

    /// The step of a scan in index order over the flagged links, from
    /// `d.next`: the transmission on the first flagged link, or the end.
    pub open spec fn scan_step(self, flags: Seq<bool>, d: Dispatch) -> Advance {
        let j = next_true(flags, d.next as int);
        if j < self.links.len() && self.links[j].remote is Some {
            Advance {
                bond: self,
                dispatch: Dispatch { next: (j + 1) as usize, pending: Some(j as usize), ..d },
                step: SendStep::Transmit { link: j as usize, remote: self.links[j].remote.unwrap() },
            }
        } else {
            Advance { bond: self, dispatch: d.finished(), step: d.verdict() }
        }
    }

    /// The step of a `Broadcast`: on to the next link that has a remote.
    pub open spec fn broadcast(self, d: Dispatch) -> Advance {
        self.scan_step(self.remote_flags(), d)
    }

    /// The step of a `Mirror` or a `Fallback`: on to the next available link.
    /// The availability of every link from `d.next` up to that link was asked.
    pub open spec fn sweep(self, d: Dispatch) -> Advance {
        let flags = self.available_flags(d.now);
        let j = next_true(flags, d.next as int);
        self.asked(d.next as int, j, d.now).scan_step(flags, d)
    }

    /// The step of a `RoundRobin`: the link whose turn it is, as long as fewer
    /// links have refused than there are links. Else, and where no link can
    /// take a turn, the last resort.
    pub open spec fn rotate(self, d: Dispatch) -> Advance {
        if d.attempts >= self.links.len() {
            self.sweep(d.fallen_back())
        } else {
            match self.turn(d.now) {
                Some(t) => Advance {
                    bond: self.after_turn(d.now),
                    dispatch: Dispatch { pending: Some(t.link as usize), ..d },
                    step: SendStep::Transmit {
                        link: t.link as usize,
                        remote: self.links[t.link].remote.unwrap(),
                    },
                },
                None => self.after_turn(d.now).sweep(d.fallen_back()),
            }
        }
    }

    /// The step of a `Failover`: the preferred link where there is one, else
    /// the last resort. The availability of every link was asked.
    pub open spec fn prefer(self, d: Dispatch, best: Option<int>) -> Advance {
        let all = self.asked(0, self.links.len() as int, d.now);
        match best {
            Some(i) => Advance {
                bond: all,
                dispatch: Dispatch { pending: Some(i as usize), ..d },
                step: SendStep::Transmit { link: i as usize, remote: self.links[i].remote.unwrap() },
            },
            None => all.sweep(d.fallen_back()),
        }
    }

    /// The step that follows in a dispatch.
    pub open spec fn advance(self, d: Dispatch) -> Advance {
        match d.route {
            Route::Broadcast => self.broadcast(d),
            Route::Mirror => self.sweep(d),
            Route::Fallback => self.sweep(d),
            Route::RoundRobin => self.rotate(d),
            Route::Failover => self.prefer(d, self.best(d.now)),
            Route::Finished => Advance { bond: self, dispatch: d.finished(), step: d.verdict() },
        }
    }

    /// The state after `count` datagrams in a row went out in `Aggregate` mode
    /// at `now`, each accepted by the socket of the link whose turn it was.
    pub open spec fn after_sends(self, now: u64, count: nat) -> Bond
        decreases count,
    {
        if count == 0 {
            self
        } else {
            match self.turn(now) {
                Some(t) => self.after_turn(now).answered(t.link as usize, true, now).after_sends(
                    now,
                    (count - 1) as nat,
                ),
                None => self,
            }
        }
    }

    /// The progress of a dispatch after the pending socket answered. An
    /// acceptance ends every dispatch but a `Broadcast` or a `Mirror`, which
    /// go on to the links that are left. A refusal counts as an attempt in
    /// `RoundRobin` and sends `Failover` to its last resort.
    pub open spec fn progress(d: Dispatch, accepted: bool) -> Dispatch {
        match d.route {
            Route::Broadcast | Route::Mirror => Dispatch {
                delivered: d.delivered || accepted,
                pending: None,
                ..d
            },
            Route::RoundRobin => if accepted {
                (Dispatch { delivered: true, ..d }).finished()
            } else {
                Dispatch {
                    attempts: if d.attempts < usize::MAX {
                        (d.attempts + 1) as usize
                    } else {
                        d.attempts
                    },
                    pending: None,
                    ..d
                }
            },
            Route::Failover => if accepted {
                (Dispatch { delivered: true, ..d }).finished()
            } else {
                d.fallen_back()
            },
            Route::Fallback => if accepted {
                (Dispatch { delivered: true, ..d }).finished()
            } else {
                Dispatch { pending: None, ..d }
            },
            Route::Finished => d,
        }
    }

    /// The state and the step after the pending socket of a dispatch
    /// answered. Without a pending socket there is nothing to note.
    pub open spec fn settle(self, d: Dispatch, accepted: bool) -> Advance {
        match d.pending {
            Some(index) => self.answered(index, accepted, d.now).advance(
                Bond::progress(d, accepted),
            ),
            None => self.advance(d),
        }
    }
}

/// The links that a dispatch transmits on, in order, from a step on, as the
/// sockets answer with `outcomes`, the answer to the first transmission first.
/// A transmission whose answer is not among the outcomes is the last.
pub open spec fn trace(from: Advance, outcomes: Seq<bool>) -> Seq<int>
    decreases outcomes.len(),
{
    match from.step {
        SendStep::Transmit { link, remote } => if outcomes.len() == 0 {
            seq![link as int]
        } else {
            seq![link as int] + trace(
                from.bond.settle(from.dispatch, outcomes[0]),
                outcomes.drop_first(),
            )
        },
        _ => Seq::empty(),
    }
}

/// The step at which a dispatch stands once the sockets have answered with
/// `outcomes`: its verdict if the outcomes carry it to its end, else the
/// transmission whose answer is awaited.
pub open spec fn last_step(from: Advance, outcomes: Seq<bool>) -> SendStep
    decreases outcomes.len(),
{
    match from.step {
        SendStep::Transmit { link, remote } => if outcomes.len() == 0 {
            from.step
        } else {
            last_step(from.bond.settle(from.dispatch, outcomes[0]), outcomes.drop_first())
        },
        _ => from.step,
    }
}

impl Bond {
    /// `Failover` prefers a link exactly where some link is available; the
    /// link it prefers is available and has a remote.
    pub proof fn lemma_best(self, now: u64)
        ensures
            match self.best(now) {
                Some(i) => self.is_best(i, now) && self.links[i].remote is Some,
                None => forall|i: int| !self.is_best(i, now),
            },
    {
    }

    /// Only one link can be the one that `Failover` prefers.
    pub proof fn lemma_best_is(self, i: int, now: u64)
        requires
            self.is_best(i, now),
        ensures
            self.best(now) == Some(i),
    {
        let c = choose|c: int| self.is_best(c, now);
        assert(self.is_best(c, now));
        assert(self.available_flags(now)[i]);
        assert(self.available_flags(now)[c]);
    }

    /// Asking the availability of links at `now` changes nothing that is
    /// asked at `now`: which links are available, which have a remote, what
    /// they weigh.
    pub proof fn lemma_asked_keeps_flags(self, from: int, to: int, now: u64)
        ensures
            self.asked(from, to, now).available_flags(now) == self.available_flags(now),
            self.asked(from, to, now).eligible_flags(now) == self.eligible_flags(now),
            self.asked(from, to, now).remote_flags() == self.remote_flags(),
            self.asked(from, to, now).weights() == self.weights(),
            self.wf() ==> self.asked(from, to, now).wf(),
    {
        let after = self.asked(from, to, now);
        assert forall|i: int| 0 <= i < self.links.len() implies after.links[i].available(
            now,
            self.error_backoff,
            self.health_timeout,
        ) == self.links[i].available(now, self.error_backoff, self.health_timeout)
            && after.links[i].remote == self.links[i].remote && after.links[i].weight
            == self.links[i].weight by {
            self.links[i].lemma_checked_stable(now, self.error_backoff, self.health_timeout);
        }
        assert(after.available_flags(now) =~= self.available_flags(now));
        assert(after.eligible_flags(now) =~= self.eligible_flags(now));
        assert(after.remote_flags() =~= self.remote_flags());
        assert(after.weights() =~= self.weights());
    }

    /// A turn of the weighted round-robin changes nothing that decides the
    /// turns to come at the same time: which links can be served, and what
    /// they weigh. The cursor stays at a link and the credit within that
    /// link's weight.
    pub proof fn lemma_turn_keeps_flags(self, now: u64)
        requires
            self.wf(),
        ensures
            self.after_turn(now).eligible_flags(now) == self.eligible_flags(now),
            self.after_turn(now).available_flags(now) == self.available_flags(now),
            self.after_turn(now).remote_flags() == self.remote_flags(),
            self.after_turn(now).weights() == self.weights(),
            self.after_turn(now).wf(),
    {
        let after = self.after_turn(now);
        assert forall|i: int| 0 <= i < self.links.len() implies after.links[i].available(
            now,
            self.error_backoff,
            self.health_timeout,
        ) == self.links[i].available(now, self.error_backoff, self.health_timeout)
            && after.links[i].remote == self.links[i].remote && after.links[i].weight
            == self.links[i].weight by {
            self.links[i].lemma_checked_stable(now, self.error_backoff, self.health_timeout);
        }
        assert(after.available_flags(now) =~= self.available_flags(now));
        assert(after.eligible_flags(now) =~= self.eligible_flags(now));
        assert(after.remote_flags() =~= self.remote_flags());
        assert(after.weights() =~= self.weights());
        if self.links.len() > 0 {
            lemma_first_from(self.eligible_flags(now), self.cursor as int);
            match self.turn(now) {
                Some(t) => {
                    let i = first_from(self.eligible_flags(now), self.cursor as int).unwrap();
                    assert(self.weights()[i] == self.links[i].weight);
                    assert(t.link == i);
                    assert(0 <= t.cursor < self.links.len());
                    assert(0 <= t.credit <= self.links[t.cursor].weight);
                },
                None => {},
            }
        }
    }

    /// A datagram accepted on a link that was served changes nothing that
    /// decides the turns to come at the same time.
    pub proof fn lemma_accepted_keeps_flags(self, index: usize, now: u64)
        requires
            index < self.links.len(),
            self.available_flags(now)[index as int],
        ensures
            self.answered(index, true, now).eligible_flags(now) == self.eligible_flags(now),
            self.answered(index, true, now).available_flags(now) == self.available_flags(now),
            self.answered(index, true, now).weights() == self.weights(),
            self.wf() ==> self.answered(index, true, now).wf(),
    {
        let after = self.answered(index, true, now);
        assert(after.available_flags(now) =~= self.available_flags(now));
        assert(after.eligible_flags(now) =~= self.eligible_flags(now));
        assert(after.weights() =~= self.weights());
    }

    /// An answer of a socket leaves every remote and every weight as it was,
    /// and what is asked of the other links too.
    pub proof fn lemma_answered_keeps_rest(self, index: usize, accepted: bool, now: u64)
        ensures
            self.answered(index, accepted, now).remote_flags() == self.remote_flags(),
            self.answered(index, accepted, now).weights() == self.weights(),
            self.answered(index, accepted, now).links.len() == self.links.len(),
            forall|j: int|
                0 <= j < self.links.len() && j != index ==> #[trigger] self.answered(
                    index,
                    accepted,
                    now,
                ).available_flags(now)[j] == self.available_flags(now)[j],
            self.wf() ==> self.answered(index, accepted, now).wf(),
    {
        let after = self.answered(index, accepted, now);
        assert(after.remote_flags() =~= self.remote_flags());
        assert(after.weights() =~= self.weights());
    }

    /// The target of a sweep is an available link with its remote.
    pub proof fn lemma_sweep_target(self, d: Dispatch)
        requires
            self.links.len() <= usize::MAX,
        ensures
            self.sweep(d).step matches SendStep::Transmit { link, remote } ==> {
                &&& d.next <= link < self.links.len()
                &&& self.available_flags(d.now)[link as int]
                &&& self.links[link as int].remote == Some(remote)
                &&& self.sweep(d).bond.links[link as int].remote == Some(remote)
            },
            self.sweep(d).step is Transmit || self.sweep(d).step == d.verdict(),
            self.sweep(d).bond.links.len() == self.links.len(),
            self.wf() ==> self.sweep(d).bond.wf(),
    {
        let flags = self.available_flags(d.now);
        let j = next_true(flags, d.next as int);
        if 0 <= d.next <= self.links.len() {
            lemma_next_true(flags, d.next as int);
        }
        self.lemma_asked_keeps_flags(d.next as int, j, d.now);
        if j < self.links.len() {
            self.links[j].lemma_checked_stable(d.now, self.error_backoff, self.health_timeout);
        }
    }

    /// A link without a remote is never a target: whatever the route and
    /// whatever came before, a step that transmits names a link that has the
    /// remote it names.
    pub proof fn lemma_target_has_remote(self, d: Dispatch)
        requires
            self.wf(),
        ensures
            self.advance(d).step matches SendStep::Transmit { link, remote } ==> {
                &&& link < self.links.len()
                &&& self.links[link as int].remote == Some(remote)
                &&& self.advance(d).bond.links[link as int].remote == Some(remote)
            },
            self.advance(d).bond.wf(),
            self.advance(d).bond.links.len() == self.links.len(),
    {
        let now = d.now;
        let n = self.links.len() as int;
        match d.route {
            Route::Broadcast => {
                if 0 <= d.next <= n {
                    lemma_next_true(self.remote_flags(), d.next as int);
                }
            },
            Route::Mirror | Route::Fallback => {
                self.lemma_sweep_target(d);
            },
            Route::RoundRobin => {
                self.lemma_turn_keeps_flags(now);
                if d.attempts >= self.links.len() {
                    self.lemma_sweep_target(d.fallen_back());
                } else {
                    match self.turn(now) {
                        Some(t) => {
                            lemma_first_from(self.eligible_flags(now), self.cursor as int);
                            self.links[t.link].lemma_checked_stable(
                                now,
                                self.error_backoff,
                                self.health_timeout,
                            );
                        },
                        None => {
                            self.after_turn(now).lemma_sweep_target(d.fallen_back());
                        },
                    }
                }
            },
            Route::Failover => {
                self.lemma_best(now);
                self.lemma_asked_keeps_flags(0, n, now);
                match self.best(now) {
                    Some(i) => {
                        self.links[i].lemma_checked_stable(
                            now,
                            self.error_backoff,
                            self.health_timeout,
                        );
                    },
                    None => {
                        self.asked(0, n, now).lemma_sweep_target(d.fallen_back());
                    },
                }
            },
            Route::Finished => {},
        }
    }

    /// A step that transmits awaits the answer of the socket it names, in a
    /// dispatch that is not finished; a step never changes whether the
    /// datagram has been delivered.
    pub proof fn lemma_step_shape(self, d: Dispatch)
        requires
            self.links.len() <= usize::MAX,
        ensures
            self.advance(d).dispatch.delivered == d.delivered,
            self.advance(d).dispatch.now == d.now,
            self.advance(d).step matches SendStep::Transmit { link, remote } ==> {
                &&& self.advance(d).dispatch.pending == Some(link)
                &&& self.advance(d).dispatch.route != Route::Finished
            },
            !(self.advance(d).step is Transmit) ==> self.advance(d).step == d.verdict(),
            self.advance(d).bond.links.len() == self.links.len(),
    {
        let now = d.now;
        let n = self.links.len() as int;
        match d.route {
            Route::Broadcast => {},
            Route::Mirror | Route::Fallback => {
                self.lemma_sweep_target(d);
            },
            Route::RoundRobin => {
                if d.attempts >= self.links.len() {
                    self.lemma_sweep_target(d.fallen_back());
                } else {
                    match self.turn(now) {
                        Some(t) => {},
                        None => {
                            self.after_turn(now).lemma_sweep_target(d.fallen_back());
                        },
                    }
                }
            },
            Route::Failover => {
                self.lemma_best(now);
                match self.best(now) {
                    Some(i) => {},
                    None => {
                        self.asked(0, n, now).lemma_sweep_target(d.fallen_back());
                    },
                }
            },
            Route::Finished => {},
        }
    }

    /// The share of every link in `Aggregate` mode. Over as many successive
    /// turns as the weights of the links that can be served add up to, begun
    /// at any point of the rotation, with links that stay as they are, every
    /// such link is served exactly as often as its weight says, and no other
    /// link is served at all.
    pub proof fn lemma_aggregate_share(self, now: u64, link: int)
        requires
            self.wf(),
            0 <= link < self.links.len(),
        ensures
            self.turn(now) == take_turn(
                self.eligible_flags(now),
                self.weights(),
                self.cursor as int,
                self.credit as int,
            ),
            round_len(self.eligible_flags(now), self.weights()) >= 0,
            served(
                self.eligible_flags(now),
                self.weights(),
                self.cursor as int,
                self.credit as int,
                round_len(self.eligible_flags(now), self.weights()) as nat,
                link,
            ) == if self.links[link].weight > 0 && self.links[link].available(
                now,
                self.error_backoff,
                self.health_timeout,
            ) {
                self.links[link].weight as nat
            } else {
                0
            },
    {
        lemma_fair_share(
            self.eligible_flags(now),
            self.weights(),
            self.cursor as int,
            self.credit as int,
            link,
        );
    }

    /// In `Aggregate` mode a datagram whose first socket accepts it takes
    /// exactly one turn of the weighted round-robin: it goes out once, on the
    /// link whose turn it is, and leaves the scheduler where that turn ends.
    pub proof fn lemma_aggregate_send(self, packet: Seq<u8>, now: u64, outcomes: Seq<bool>)
        requires
            self.wf(),
            route_for(class_of(packet), self.mode) == Route::RoundRobin,
            self.turn(now) is Some,
            outcomes.len() > 0,
            outcomes[0],
        ensures
            trace(self.advance(Dispatch::start(Route::RoundRobin, now)), outcomes) == seq![
                self.turn(now).unwrap().link,
            ],
            last_step(self.advance(Dispatch::start(Route::RoundRobin, now)), outcomes)
                == SendStep::Delivered,
            self.advance(Dispatch::start(Route::RoundRobin, now)).bond.settle(
                self.advance(Dispatch::start(Route::RoundRobin, now)).dispatch,
                true,
            ).bond == self.after_turn(now).answered(
                self.turn(now).unwrap().link as usize,
                true,
                now,
            ),
    {
        let d = Dispatch::start(Route::RoundRobin, now);
        lemma_first_from(self.eligible_flags(now), self.cursor as int);
        let a = self.advance(d);
        let t = self.turn(now).unwrap();
        assert(self.links.len() > 0);
        assert(a.step is Transmit);
        let after = a.bond.settle(a.dispatch, true);
        assert(after.step == SendStep::Delivered);
        assert(last_step(after, outcomes.drop_first()) == after.step);
        assert(trace(after, outcomes.drop_first()) =~= Seq::<int>::empty());
        assert(trace(a, outcomes) =~= seq![t.link]);
    }

    /// Datagrams that go out one after the other in `Aggregate` mode, each
    /// accepted, leave the links as able to be served and as heavy as they
    /// were, and move the scheduler as so many turns of the weighted
    /// round-robin do. The shares of `lemma_aggregate_share` are therefore the
    /// shares of the links in the datagrams sent.
    pub proof fn lemma_aggregate_window(self, now: u64, count: nat)
        requires
            self.wf(),
        ensures
            self.after_sends(now, count).wf(),
            self.after_sends(now, count).eligible_flags(now) == self.eligible_flags(now),
            self.after_sends(now, count).weights() == self.weights(),
            (self.after_sends(now, count).cursor as int, self.after_sends(now, count).credit as int)
                == after_turns(
                self.eligible_flags(now),
                self.weights(),
                self.cursor as int,
                self.credit as int,
                count,
            ),
        decreases count,
    {
        if count > 0 {
            match self.turn(now) {
                Some(t) => {
                    let turned = self.after_turn(now);
                    self.lemma_turn_keeps_flags(now);
                    lemma_first_from(self.eligible_flags(now), self.cursor as int);
                    assert(self.eligible_flags(now)[t.link]);
                    assert(turned.available_flags(now)[t.link]);
                    turned.lemma_accepted_keeps_flags(t.link as usize, now);
                    let sent = turned.answered(t.link as usize, true, now);
                    assert(self.weights()[t.link] == self.links[t.link].weight);
                    assert(sent.cursor == t.cursor && sent.credit == t.credit);
                    sent.lemma_aggregate_window(now, (count - 1) as nat);
                },
                None => {},
            }
        }
    }

    /// In `Failover` mode a datagram that the preferred link's socket accepts
    /// goes out once, on that link.
    pub proof fn lemma_failover_send(self, now: u64, outcomes: Seq<bool>)
        requires
            self.links.len() <= usize::MAX,
            self.best(now) is Some,
            outcomes.len() > 0,
            outcomes[0],
        ensures
            trace(self.advance(Dispatch::start(Route::Failover, now)), outcomes) == seq![
                self.best(now).unwrap(),
            ],
            last_step(self.advance(Dispatch::start(Route::Failover, now)), outcomes)
                == SendStep::Delivered,
    {
        let d = Dispatch::start(Route::Failover, now);
        self.lemma_best(now);
        let a = self.advance(d);
        let i = self.best(now).unwrap();
        assert(a.step is Transmit);
        let after = a.bond.settle(a.dispatch, true);
        assert(after.step == SendStep::Delivered);
        assert(last_step(after, outcomes.drop_first()) == after.step);
        assert(trace(after, outcomes.drop_first()) =~= Seq::<int>::empty());
        assert(trace(a, outcomes) =~= seq![i]);
    }

    /// A handshake or a keepalive goes out on every link that has a remote,
    /// whatever the bonding mode and whatever the sockets answer: the links
    /// transmitted on are those with a remote, each once, in index order.
    pub proof fn lemma_broadcast_trace(self, d: Dispatch, outcomes: Seq<bool>)
        requires
            self.links.len() <= usize::MAX,
            d.route == Route::Broadcast,
            d.next <= self.links.len(),
            outcomes.len() >= self.links.len() - d.next,
        ensures
            trace(self.advance(d), outcomes) == targets(self.remote_flags(), d.next as int),
        decreases self.links.len() - d.next,
    {
        let flags = self.remote_flags();
        let j = next_true(flags, d.next as int);
        lemma_next_true(flags, d.next as int);
        lemma_targets_head(flags, d.next as int);
        let a = self.advance(d);
        if j < self.links.len() {
            assert(outcomes.len() > 0);
            let after = self.answered(j as usize, outcomes[0], d.now);
            self.lemma_answered_keeps_rest(j as usize, outcomes[0], d.now);
            let d2 = Bond::progress(a.dispatch, outcomes[0]);
            after.lemma_broadcast_trace(d2, outcomes.drop_first());
        }
    }

    /// Every available link is offered a handshake or a keepalive, whatever
    /// the bonding mode and whatever the sockets answer; so is every other
    /// link that has a remote.
    pub proof fn lemma_handshake_reaches_all(
        self,
        packet: Seq<u8>,
        now: u64,
        outcomes: Seq<bool>,
        link: int,
    )
        requires
            self.links.len() <= usize::MAX,
            class_of(packet) == PacketClass::Handshake || class_of(packet) == PacketClass::Keepalive,
            outcomes.len() >= self.links.len(),
            0 <= link < self.links.len(),
        ensures
            self.links[link].available(now, self.error_backoff, self.health_timeout) ==> trace(
                self.advance(Dispatch::start(route_for(class_of(packet), self.mode), now)),
                outcomes,
            ).contains(link),
            self.links[link].remote is Some ==> trace(
                self.advance(Dispatch::start(route_for(class_of(packet), self.mode), now)),
                outcomes,
            ).contains(link),
    {
        let d = Dispatch::start(route_for(class_of(packet), self.mode), now);
        self.lemma_broadcast_trace(d, outcomes);
        lemma_targets(self.remote_flags(), 0);
        if self.links[link].remote is Some {
            assert(self.remote_flags()[link]);
            assert(targets(self.remote_flags(), 0).contains(link));
        }
    }

    /// With no link available, a datagram that goes by the bonding mode is
    /// dropped at once, without a transmission; so is a handshake or a
    /// keepalive where no link has a remote.
    pub proof fn lemma_nothing_to_send_on(self, packet: Seq<u8>, now: u64)
        requires
            self.wf(),
            forall|i: int| 0 <= i < self.links.len() ==> !#[trigger] self.available_flags(now)[i],
            route_for(class_of(packet), self.mode) == Route::Broadcast ==> forall|i: int|
                0 <= i < self.links.len() ==> !#[trigger] self.remote_flags()[i],
        ensures
            self.advance(Dispatch::start(route_for(class_of(packet), self.mode), now)).step
                == SendStep::Dropped,
    {
        let d = Dispatch::start(route_for(class_of(packet), self.mode), now);
        let n = self.links.len() as int;
        lemma_next_true(self.remote_flags(), 0);
        lemma_next_true(self.available_flags(now), 0);
        match d.route {
            Route::RoundRobin => {
                self.lemma_turn_keeps_flags(now);
                lemma_next_true(self.after_turn(now).available_flags(now), 0);
                if n > 0 {
                    lemma_first_from(self.eligible_flags(now), self.cursor as int);
                    assert(self.turn(now) is None) by {
                        if self.turn(now) is Some {
                            let i = first_from(self.eligible_flags(now), self.cursor as int).unwrap();
                            assert(self.available_flags(now)[i]);
                        }
                    }
                }
            },
            Route::Failover => {
                self.lemma_best(now);
                self.lemma_asked_keeps_flags(0, n, now);
                lemma_next_true(self.asked(0, n, now).available_flags(now), 0);
                assert(self.best(now) is None) by {
                    if self.best(now) is Some {
                        assert(self.available_flags(now)[self.best(now).unwrap()]);
                    }
                }
            },
            _ => {},
        }
    }
}

} // verus!
