//! The order in which links take their turns, as mathematics over plain
//! sequences: a flag per link saying whether it may be chosen, and a weight
//! per link saying how many turns in a row it gets.

use vstd::prelude::*;

verus! {

/// The least index from `from` on that is flagged, or the length where none is.
pub open spec fn next_true(flags: Seq<bool>, from: int) -> int
    decreases flags.len() - from,
{
    if from < 0 || from >= flags.len() {
        flags.len() as int
    } else if flags[from] {
        from
    } else {
        next_true(flags, from + 1)
    }
}

/// `next_true` is the least flagged index from `from` on.
pub proof fn lemma_next_true(flags: Seq<bool>, from: int)
    requires
        0 <= from <= flags.len(),
    ensures
        from <= next_true(flags, from) <= flags.len(),
        forall|j: int| from <= j < next_true(flags, from) ==> !#[trigger] flags[j],
        next_true(flags, from) < flags.len() ==> flags[next_true(flags, from)],
    decreases flags.len() - from,
{
    if from < flags.len() && !flags[from] {
        lemma_next_true(flags, from + 1);
    }
}

/// An index that is flagged, with none flagged before it from `from` on, is
/// what `next_true` gives.
pub proof fn lemma_next_true_is(flags: Seq<bool>, from: int, at: int)
    requires
        0 <= from <= at <= flags.len(),
        forall|j: int| from <= j < at ==> !#[trigger] flags[j],
        at < flags.len() ==> flags[at],
    ensures
        next_true(flags, from) == at,
    decreases at - from,
{
    if from < at {
        lemma_next_true_is(flags, from + 1, at);
    }
}

/// The flagged indices from `from` on, in rising order.
pub open spec fn targets(flags: Seq<bool>, from: int) -> Seq<int>
    decreases flags.len() - from,
{
    if from < 0 || from >= flags.len() {
        Seq::empty()
    } else if flags[from] {
        seq![from] + targets(flags, from + 1)
    } else {
        targets(flags, from + 1)
    }
}

/// `targets` holds exactly the flagged indices from `from` on, each of them
/// once, and rising.
pub proof fn lemma_targets(flags: Seq<bool>, from: int)
    requires
        0 <= from <= flags.len(),
    ensures
        forall|k: int|
            0 <= k < targets(flags, from).len() ==> from <= #[trigger] targets(flags, from)[k]
                < flags.len() && flags[targets(flags, from)[k]],
        forall|k: int, l: int|
            0 <= k < l < targets(flags, from).len() ==> targets(flags, from)[k] < targets(
                flags,
                from,
            )[l],
        forall|i: int| from <= i < flags.len() && flags[i] ==> targets(flags, from).contains(i),
        targets(flags, from).len() <= flags.len() - from,
    decreases flags.len() - from,
{
    if from < flags.len() {
        lemma_targets(flags, from + 1);
        let rest = targets(flags, from + 1);
        let all = targets(flags, from);
        if flags[from] {
            assert(all[0] == from);
            assert forall|k: int| 1 <= k < all.len() implies all[k] == rest[k - 1] by {}
            assert forall|i: int| from <= i < flags.len() && flags[i] implies all.contains(i) by {
                if i == from {
                    assert(all[0] == i);
                } else {
                    assert(rest.contains(i));
                    let k = choose|k: int| 0 <= k < rest.len() && rest[k] == i;
                    assert(all[k + 1] == i);
                }
            }
            assert forall|k: int, l: int| 0 <= k < l < all.len() implies all[k] < all[l] by {
                if k == 0 {
                    assert(all[l] == rest[l - 1]);
                } else {
                    assert(all[k] == rest[k - 1]);
                    assert(all[l] == rest[l - 1]);
                }
            }
        }
    }
}

/// The flagged indices from `from` on begin with the first flagged one.
pub proof fn lemma_targets_head(flags: Seq<bool>, from: int)
    requires
        0 <= from <= flags.len(),
    ensures
        targets(flags, from) == if next_true(flags, from) < flags.len() {
            seq![next_true(flags, from)] + targets(flags, next_true(flags, from) + 1)
        } else {
            Seq::<int>::empty()
        },
    decreases flags.len() - from,
{
    if from < flags.len() && !flags[from] {
        lemma_targets_head(flags, from + 1);
    }
}

/// Flags that agree from `from` on have the same flagged indices from there on.
pub proof fn lemma_targets_agree(a: Seq<bool>, b: Seq<bool>, from: int)
    requires
        a.len() == b.len(),
        0 <= from <= a.len(),
        forall|j: int| from <= j < a.len() ==> a[j] == b[j],
    ensures
        targets(a, from) == targets(b, from),
        next_true(a, from) == next_true(b, from),
    decreases a.len() - from,
{
    if from < a.len() {
        lemma_targets_agree(a, b, from + 1);
    }
}

/// The index after `i` on a ring of `len` places.
pub open spec fn succ(i: int, len: int) -> int {
    if i + 1 >= len {
        0
    } else {
        i + 1
    }
}

/// The first flagged index met when walking the ring from `cursor`, the
/// cursor's own place first.
pub open spec fn first_from(flags: Seq<bool>, cursor: int) -> Option<int> {
    let ahead = next_true(flags, cursor);
    if ahead < flags.len() {
        Some(ahead)
    } else {
        let behind = next_true(flags, 0);
        if behind < flags.len() {
            Some(behind)
        } else {
            None
        }
    }
}

/// Whether place `j` is passed when walking the ring from `cursor` up to, and
/// not including, `stop`.
pub open spec fn in_arc(cursor: int, stop: int, j: int) -> bool {
    if cursor <= stop {
        cursor <= j < stop
    } else {
        j >= cursor || j < stop
    }
}

/// What `first_from` gives is flagged and nothing passed on the way to it
/// is; it gives nothing only where nothing is flagged.
pub proof fn lemma_first_from(flags: Seq<bool>, cursor: int)
    requires
        0 <= cursor < flags.len(),
    ensures
        match first_from(flags, cursor) {
            Some(i) => {
                &&& 0 <= i < flags.len()
                &&& flags[i]
                &&& forall|j: int|
                    0 <= j < flags.len() && in_arc(cursor, i, j) ==> !#[trigger] flags[j]
            },
            None => forall|j: int| 0 <= j < flags.len() ==> !#[trigger] flags[j],
        },
{
    lemma_next_true(flags, cursor);
    lemma_next_true(flags, 0);
}

/// The flagged index with nothing flagged on the way to it is the one that
/// `first_from` gives.
pub proof fn lemma_first_from_is(flags: Seq<bool>, cursor: int, at: int)
    requires
        0 <= cursor < flags.len(),
        0 <= at < flags.len(),
        flags[at],
        forall|j: int| 0 <= j < flags.len() && in_arc(cursor, at, j) ==> !#[trigger] flags[j],
    ensures
        first_from(flags, cursor) == Some(at),
{
    lemma_next_true(flags, cursor);
    lemma_next_true(flags, 0);
    if cursor <= at {
        lemma_next_true_is(flags, cursor, at);
    } else {
        lemma_next_true_is(flags, cursor, flags.len() as int);
        lemma_next_true_is(flags, 0, at);
    }
}

/// One turn of the weighted round-robin: the link served, and the cursor and
/// the credit left behind.
pub struct Turn {
    pub link: int,
    pub cursor: int,
    pub credit: int,
}

/// The turn taken from a cursor and a credit. The link served is the first
/// flagged one from the cursor. It is served on the credit left to it if it
/// is the cursor's own link and credit is left, else on a fresh credit of its
/// weight. The turn costs one credit; when none is left the cursor moves on.
pub open spec fn take_turn(flags: Seq<bool>, weights: Seq<u32>, cursor: int, credit: int) -> Option<
    Turn,
> {
    match first_from(flags, cursor) {
        None => None,
        Some(i) => {
            let quota = if i == cursor && credit > 0 {
                credit
            } else {
                weights[i] as int
            };
            if quota - 1 == 0 {
                Some(Turn { link: i, cursor: succ(i, flags.len() as int), credit: 0 })
            } else {
                Some(Turn { link: i, cursor: i, credit: quota - 1 })
            }
        },
    }
}

/// Whether the scheduler can run from a cursor and a credit: the cursor
/// points at a link, the credit is within that link's weight, and every
/// flagged link weighs more than nothing.
pub open spec fn schedulable(flags: Seq<bool>, weights: Seq<u32>, cursor: int, credit: int) -> bool {
    &&& flags.len() == weights.len()
    &&& 0 <= cursor < flags.len()
    &&& 0 <= credit <= weights[cursor]
    &&& forall|i: int| 0 <= i < flags.len() && flags[i] ==> #[trigger] weights[i] > 0
}

/// The turns that the flagged links before place `k` get in one round: the
/// sum of their weights.
pub open spec fn prefix(flags: Seq<bool>, weights: Seq<u32>, k: int) -> int
    decreases k,
{
    if k <= 0 {
        0
    } else {
        prefix(flags, weights, k - 1) + if flags[k - 1] {
            weights[k - 1] as int
        } else {
            0
        }
    }
}

/// The turns of one full round: the sum of the weights of the flagged links.
pub open spec fn round_len(flags: Seq<bool>, weights: Seq<u32>) -> int {
    prefix(flags, weights, flags.len() as int)
}

/// How many of the next `turns` turns serve `link`, with flags and weights
/// that stay as they are.
pub open spec fn served(
    flags: Seq<bool>,
    weights: Seq<u32>,
    cursor: int,
    credit: int,
    turns: nat,
    link: int,
) -> nat
    decreases turns,
{
    if turns == 0 {
        0
    } else {
        match take_turn(flags, weights, cursor, credit) {
            None => 0,
            Some(t) => (if t.link == link {
                1nat
            } else {
                0nat
            }) + served(flags, weights, t.cursor, t.credit, (turns - 1) as nat, link),
        }
    }
}

/// The cursor and the credit after `turns` turns.
pub open spec fn after_turns(
    flags: Seq<bool>,
    weights: Seq<u32>,
    cursor: int,
    credit: int,
    turns: nat,
) -> (int, int)
    decreases turns,
{
    if turns == 0 {
        (cursor, credit)
    } else {
        match take_turn(flags, weights, cursor, credit) {
            None => (cursor, credit),
            Some(t) => after_turns(flags, weights, t.cursor, t.credit, (turns - 1) as nat),
        }
    }
}

/// How far into the round the scheduler stands: the turns of the round that
/// come before the turn it takes next.
spec fn position(flags: Seq<bool>, weights: Seq<u32>, cursor: int, credit: int) -> int {
    match first_from(flags, cursor) {
        None => 0,
        Some(i) => {
            let quota = if i == cursor && credit > 0 {
                credit
            } else {
                weights[i] as int
            };
            prefix(flags, weights, i) + weights[i] - quota
        },
    }
}

/// The number of turns from `a` up to `b` of a round that fall to the link
/// whose turns are those from `lo` up to `hi`.
spec fn overlap(a: int, b: int, lo: int, hi: int) -> int {
    let start = if a > lo {
        a
    } else {
        lo
    };
    let end = if b < hi {
        b
    } else {
        hi
    };
    if end > start {
        end - start
    } else {
        0
    }
}

proof fn lemma_prefix_monotone(flags: Seq<bool>, weights: Seq<u32>, a: int, b: int)
    requires
        0 <= a <= b <= flags.len(),
        flags.len() == weights.len(),
    ensures
        0 <= prefix(flags, weights, a) <= prefix(flags, weights, b),
    decreases b,
{
    if a < b {
        lemma_prefix_monotone(flags, weights, a, b - 1);
    } else if a > 0 {
        lemma_prefix_monotone(flags, weights, a - 1, a - 1);
    }
}

proof fn lemma_prefix_flat(flags: Seq<bool>, weights: Seq<u32>, a: int, b: int)
    requires
        0 <= a <= b <= flags.len(),
        flags.len() == weights.len(),
        forall|j: int| a <= j < b ==> !#[trigger] flags[j],
    ensures
        prefix(flags, weights, a) == prefix(flags, weights, b),
    decreases b,
{
    if a < b {
        lemma_prefix_flat(flags, weights, a, b - 1);
    }
}

/// The turns of a flagged link lie within the round.
proof fn lemma_prefix_slot(flags: Seq<bool>, weights: Seq<u32>, i: int)
    requires
        0 <= i < flags.len(),
        flags.len() == weights.len(),
    ensures
        0 <= prefix(flags, weights, i),
        prefix(flags, weights, i + 1) == prefix(flags, weights, i) + if flags[i] {
            weights[i] as int
        } else {
            0
        },
        prefix(flags, weights, i + 1) <= round_len(flags, weights),
{
    lemma_prefix_monotone(flags, weights, i, i);
    lemma_prefix_monotone(flags, weights, i + 1, flags.len() as int);
}

/// A turn serves the link at whose turns the scheduler stands, and leaves the
/// scheduler one turn further in the round, or at its start after the last.
proof fn lemma_turn_moves_on(flags: Seq<bool>, weights: Seq<u32>, cursor: int, credit: int)
    requires
        schedulable(flags, weights, cursor, credit),
        exists|i: int| 0 <= i < flags.len() && flags[i],
    ensures
        take_turn(flags, weights, cursor, credit) is Some,
        ({
            let t = take_turn(flags, weights, cursor, credit).unwrap();
            let p = position(flags, weights, cursor, credit);
            &&& 0 <= t.link < flags.len()
            &&& flags[t.link]
            &&& prefix(flags, weights, t.link) <= p < prefix(flags, weights, t.link) + weights[t.link]
            &&& p < round_len(flags, weights)
            &&& schedulable(flags, weights, t.cursor, t.credit)
            &&& position(flags, weights, t.cursor, t.credit) == if p + 1 < round_len(
                flags,
                weights,
            ) {
                p + 1
            } else {
                0
            }
        }),
{
    let n = flags.len() as int;
    lemma_first_from(flags, cursor);
    let i = first_from(flags, cursor).unwrap();
    let t = take_turn(flags, weights, cursor, credit).unwrap();
    let p = position(flags, weights, cursor, credit);
    let quota = if i == cursor && credit > 0 {
        credit
    } else {
        weights[i] as int
    };
    lemma_prefix_slot(flags, weights, i);
    assert(weights[i] > 0);
    assert(1 <= quota <= weights[i]);
    if quota - 1 > 0 {
        assert(t.cursor == i && t.credit == quota - 1);
        lemma_first_from_is(flags, i, i);
    } else {
        let c = succ(i, n);
        assert(t.cursor == c && t.credit == 0);
        lemma_first_from(flags, c);
        let next = first_from(flags, c).unwrap();
        lemma_next_true(flags, c);
        lemma_next_true(flags, 0);
        lemma_prefix_slot(flags, weights, next);
        if i + 1 < n {
            let ahead = next_true(flags, i + 1);
            if ahead < n {
                lemma_prefix_flat(flags, weights, i + 1, ahead);
            } else {
                lemma_prefix_flat(flags, weights, i + 1, n);
                lemma_prefix_flat(flags, weights, 0, next);
            }
        } else {
            lemma_prefix_flat(flags, weights, 0, next);
        }
    }
}

/// Over a stretch of a round that does not run past its end, a link is served
/// as often as its turns fall into the stretch.
proof fn lemma_stretch(
    flags: Seq<bool>,
    weights: Seq<u32>,
    cursor: int,
    credit: int,
    turns: nat,
    link: int,
)
    requires
        schedulable(flags, weights, cursor, credit),
        exists|i: int| 0 <= i < flags.len() && flags[i],
        0 <= link < flags.len(),
        position(flags, weights, cursor, credit) + turns <= round_len(flags, weights),
    ensures
        served(flags, weights, cursor, credit, turns, link) == overlap(
            position(flags, weights, cursor, credit),
            position(flags, weights, cursor, credit) + turns,
            prefix(flags, weights, link),
            prefix(flags, weights, link + 1),
        ),
        ({
            let end = after_turns(flags, weights, cursor, credit, turns);
            let p = position(flags, weights, cursor, credit);
            &&& schedulable(flags, weights, end.0, end.1)
            &&& position(flags, weights, end.0, end.1) == if p + turns < round_len(flags, weights) {
                p + turns
            } else {
                0
            }
        }),
    decreases turns,
{
    lemma_turn_moves_on(flags, weights, cursor, credit);
    if turns > 0 {
        let t = take_turn(flags, weights, cursor, credit).unwrap();
        let p = position(flags, weights, cursor, credit);
        lemma_prefix_slot(flags, weights, link);
        lemma_prefix_slot(flags, weights, t.link);
        if t.link < link {
            lemma_prefix_monotone(flags, weights, t.link + 1, link);
        } else if link < t.link {
            lemma_prefix_monotone(flags, weights, link + 1, t.link);
        }
        if p + 1 < round_len(flags, weights) {
            lemma_stretch(flags, weights, t.cursor, t.credit, (turns - 1) as nat, link);
        } else {
            assert(turns == 1);
        }
    }
}

/// The turns served over two stretches add up.
proof fn lemma_served_adds(
    flags: Seq<bool>,
    weights: Seq<u32>,
    cursor: int,
    credit: int,
    first: nat,
    second: nat,
    link: int,
)
    ensures
        served(flags, weights, cursor, credit, first + second, link) == served(
            flags,
            weights,
            cursor,
            credit,
            first,
            link,
        ) + served(
            flags,
            weights,
            after_turns(flags, weights, cursor, credit, first).0,
            after_turns(flags, weights, cursor, credit, first).1,
            second,
            link,
        ),
    decreases first,
{
    if first > 0 {
        match take_turn(flags, weights, cursor, credit) {
            None => {},
            Some(t) => {
                lemma_served_adds(
                    flags,
                    weights,
                    t.cursor,
                    t.credit,
                    (first - 1) as nat,
                    second,
                    link,
                );
                assert((first - 1) as nat + second == (first + second - 1) as nat);
            },
        }
    }
}

/// The share of every link. Over one full round of turns, begun at any point
/// of the rotation, with links that stay as they are, every link that can be
/// served is served exactly as often as its weight says, and no other link is
/// served at all.
pub proof fn lemma_fair_share(
    flags: Seq<bool>,
    weights: Seq<u32>,
    cursor: int,
    credit: int,
    link: int,
)
    requires
        schedulable(flags, weights, cursor, credit),
        0 <= link < flags.len(),
    ensures
        round_len(flags, weights) >= 0,
        served(flags, weights, cursor, credit, round_len(flags, weights) as nat, link) == if flags[link] {
            weights[link] as nat
        } else {
            0
        },
{
    let n = flags.len() as int;
    let total = round_len(flags, weights);
    lemma_prefix_monotone(flags, weights, 0, n);
    lemma_prefix_slot(flags, weights, link);
    if exists|i: int| 0 <= i < flags.len() && flags[i] {
        lemma_turn_moves_on(flags, weights, cursor, credit);
        let p = position(flags, weights, cursor, credit);
        let first = (total - p) as nat;
        let second = p as nat;
        lemma_first_from(flags, cursor);
        lemma_prefix_slot(flags, weights, first_from(flags, cursor).unwrap());
        assert(0 <= p < total);
        lemma_stretch(flags, weights, cursor, credit, first, link);
        let mid = after_turns(flags, weights, cursor, credit, first);
        lemma_turn_moves_on(flags, weights, mid.0, mid.1);
        lemma_stretch(flags, weights, mid.0, mid.1, second, link);
        lemma_served_adds(flags, weights, cursor, credit, first, second, link);
        assert(first + second == total as nat);
        lemma_prefix_monotone(flags, weights, 0, link);
    } else {
        assert(!flags[link]);
        lemma_prefix_flat(flags, weights, 0, n);
    }
}

} // verus!
