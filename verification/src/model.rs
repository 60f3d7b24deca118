//! The board as mathematical values, and what each operation does to it.
//!
//! Each operation of `TickBoard` is stated as a spec function from the
//! board's view (and the operation's arguments) to the board's next view
//! and the operation's result; the executable methods are proved against
//! these functions, and the laws of the board are proved over them.

use vstd::prelude::*;
use crate::ids::TickPriority;
use crate::tick::{TickView, AckView, FilterView, tick_expired, visible_pred};

verus! {

/// What a subscription holds, as mathematical values.
pub struct SubscriptionView {
    pub agent: Seq<char>,
    pub topics: Seq<Seq<char>>,
    pub last_poll_timestamp: u64,
}

/// What the board holds, as mathematical values.
pub struct BoardView {
    pub ticks: Seq<TickView>,
    pub acks: Seq<AckView>,
    pub subscriptions: Seq<SubscriptionView>,
    pub next_tick_id: u64,
    pub next_sub_id: u64,
}

/// The board that `TickBoard::new` makes: empty, with both counters at 1.
pub open spec fn empty_board() -> BoardView {
    BoardView {
        ticks: Seq::empty(),
        acks: Seq::empty(),
        subscriptions: Seq::empty(),
        next_tick_id: 1,
        next_sub_id: 1,
    }
}

/// The counter after `x`, wrapping around at `u64::MAX` as an atomic
/// `fetch_add(1)` does.
pub open spec fn successor(x: u64) -> u64 {
    if x == u64::MAX {
        0
    } else {
        (x + 1) as u64
    }
}

/// A list of strings without repetition.
pub open spec fn no_duplicates(s: Seq<Seq<char>>) -> bool {
    forall|i: int, j: int| 0 <= i < j < s.len() ==> s[i] != s[j]
}

impl BoardView {
    /// The board's invariant: tick ids increase along the board and stay
    /// below the next id to hand out, no agent is recorded twice as having
    /// acknowledged a tick, and subscription `k` (counting from 1) is the
    /// `k`-th subscription made.
    pub open spec fn wf(self) -> bool {
        &&& forall|i: int, j: int| 0 <= i < j < self.ticks.len() ==> self.ticks[i].id < self.ticks[j].id
        &&& forall|i: int| 0 <= i < self.ticks.len() ==> self.ticks[i].id < self.next_tick_id
        &&& forall|i: int| 0 <= i < self.ticks.len() ==> no_duplicates(#[trigger] self.ticks[i].acked_by)
        &&& self.next_sub_id == self.subscriptions.len() + 1
    }
}

// ---------------------------------------------------------------- post

/// The tick that a post makes.
pub open spec fn new_tick(
    id: u64,
    from_agent: Seq<char>,
    to_agent: Option<Seq<char>>,
    topic: Seq<char>,
    body: Seq<char>,
    priority: TickPriority,
    ttl_ms: u64,
    now: u64,
) -> TickView {
    TickView {
        id,
        from_agent,
        to_agent,
        topic,
        body,
        priority,
        timestamp: now,
        ttl_ms,
        acked_by: Seq::empty(),
    }
}

/// The board after a post at time `now`: the new tick, with the next id,
/// is appended, and the id counter advances.
pub open spec fn post_board(
    b: BoardView,
    from_agent: Seq<char>,
    to_agent: Option<Seq<char>>,
    topic: Seq<char>,
    body: Seq<char>,
    priority: TickPriority,
    ttl_ms: u64,
    now: u64,
) -> BoardView {
    BoardView {
        ticks: b.ticks.push(
            new_tick(b.next_tick_id, from_agent, to_agent, topic, body, priority, ttl_ms, now),
        ),
        next_tick_id: successor(b.next_tick_id),
        ..b
    }
}

// ---------------------------------------------------------------- read

/// What a read with filter `f` at time `now` returns: the ticks that pass
/// the filter, in the order in which they stand on the board.
pub open spec fn read_result(b: BoardView, f: FilterView, now: u64) -> Seq<TickView> {
    b.ticks.filter(visible_pred(f, now))
}

// ---------------------------------------------------------------- ack

/// `i` is the first position of a tick with id `id`.
pub open spec fn is_first_with_id(ticks: Seq<TickView>, id: u64, i: int) -> bool {
    &&& 0 <= i < ticks.len()
    &&& ticks[i].id == id
    &&& forall|j: int| 0 <= j < i ==> ticks[j].id != id
}

/// Some tick on the board has id `id`.
pub open spec fn has_tick(ticks: Seq<TickView>, id: u64) -> bool {
    exists|i: int| 0 <= i < ticks.len() && #[trigger] ticks[i].id == id
}

/// The tick `t` after `agent` acknowledged it: `agent` is added to those
/// who did, unless it is there already.
pub open spec fn acked_tick(t: TickView, agent: Seq<char>) -> TickView {
    if t.acked_by.contains(agent) {
        t
    } else {
        TickView { acked_by: t.acked_by.push(agent), ..t }
    }
}

/// The acknowledgment record that an ack makes.
pub open spec fn ack_record(id: u64, agent: Seq<char>, action_taken: Seq<char>, now: u64) -> AckView {
    AckView { tick_id: id, agent, timestamp: now, action_taken }
}

/// The ticks after `agent` acknowledged tick `id`: the first tick with that
/// id is marked; without such a tick nothing changes.
pub open spec fn ack_ticks(ticks: Seq<TickView>, id: u64, agent: Seq<char>) -> Seq<TickView> {
    if exists|i: int| is_first_with_id(ticks, id, i) {
        let i = choose|i: int| is_first_with_id(ticks, id, i);
        ticks.update(i, acked_tick(ticks[i], agent))
    } else {
        ticks
    }
}

/// The board after an ack at time `now`: the tick is marked and the
/// acknowledgment is recorded, whether or not the tick exists.
pub open spec fn ack_board(
    b: BoardView,
    id: u64,
    agent: Seq<char>,
    action_taken: Seq<char>,
    now: u64,
) -> BoardView {
    BoardView {
        ticks: ack_ticks(b.ticks, id, agent),
        acks: b.acks.push(ack_record(id, agent, action_taken, now)),
        ..b
    }
}

// ---------------------------------------------------------------- subscribe

/// The board after a subscription at time `now`: the subscription is
/// appended, with `now` as its last poll, and the id counter advances.
pub open spec fn subscribe_board(
    b: BoardView,
    agent: Seq<char>,
    topics: Seq<Seq<char>>,
    now: u64,
) -> BoardView {
    BoardView {
        subscriptions: b.subscriptions.push(
            SubscriptionView { agent, topics, last_poll_timestamp: now },
        ),
        next_sub_id: successor(b.next_sub_id),
        ..b
    }
}

// ---------------------------------------------------------------- poll

/// `id` names a subscription: subscription `id` is the one at position `id - 1`.
pub open spec fn names_subscription(b: BoardView, id: u64) -> bool {
    1 <= id <= b.subscriptions.len()
}

/// The tick `t` is due to subscription `s` when polled at `now`: it has not
/// expired, it was posted at or after the last poll, it is broadcast or
/// addressed to the subscriber, and its topic is one of the subscription's.
pub open spec fn tick_due(t: TickView, s: SubscriptionView, now: u64) -> bool {
    &&& !tick_expired(t, now)
    &&& t.timestamp >= s.last_poll_timestamp
    &&& (t.to_agent is None || t.to_agent == Some(s.agent))
    &&& s.topics.contains(t.topic)
}

/// The predicate of a poll of `s` at `now`.
pub open spec fn due_pred(s: SubscriptionView, now: u64) -> spec_fn(TickView) -> bool {
    |t: TickView| tick_due(t, s, now)
}

/// What a poll of subscription `id` at `now` returns: the ticks due to it,
/// in board order; nothing when `id` names no subscription.
pub open spec fn poll_result(b: BoardView, id: u64, now: u64) -> Seq<TickView> {
    if names_subscription(b, id) {
        b.ticks.filter(due_pred(b.subscriptions[id - 1], now))
    } else {
        Seq::empty()
    }
}

/// The board after a poll of subscription `id` at `now`: the subscription's
/// last poll becomes `now`; nothing changes when `id` names no subscription.
pub open spec fn poll_board(b: BoardView, id: u64, now: u64) -> BoardView {
    if names_subscription(b, id) {
        let s = b.subscriptions[id - 1];
        BoardView {
            subscriptions: b.subscriptions.update(
                id - 1,
                SubscriptionView { last_poll_timestamp: now, ..s },
            ),
            ..b
        }
    } else {
        b
    }
}

// ---------------------------------------------------------------- cleanup

/// The oldest timestamp that a cleanup at `now` with `max_age_ms` keeps:
/// `now - max_age_ms`, or 0 when that would be negative.
pub open spec fn cleanup_cutoff(now: u64, max_age_ms: u64) -> u64 {
    if now >= max_age_ms {
        (now - max_age_ms) as u64
    } else {
        0
    }
}

/// The predicate of the ticks that a cleanup with `cutoff` keeps.
pub open spec fn kept_pred(cutoff: u64) -> spec_fn(TickView) -> bool {
    |t: TickView| t.timestamp >= cutoff
}

/// The board after a cleanup at `now`: only the ticks posted at or after
/// the cutoff stay, in their order.
pub open spec fn cleanup_board(b: BoardView, max_age_ms: u64, now: u64) -> BoardView {
    BoardView { ticks: b.ticks.filter(kept_pred(cleanup_cutoff(now, max_age_ms))), ..b }
}

/// What a cleanup returns: how many ticks it removed.
pub open spec fn cleanup_removed(b: BoardView, max_age_ms: u64, now: u64) -> int {
    b.ticks.len() - cleanup_board(b, max_age_ms, now).ticks.len()
}

} // verus!
