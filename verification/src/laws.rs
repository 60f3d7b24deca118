//! Laws of the board, proved over the spec functions that the operations
//! of `TickBoard` are proved against.

use vstd::prelude::*;
use crate::ids::TickPriority;
use crate::tick::{TickView, FilterView, tick_expired, tick_visible, visible_pred, reaches};
use crate::model::{
    BoardView, SubscriptionView, no_duplicates, successor, new_tick, post_board, read_result,
    is_first_with_id, has_tick, acked_tick, ack_ticks, ack_board, subscribe_board,
    names_subscription, tick_due, due_pred, poll_result, poll_board, cleanup_cutoff, kept_pred,
    cleanup_board, cleanup_removed,
};

verus! {

broadcast use vstd::seq_lib::group_filter_ensures;

// ------------------------------------------------------------ invariant

/// Posting keeps the board's invariant, as long as the id counter has not
/// reached `u64::MAX` (after which ids wrap around to 0).
pub proof fn lemma_post_keeps_wf(
    b: BoardView,
    from_agent: Seq<char>,
    to_agent: Option<Seq<char>>,
    topic: Seq<char>,
    body: Seq<char>,
    priority: TickPriority,
    ttl_ms: u64,
    now: u64,
)
    requires
        b.wf(),
        b.next_tick_id < u64::MAX,
    ensures
        post_board(b, from_agent, to_agent, topic, body, priority, ttl_ms, now).wf(),
{
    let b2 = post_board(b, from_agent, to_agent, topic, body, priority, ttl_ms, now);
    assert forall|i: int| 0 <= i < b2.ticks.len() implies no_duplicates(#[trigger] b2.ticks[i].acked_by) by {
        if i < b.ticks.len() {
            assert(b2.ticks[i] == b.ticks[i]);
        }
    }
}

/// Acknowledging keeps the board's invariant: in particular an agent is
/// never recorded twice on the same tick.
pub proof fn lemma_ack_keeps_wf(b: BoardView, id: u64, agent: Seq<char>, action_taken: Seq<char>, now: u64)
    requires
        b.wf(),
    ensures
        ack_board(b, id, agent, action_taken, now).wf(),
{
    let b2 = ack_board(b, id, agent, action_taken, now);
    if exists|i: int| is_first_with_id(b.ticks, id, i) {
        let k = choose|i: int| is_first_with_id(b.ticks, id, i);
        assert(b2.ticks == b.ticks.update(k, acked_tick(b.ticks[k], agent)));
        assert forall|i: int| 0 <= i < b2.ticks.len() implies no_duplicates(#[trigger] b2.ticks[i].acked_by) by {
            if i == k {
                let t = b.ticks[k];
                assert(no_duplicates(t.acked_by));
                if !t.acked_by.contains(agent) {
                    let s = t.acked_by.push(agent);
                    assert forall|x: int, y: int| 0 <= x < y < s.len() implies s[x] != s[y] by {
                        if y == s.len() - 1 {
                            assert(s[x] == t.acked_by[x]);
                        }
                    }
                }
            }
        }
    }
}

/// Subscribing keeps the board's invariant, as long as the subscription
/// counter has not reached `u64::MAX`.
pub proof fn lemma_subscribe_keeps_wf(b: BoardView, agent: Seq<char>, topics: Seq<Seq<char>>, now: u64)
    requires
        b.wf(),
        b.next_sub_id < u64::MAX,
    ensures
        subscribe_board(b, agent, topics, now).wf(),
{
}

/// Polling keeps the board's invariant.
pub proof fn lemma_poll_keeps_wf(b: BoardView, id: u64, now: u64)
    requires
        b.wf(),
    ensures
        poll_board(b, id, now).wf(),
{
}

/// Cleaning up keeps the board's invariant.
pub proof fn lemma_cleanup_keeps_wf(b: BoardView, max_age_ms: u64, now: u64)
    requires
        b.wf(),
    ensures
        cleanup_board(b, max_age_ms, now).wf(),
{
    let p = kept_pred(cleanup_cutoff(now, max_age_ms));
    let kept = b.ticks.filter(p);
    lemma_filter_keeps_order(b.ticks, p);
    assert forall|i: int| 0 <= i < kept.len() implies no_duplicates(#[trigger] kept[i].acked_by) by {
        assert(b.ticks.contains(kept[i]));
        let k = choose|k: int| 0 <= k < b.ticks.len() && b.ticks[k] == kept[i];
        assert(no_duplicates(b.ticks[k].acked_by));
    }
}

/// A filtered sequence of ticks with increasing ids keeps its ids increasing.
proof fn lemma_filter_keeps_order(s: Seq<TickView>, p: spec_fn(TickView) -> bool)
    requires
        forall|i: int, j: int| 0 <= i < j < s.len() ==> s[i].id < s[j].id,
    ensures
        forall|i: int, j: int| 0 <= i < j < s.filter(p).len() ==> s.filter(p)[i].id < s.filter(p)[j].id,
        forall|i: int| 0 <= i < s.filter(p).len() ==> s.contains(#[trigger] s.filter(p)[i]),
    decreases s.len(),
{
    reveal(Seq::filter);
    if s.len() > 0 {
        let rest = s.drop_last();
        lemma_filter_keeps_order(rest, p);
        let f = rest.filter(p);
        if p(s.last()) {
            assert forall|i: int| 0 <= i < f.len() implies f[i].id < s.last().id by {
                assert(rest.contains(f[i]));
                let k = choose|k: int| 0 <= k < rest.len() && rest[k] == f[i];
                assert(s[k] == rest[k]);
            }
        }
        assert forall|i: int| 0 <= i < s.filter(p).len() implies s.contains(#[trigger] s.filter(p)[i]) by {
            if i < f.len() {
                assert(rest.contains(f[i]));
                let k = choose|k: int| 0 <= k < rest.len() && rest[k] == f[i];
                assert(s[k] == rest[k]);
            } else {
                assert(s[s.len() - 1] == s.last());
            }
        }
    }
}

// ------------------------------------------------------------ post and read

/// Tick ids are handed out in sequence: a post takes the board's next id,
/// and the next post gets the id after it.
pub proof fn lemma_post_ids_sequential(
    b: BoardView,
    from_agent: Seq<char>,
    to_agent: Option<Seq<char>>,
    topic: Seq<char>,
    body: Seq<char>,
    priority: TickPriority,
    ttl_ms: u64,
    now: u64,
)
    ensures
        post_board(b, from_agent, to_agent, topic, body, priority, ttl_ms, now).ticks.last().id
            == b.next_tick_id,
        post_board(b, from_agent, to_agent, topic, body, priority, ttl_ms, now).next_tick_id
            == successor(b.next_tick_id),
        b.next_tick_id < u64::MAX ==> successor(b.next_tick_id) == b.next_tick_id + 1,
{
}

/// What a read gives back of a post: the read after the post returns what
/// it returned before, followed by the new tick exactly when the new tick
/// passes the filter.
pub proof fn lemma_post_then_read(
    b: BoardView,
    from_agent: Seq<char>,
    to_agent: Option<Seq<char>>,
    topic: Seq<char>,
    body: Seq<char>,
    priority: TickPriority,
    ttl_ms: u64,
    now: u64,
    f: FilterView,
    later: u64,
)
    ensures
        ({
            let t = new_tick(b.next_tick_id, from_agent, to_agent, topic, body, priority, ttl_ms, now);
            read_result(post_board(b, from_agent, to_agent, topic, body, priority, ttl_ms, now), f, later)
                == if tick_visible(t, f, later) {
                    read_result(b, f, later).push(t)
                } else {
                    read_result(b, f, later)
                }
        }),
{
    let t = new_tick(b.next_tick_id, from_agent, to_agent, topic, body, priority, ttl_ms, now);
    b.ticks.lemma_filter_push(t, visible_pred(f, later));
}

/// A tick posted without a time to live never expires, and a tick with one
/// is live up to and including `timestamp + ttl_ms`.
pub proof fn lemma_expiry(t: TickView, now: u64)
    ensures
        t.ttl_ms == 0 ==> !tick_expired(t, now),
        now <= t.timestamp + t.ttl_ms ==> !tick_expired(t, now),
        t.ttl_ms != 0 && now > t.timestamp + t.ttl_ms ==> tick_expired(t, now),
{
}

/// A read never returns an expired tick, and a read with an empty filter
/// returns exactly the ticks that have not expired, in board order.
pub proof fn lemma_read_live_ticks(b: BoardView, f: FilterView, now: u64)
    ensures
        forall|i: int| 0 <= i < read_result(b, f, now).len() ==> !tick_expired(#[trigger] read_result(b, f, now)[i], now),
        f.target is None && f.topic is None && f.min_priority is None && f.since is None ==>
            read_result(b, f, now) == b.ticks.filter(|t: TickView| !tick_expired(t, now)),
{
    assert forall|i: int| 0 <= i < read_result(b, f, now).len() implies !tick_expired(#[trigger] read_result(b, f, now)[i], now) by {
        b.ticks.lemma_filter_pred(visible_pred(f, now), i);
    }
    if f.target is None && f.topic is None && f.min_priority is None && f.since is None {
        let p = |t: TickView| !tick_expired(t, now);
        assert(visible_pred(f, now) =~= p);
    }
}

/// Directed and broadcast ticks: a read for a target returns, among the live
/// ticks, the broadcast ones and those addressed to that target, and no
/// tick addressed to another agent.
pub proof fn lemma_target_routing(t: TickView, target: Seq<char>, now: u64)
    ensures
        ({
            let f = FilterView { target: Some(target), topic: None, min_priority: None, since: None };
            &&& tick_visible(t, f, now) <==> (!tick_expired(t, now) && reaches(t, target))
            &&& t.to_agent is None && !tick_expired(t, now) ==> tick_visible(t, f, now)
            &&& (t.to_agent matches Some(a) && a != target) ==> !tick_visible(t, f, now)
        }),
{
}

// ------------------------------------------------------------ ack

/// An acknowledgment of a tick on the board records the agent on the first
/// tick with that id, leaves every other tick as it was, and records the
/// acknowledgment itself.
pub proof fn lemma_ack_marks_tick(b: BoardView, id: u64, agent: Seq<char>, action_taken: Seq<char>, now: u64)
    requires
        has_tick(b.ticks, id),
    ensures
        ({
            let b2 = ack_board(b, id, agent, action_taken, now);
            &&& b2.ticks.len() == b.ticks.len()
            &&& b2.acks == b.acks.push(crate::model::ack_record(id, agent, action_taken, now))
            &&& exists|i: int| #[trigger] is_first_with_id(b.ticks, id, i)
                && b2.ticks[i].acked_by.contains(agent)
                && forall|j: int| 0 <= j < b.ticks.len() && j != i ==> b2.ticks[j] == b.ticks[j]
        }),
{
    let k = lemma_first_with_id_exists(b.ticks, id);
    let t = b.ticks[k];
    if !t.acked_by.contains(agent) {
        assert(t.acked_by.push(agent)[t.acked_by.len() as int] == agent);
    }
    assert(is_first_with_id(b.ticks, id, k));
}

/// A tick with a given id has a first position.
proof fn lemma_first_with_id_exists(ticks: Seq<TickView>, id: u64) -> (k: int)
    requires
        has_tick(ticks, id),
    ensures
        is_first_with_id(ticks, id, k),
    decreases ticks.len(),
{
    let rest = ticks.drop_last();
    if has_tick(rest, id) {
        let k = lemma_first_with_id_exists(rest, id);
        assert forall|j: int| 0 <= j < k implies ticks[j].id != id by {
            assert(rest[j] == ticks[j]);
        }
        assert(ticks[k] == rest[k]);
        k
    } else {
        let i = choose|i: int| 0 <= i < ticks.len() && #[trigger] ticks[i].id == id;
        if i < rest.len() {
            assert(rest[i] == ticks[i]);
            assert(has_tick(rest, id));
        }
        let k = ticks.len() - 1;
        assert forall|j: int| 0 <= j < k implies ticks[j].id != id by {
            assert(rest[j] == ticks[j]);
            if ticks[j].id == id {
                assert(has_tick(rest, id));
            }
        }
        k
    }
}

/// Acknowledging is idempotent: acknowledging a tick a second time by the
/// same agent changes no tick.
pub proof fn lemma_ack_idempotent(ticks: Seq<TickView>, id: u64, agent: Seq<char>)
    ensures
        ack_ticks(ack_ticks(ticks, id, agent), id, agent) == ack_ticks(ticks, id, agent),
{
    let once = ack_ticks(ticks, id, agent);
    if exists|i: int| is_first_with_id(ticks, id, i) {
        let k = choose|i: int| is_first_with_id(ticks, id, i);
        let t = acked_tick(ticks[k], agent);
        assert(t.acked_by.contains(agent)) by {
            if !ticks[k].acked_by.contains(agent) {
                assert(ticks[k].acked_by.push(agent)[ticks[k].acked_by.len() as int] == agent);
            }
        }
        assert(is_first_with_id(once, id, k));
        let k2 = choose|i: int| is_first_with_id(once, id, i);
        assert(k2 == k) by {
            if k2 < k {
                assert(once[k2] == ticks[k2]);
            }
            if k2 > k {
            }
        }
        assert(acked_tick(once[k], agent) == once[k]);
        assert(once.update(k, acked_tick(once[k], agent)) =~= once);
    }
}

// ------------------------------------------------------------ subscribe and poll

/// Subscription ids are handed out in sequence, and polling the id that a
/// subscription returned polls that subscription: on a board that keeps its
/// invariant, the new subscription is the one the id names, and the poll
/// returns the ticks due to it.
pub proof fn lemma_subscribe_then_poll(
    b: BoardView,
    agent: Seq<char>,
    topics: Seq<Seq<char>>,
    subscribed_at: u64,
    polled_at: u64,
)
    requires
        b.wf(),
        b.next_sub_id < u64::MAX,
    ensures
        ({
            let b2 = subscribe_board(b, agent, topics, subscribed_at);
            let s = SubscriptionView { agent, topics, last_poll_timestamp: subscribed_at };
            &&& b2.next_sub_id == b.next_sub_id + 1
            &&& names_subscription(b2, b.next_sub_id)
            &&& b2.subscriptions[b.next_sub_id - 1] == s
            &&& poll_result(b2, b.next_sub_id, polled_at) == b.ticks.filter(due_pred(s, polled_at))
        }),
{
}

/// Broadcast ticks reach all subscribers: a live broadcast tick posted
/// since a subscription's last poll, on one of its topics, is among what a
/// poll of that subscription returns.
pub proof fn lemma_broadcast_reaches_subscriber(b: BoardView, id: u64, now: u64, i: int)
    requires
        names_subscription(b, id),
        0 <= i < b.ticks.len(),
        b.ticks[i].to_agent is None,
        !tick_expired(b.ticks[i], now),
        b.ticks[i].timestamp >= b.subscriptions[id - 1].last_poll_timestamp,
        b.subscriptions[id - 1].topics.contains(b.ticks[i].topic),
    ensures
        poll_result(b, id, now).contains(b.ticks[i]),
{
    b.ticks.lemma_filter_contains(due_pred(b.subscriptions[id - 1], now), i);
}

/// A poll returns only ticks due to the subscription, and it moves the
/// subscription's last poll to the poll time, so that a later poll returns
/// only ticks posted at or after that time. Ticks are not touched.
pub proof fn lemma_poll_advances(b: BoardView, id: u64, first: u64, second: u64)
    requires
        names_subscription(b, id),
    ensures
        forall|k: int| 0 <= k < poll_result(b, id, first).len() ==>
            tick_due(#[trigger] poll_result(b, id, first)[k], b.subscriptions[id - 1], first),
        poll_board(b, id, first).ticks == b.ticks,
        poll_board(b, id, first).subscriptions[id - 1].last_poll_timestamp == first,
        forall|k: int| 0 <= k < poll_result(poll_board(b, id, first), id, second).len() ==>
            (#[trigger] poll_result(poll_board(b, id, first), id, second)[k]).timestamp >= first,
{
    let p1 = due_pred(b.subscriptions[id - 1], first);
    assert forall|k: int| 0 <= k < poll_result(b, id, first).len() implies
        tick_due(#[trigger] poll_result(b, id, first)[k], b.subscriptions[id - 1], first) by {
        b.ticks.lemma_filter_pred(p1, k);
    }
    let b2 = poll_board(b, id, first);
    let p2 = due_pred(b2.subscriptions[id - 1], second);
    assert forall|k: int| 0 <= k < poll_result(b2, id, second).len() implies
        (#[trigger] poll_result(b2, id, second)[k]).timestamp >= first by {
        b2.ticks.lemma_filter_pred(p2, k);
    }
}

/// A poll with an id that names no subscription returns nothing and
/// changes nothing.
pub proof fn lemma_poll_unknown_id(b: BoardView, id: u64, now: u64)
    requires
        !names_subscription(b, id),
    ensures
        poll_result(b, id, now).len() == 0,
        poll_board(b, id, now) == b,
{
}

// ------------------------------------------------------------ cleanup

/// A cleanup keeps exactly the ticks posted at or after the cutoff, in
/// their order, and returns how many it removed: the removed and the kept
/// ticks together are the ticks of the board before. Nothing else changes.
pub proof fn lemma_cleanup_counts(b: BoardView, max_age_ms: u64, now: u64)
    ensures
        ({
            let cutoff = cleanup_cutoff(now, max_age_ms);
            let b2 = cleanup_board(b, max_age_ms, now);
            &&& 0 <= cleanup_removed(b, max_age_ms, now)
            &&& cleanup_removed(b, max_age_ms, now) + b2.ticks.len() == b.ticks.len()
            &&& forall|k: int| 0 <= k < b2.ticks.len() ==> (#[trigger] b2.ticks[k]).timestamp >= cutoff
            &&& forall|k: int| 0 <= k < b.ticks.len() && b.ticks[k].timestamp >= cutoff ==> b2.ticks.contains(#[trigger] b.ticks[k])
            &&& b2.acks == b.acks && b2.subscriptions == b.subscriptions
            &&& b2.next_tick_id == b.next_tick_id && b2.next_sub_id == b.next_sub_id
        }),
{
    let cutoff = cleanup_cutoff(now, max_age_ms);
    let p = kept_pred(cutoff);
    let b2 = cleanup_board(b, max_age_ms, now);
    assert forall|k: int| 0 <= k < b2.ticks.len() implies (#[trigger] b2.ticks[k]).timestamp >= cutoff by {
        b.ticks.lemma_filter_pred(p, k);
    }
    assert forall|k: int| 0 <= k < b.ticks.len() && b.ticks[k].timestamp >= cutoff implies b2.ticks.contains(#[trigger] b.ticks[k]) by {
        b.ticks.lemma_filter_contains(p, k);
    }
}

/// A cleanup with a cutoff past every tick empties the board, and a cleanup
/// with a cutoff at or before every tick removes nothing.
pub proof fn lemma_cleanup_extremes(b: BoardView, max_age_ms: u64, now: u64)
    ensures
        (forall|k: int| 0 <= k < b.ticks.len() ==> (#[trigger] b.ticks[k]).timestamp < cleanup_cutoff(now, max_age_ms))
            ==> cleanup_removed(b, max_age_ms, now) == b.ticks.len(),
        (forall|k: int| 0 <= k < b.ticks.len() ==> (#[trigger] b.ticks[k]).timestamp >= cleanup_cutoff(now, max_age_ms))
            ==> cleanup_removed(b, max_age_ms, now) == 0,
{
    let p = kept_pred(cleanup_cutoff(now, max_age_ms));
    lemma_filter_all_or_none(b.ticks, p);
}

/// Filtering with a predicate that holds nowhere gives nothing; with one
/// that holds everywhere, the whole sequence.
proof fn lemma_filter_all_or_none(s: Seq<TickView>, p: spec_fn(TickView) -> bool)
    ensures
        (forall|k: int| 0 <= k < s.len() ==> !p(#[trigger] s[k])) ==> s.filter(p).len() == 0,
        (forall|k: int| 0 <= k < s.len() ==> p(#[trigger] s[k])) ==> s.filter(p) == s,
    decreases s.len(),
{
    reveal(Seq::filter);
    if s.len() > 0 {
        let rest = s.drop_last();
        lemma_filter_all_or_none(rest, p);
        if forall|k: int| 0 <= k < s.len() ==> !p(#[trigger] s[k]) {
            assert(!p(s[s.len() - 1]));
            assert forall|k: int| 0 <= k < rest.len() implies !p(#[trigger] rest[k]) by {
                assert(rest[k] == s[k]);
            }
        }
        if forall|k: int| 0 <= k < s.len() ==> p(#[trigger] s[k]) {
            assert(p(s[s.len() - 1]));
            assert forall|k: int| 0 <= k < rest.len() implies p(#[trigger] rest[k]) by {
                assert(rest[k] == s[k]);
            }
            assert(rest.push(s.last()) =~= s);
        }
    }
}

// ------------------------------------------------------------ time

/// The filter that lets every live tick through.
pub open spec fn open_filter() -> FilterView {
    FilterView { target: None, topic: None, min_priority: None, since: None }
}

/// A post stamps the tick with the time of posting, whatever its time to
/// live, so the new tick is live from that moment until its time to live
/// has run out: an unfiltered read at any time from the post up to
/// `timestamp + ttl_ms` (at any later time, when `ttl_ms` is 0) returns
/// what it returned before the post, followed by the new tick.
pub proof fn lemma_post_is_read_back_while_live(
    b: BoardView,
    from_agent: Seq<char>,
    to_agent: Option<Seq<char>>,
    topic: Seq<char>,
    body: Seq<char>,
    priority: TickPriority,
    ttl_ms: u64,
    posted_at: u64,
    read_at: u64,
)
    requires
        ttl_ms == 0 || read_at <= posted_at + ttl_ms,
    ensures
        ({
            let b2 = post_board(b, from_agent, to_agent, topic, body, priority, ttl_ms, posted_at);
            &&& b2.ticks.last().timestamp == posted_at
            &&& b2.ticks.last().ttl_ms == ttl_ms
            &&& !tick_expired(b2.ticks.last(), posted_at)
            &&& read_result(b2, open_filter(), read_at) == read_result(b, open_filter(), read_at).push(b2.ticks.last())
            &&& read_result(b2, open_filter(), read_at).last() == b2.ticks.last()
        }),
{
    let t = new_tick(b.next_tick_id, from_agent, to_agent, topic, body, priority, ttl_ms, posted_at);
    b.ticks.lemma_filter_push(t, visible_pred(open_filter(), read_at));
}

/// Two polls with no post between them: once a poll at time `first` has
/// seen the board, a later poll returns no tick posted before `first`; when
/// every tick on the board was posted before `first`, it returns nothing.
pub proof fn lemma_second_poll_sees_nothing_old(b: BoardView, id: u64, first: u64, second: u64)
    requires
        names_subscription(b, id),
    ensures
        forall|k: int| 0 <= k < poll_result(poll_board(b, id, first), id, second).len() ==>
            (#[trigger] poll_result(poll_board(b, id, first), id, second)[k]).timestamp >= first,
        (forall|k: int| 0 <= k < b.ticks.len() ==> (#[trigger] b.ticks[k]).timestamp < first) ==>
            poll_result(poll_board(b, id, first), id, second).len() == 0,
{
    let b2 = poll_board(b, id, first);
    let p = due_pred(b2.subscriptions[id - 1], second);
    assert forall|k: int| 0 <= k < poll_result(b2, id, second).len() implies
        (#[trigger] poll_result(b2, id, second)[k]).timestamp >= first by {
        b2.ticks.lemma_filter_pred(p, k);
    }
    if forall|k: int| 0 <= k < b.ticks.len() ==> (#[trigger] b.ticks[k]).timestamp < first {
        assert forall|k: int| 0 <= k < b2.ticks.len() implies !p(#[trigger] b2.ticks[k]) by {}
        lemma_filter_none(b2.ticks, p);
    }
}

/// A new subscription starts from the time it was made: its polls return
/// no tick posted before it, and when every tick on the board is older
/// than the subscription, its first poll returns nothing.
pub proof fn lemma_subscription_starts_now(
    b: BoardView,
    agent: Seq<char>,
    topics: Seq<Seq<char>>,
    subscribed_at: u64,
    polled_at: u64,
)
    requires
        b.wf(),
    ensures
        ({
            let b2 = subscribe_board(b, agent, topics, subscribed_at);
            let r = poll_result(b2, b.next_sub_id, polled_at);
            &&& b2.subscriptions.last().last_poll_timestamp == subscribed_at
            &&& forall|k: int| 0 <= k < r.len() ==> (#[trigger] r[k]).timestamp >= subscribed_at
            &&& (forall|k: int| 0 <= k < b.ticks.len() ==> (#[trigger] b.ticks[k]).timestamp < subscribed_at)
                ==> r.len() == 0
        }),
{
    let b2 = subscribe_board(b, agent, topics, subscribed_at);
    assert(names_subscription(b2, b.next_sub_id));
    assert(b2.subscriptions[b.next_sub_id - 1] == b2.subscriptions.last());
    let p = due_pred(b2.subscriptions.last(), polled_at);
    let r = poll_result(b2, b.next_sub_id, polled_at);
    assert forall|k: int| 0 <= k < r.len() implies (#[trigger] r[k]).timestamp >= subscribed_at by {
        b2.ticks.lemma_filter_pred(p, k);
    }
    if forall|k: int| 0 <= k < b.ticks.len() ==> (#[trigger] b.ticks[k]).timestamp < subscribed_at {
        assert forall|k: int| 0 <= k < b2.ticks.len() implies !p(#[trigger] b2.ticks[k]) by {}
        lemma_filter_none(b2.ticks, p);
    }
}

/// A cleanup at `now` keeps every tick posted within `max_age_ms` of `now`
/// (a tick with `now <= timestamp + max_age_ms`), and it removes nothing
/// when all ticks are that recent, for instance right after they were posted.
pub proof fn lemma_cleanup_keeps_recent(b: BoardView, max_age_ms: u64, now: u64)
    ensures
        forall|k: int| 0 <= k < b.ticks.len() && now <= b.ticks[k].timestamp + max_age_ms ==>
            cleanup_board(b, max_age_ms, now).ticks.contains(#[trigger] b.ticks[k]),
        (forall|k: int| 0 <= k < b.ticks.len() ==> now <= (#[trigger] b.ticks[k]).timestamp + max_age_ms) ==> {
            &&& cleanup_removed(b, max_age_ms, now) == 0
            &&& cleanup_board(b, max_age_ms, now) == b
        },
{
    let p = kept_pred(cleanup_cutoff(now, max_age_ms));
    assert forall|k: int| 0 <= k < b.ticks.len() && now <= b.ticks[k].timestamp + max_age_ms implies
        cleanup_board(b, max_age_ms, now).ticks.contains(#[trigger] b.ticks[k]) by {
        b.ticks.lemma_filter_contains(p, k);
    }
    lemma_filter_all_or_none(b.ticks, p);
    if forall|k: int| 0 <= k < b.ticks.len() ==> now <= (#[trigger] b.ticks[k]).timestamp + max_age_ms {
        assert(b.ticks.filter(p) == b.ticks);
        assert(cleanup_board(b, max_age_ms, now) =~= b);
    }
}

/// Filtering with a predicate that holds for no element gives nothing.
proof fn lemma_filter_none(s: Seq<TickView>, p: spec_fn(TickView) -> bool)
    requires
        forall|k: int| 0 <= k < s.len() ==> !p(#[trigger] s[k]),
    ensures
        s.filter(p).len() == 0,
{
    lemma_filter_all_or_none(s, p);
}

} // verus!
