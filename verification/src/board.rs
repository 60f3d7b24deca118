//! The shared board where ticks are posted and consumed.

use vstd::prelude::*;
use crate::ids::{TickId, SubscriptionId, TickPriority};
use crate::text::{strings_view, owned, owned_opt, contains_string};
use crate::tick::{Tick, TickFilter, TickAck, ticks_view, visible_pred};
use crate::model::{is_first_with_id, acked_tick, ack_record, due_pred, kept_pred, cleanup_cutoff, BoardView, SubscriptionView, empty_board, successor, post_board, read_result, ack_board, subscribe_board, poll_board, poll_result, cleanup_board, cleanup_removed};
use crate::clock::now_ms;

verus! {

/// A subscription of an agent to some topics.
struct Subscription {
    agent: String,
    topics: Vec<String>,
    last_poll_timestamp: u64,
}

impl View for Subscription {
    type V = SubscriptionView;

    closed spec fn view(&self) -> SubscriptionView {
        SubscriptionView {
            agent: self.agent@,
            topics: strings_view(self.topics@),
            last_poll_timestamp: self.last_poll_timestamp,
        }
    }
}

/// Shared board where ticks are posted and consumed.
pub struct TickBoard {
    ticks: Vec<Tick>,
    acks: Vec<TickAck>,
    subscriptions: Vec<Subscription>,
    next_tick_id: u64,
    next_sub_id: u64,
}

impl View for TickBoard {
    type V = BoardView;

    closed spec fn view(&self) -> BoardView {
        BoardView {
            ticks: ticks_view(self.ticks@),
            acks: self.acks@.map_values(|a: TickAck| a@),
            subscriptions: self.subscriptions@.map_values(|s: Subscription| s@),
            next_tick_id: self.next_tick_id,
            next_sub_id: self.next_sub_id,
        }
    }
}

/// The counter after `x`, wrapping around at `u64::MAX`.
fn advance(x: u64) -> (r: u64)
    ensures
        r == successor(x),
{
    if x == u64::MAX {
        0
    } else {
        x + 1
    }
}

impl TickBoard {
    /// An empty board; the first tick and the first subscription get id 1.
    pub fn new() -> (r: TickBoard)
        ensures
            r@ == empty_board(),
            r@.wf(),
    {
        let r = TickBoard {
            ticks: Vec::new(),
            acks: Vec::new(),
            subscriptions: Vec::new(),
            next_tick_id: 1,
            next_sub_id: 1,
        };
        assert(r@.ticks =~= Seq::empty());
        assert(r@.acks =~= Seq::empty());
        assert(r@.subscriptions =~= Seq::empty());
        r
    }

    /// Post a new tick at time `now`. Returns the tick's ID.
    pub fn post_at(
        &mut self,
        from_agent: &str,
        to_agent: Option<&str>,
        topic: &str,
        body: &str,
        priority: TickPriority,
        ttl_ms: u64,
        now: u64,
    ) -> (r: TickId)
        ensures
            r.0 == old(self)@.next_tick_id,
            final(self)@ == post_board(
                old(self)@,
                from_agent@,
                match to_agent { Some(a) => Some(a@), None => None },
                topic@,
                body@,
                priority,
                ttl_ms,
                now,
            ),
    {
        let id = TickId(self.next_tick_id);
        self.next_tick_id = advance(self.next_tick_id);
        let tick = Tick {
            id,
            from_agent: owned(from_agent),
            to_agent: owned_opt(to_agent),
            topic: owned(topic),
            body: owned(body),
            priority,
            timestamp: now,
            ttl_ms,
            acked_by: Vec::new(),
        };
        assert(strings_view(tick.acked_by@) =~= Seq::empty());
        let ghost old_ticks = self.ticks@;
        self.ticks.push(tick);
        assert(ticks_view(self.ticks@) =~= ticks_view(old_ticks).push(tick@));
        id
    }

    /// Post a new tick to the board, stamped with the current time.
    /// Returns the tick's ID.
    pub fn post(
        &mut self,
        from_agent: &str,
        to_agent: Option<&str>,
        topic: &str,
        body: &str,
        priority: TickPriority,
        ttl_ms: u64,
    ) -> (r: TickId)
        ensures
            r.0 == old(self)@.next_tick_id,
            final(self)@ == post_board(
                old(self)@,
                from_agent@,
                match to_agent { Some(a) => Some(a@), None => None },
                topic@,
                body@,
                priority,
                ttl_ms,
                final(self)@.ticks.last().timestamp,
            ),
    {
        let now = now_ms();
        self.post_at(from_agent, to_agent, topic, body, priority, ttl_ms, now)
    }

    /// Read, at time `now`, the ticks matching the given filter, in the
    /// order in which they were posted.
    pub fn read_at(&self, filter: &TickFilter, now: u64) -> (r: Vec<Tick>)
        ensures
            ticks_view(r@) == read_result(self@, filter@, now),
    {
        let mut r: Vec<Tick> = Vec::new();
        let mut i: usize = 0;
        let ghost all = ticks_view(self.ticks@);
        while i < self.ticks.len()
            invariant
                i <= self.ticks.len(),
                all == ticks_view(self.ticks@),
                ticks_view(r@) == all.take(i as int).filter(visible_pred(filter@, now)),
            decreases self.ticks.len() - i,
        {
            let ghost prev = r@;
            proof {
                assert(all.take(i + 1) =~= all.take(i as int).push(all[i as int]));
                all.take(i as int).lemma_filter_push(all[i as int], visible_pred(filter@, now));
            }
            if filter.admits_at(&self.ticks[i], now) {
                let t = self.ticks[i].copy();
                r.push(t);
                assert(ticks_view(r@) =~= ticks_view(prev).push(t@));
            }
            i += 1;
        }
        assert(all.take(self.ticks.len() as int) =~= all);
        r
    }

    /// Read ticks matching the given filter, at the current time.
    pub fn read(&self, filter: &TickFilter) -> (r: Vec<Tick>)
        ensures
            exists|now: u64| #[trigger] read_result(self@, filter@, now) == ticks_view(r@),
    {
        let now = now_ms();
        let r = self.read_at(filter, now);
        assert(read_result(self@, filter@, now) == ticks_view(r@));
        r
    }
    /// The first position of a tick with id `id`, if any.
    fn find_tick(&self, id: TickId) -> (r: Option<usize>)
        ensures
            match r {
                Some(i) => is_first_with_id(self@.ticks, id.0, i as int),
                None => forall|j: int| 0 <= j < self@.ticks.len() ==> self@.ticks[j].id != id.0,
            },
    {
        let mut i: usize = 0;
        while i < self.ticks.len()
            invariant
                i <= self.ticks.len(),
                forall|j: int| 0 <= j < i ==> self@.ticks[j].id != id.0,
            decreases self.ticks.len() - i,
        {
            if self.ticks[i].id.0 == id.0 {
                return Some(i);
            }
            i += 1;
        }
        None
    }

    /// Acknowledge a tick at time `now`: `agent` is recorded on the first
    /// tick with id `tick_id` (once), and the acknowledgment is kept and
    /// returned, whether or not such a tick exists.
    pub fn ack_at(&mut self, tick_id: TickId, agent: &str, action_taken: &str, now: u64) -> (r: TickAck)
        ensures
            r@ == ack_record(tick_id.0, agent@, action_taken@, now),
            final(self)@ == ack_board(old(self)@, tick_id.0, agent@, action_taken@, now),
    {
        let agent_s = owned(agent);
        let found = self.find_tick(tick_id);
        let ghost old_ticks = self.ticks@;
        match found {
            Some(i) => {
                proof {
                    assert forall|k: int| is_first_with_id(self@.ticks, tick_id.0, k) implies k == i by {
                        if k < i {
                        } else if k > i {
                        }
                    }
                }
                if !contains_string(&self.ticks[i].acked_by, &agent_s) {
                    let ghost before = self.ticks[i as int];
                    self.ticks[i].acked_by.push(agent_s.clone());
                    assert(strings_view(self.ticks@[i as int].acked_by@) =~= strings_view(before.acked_by@).push(agent@));
                }
                assert(ticks_view(self.ticks@) =~= ticks_view(old_ticks).update(i as int, acked_tick(ticks_view(old_ticks)[i as int], agent@)));
            },
            None => {},
        }
        let ack = TickAck {
            tick_id,
            agent: agent_s,
            timestamp: now,
            action_taken: owned(action_taken),
        };
        let r = ack.copy();
        let ghost old_acks = self.acks@;
        self.acks.push(ack);
        assert(self@.acks =~= old_acks.map_values(|a: TickAck| a@).push(r@));
        r
    }

    /// Acknowledge a tick, stamping the acknowledgment with the current time.
    pub fn ack(&mut self, tick_id: TickId, agent: &str, action_taken: &str) -> (r: TickAck)
        ensures
            r@ == ack_record(tick_id.0, agent@, action_taken@, r.timestamp),
            final(self)@ == ack_board(old(self)@, tick_id.0, agent@, action_taken@, r.timestamp),
    {
        let now = now_ms();
        self.ack_at(tick_id, agent, action_taken, now)
    }
    /// Subscribe an agent to topics at time `now`, which counts as its
    /// last poll. Returns a subscription ID.
    pub fn subscribe_at(&mut self, agent: &str, topics: Vec<String>, now: u64) -> (r: SubscriptionId)
        ensures
            r.0 == old(self)@.next_sub_id,
            final(self)@ == subscribe_board(old(self)@, agent@, strings_view(topics@), now),
    {
        let id = SubscriptionId(self.next_sub_id);
        self.next_sub_id = advance(self.next_sub_id);
        let sub = Subscription { agent: owned(agent), topics, last_poll_timestamp: now };
        let ghost old_subs = self.subscriptions@;
        self.subscriptions.push(sub);
        assert(self@.subscriptions =~= old_subs.map_values(|s: Subscription| s@).push(sub@));
        id
    }

    /// Subscribe an agent to topics, with the current time as its last
    /// poll. Returns a subscription ID.
    pub fn subscribe(&mut self, agent: &str, topics: Vec<String>) -> (r: SubscriptionId)
        ensures
            r.0 == old(self)@.next_sub_id,
            final(self)@ == subscribe_board(
                old(self)@,
                agent@,
                strings_view(topics@),
                final(self)@.subscriptions.last().last_poll_timestamp,
            ),
    {
        let now = now_ms();
        self.subscribe_at(agent, topics, now)
    }

    /// Poll, at time `now`, for the ticks due to a subscription since its
    /// last poll; the poll time becomes its last poll. An id that names no
    /// subscription gives nothing and changes nothing.
    pub fn poll_at(&mut self, subscription_id: SubscriptionId, now: u64) -> (r: Vec<Tick>)
        ensures
            ticks_view(r@) == poll_result(old(self)@, subscription_id.0, now),
            final(self)@ == poll_board(old(self)@, subscription_id.0, now),
    {
        let n = self.subscriptions.len();
        if subscription_id.0 == 0 || subscription_id.0 > n as u64 {
            let none: Vec<Tick> = Vec::new();
            assert(ticks_view(none@) =~= Seq::empty());
            return none;
        }
        let idx = (subscription_id.0 - 1) as usize;
        let ghost sub = self@.subscriptions[idx as int];
        assert(self.subscriptions@[idx as int]@ == sub);
        let mut r: Vec<Tick> = Vec::new();
        let mut i: usize = 0;
        let ghost all = ticks_view(self.ticks@);
        while i < self.ticks.len()
            invariant
                i <= self.ticks.len(),
                idx < self.subscriptions.len(),
                self.subscriptions@[idx as int]@ == sub,
                all == ticks_view(self.ticks@),
                ticks_view(r@) == all.take(i as int).filter(due_pred(sub, now)),
            decreases self.ticks.len() - i,
        {
            let ghost prev = r@;
            proof {
                assert(all.take(i + 1) =~= all.take(i as int).push(all[i as int]));
                all.take(i as int).lemma_filter_push(all[i as int], due_pred(sub, now));
            }
            if self.due(&self.ticks[i], &self.subscriptions[idx], now) {
                let t = self.ticks[i].copy();
                r.push(t);
                assert(ticks_view(r@) =~= ticks_view(prev).push(t@));
            }
            i += 1;
        }
        assert(all.take(self.ticks.len() as int) =~= all);
        let ghost old_subs = self.subscriptions@;
        self.subscriptions[idx].last_poll_timestamp = now;
        assert(self@.subscriptions =~= old_subs.map_values(|s: Subscription| s@).update(
            idx as int,
            SubscriptionView { last_poll_timestamp: now, ..sub },
        ));
        r
    }

    /// Whether tick `t` is due to subscription `s` when polled at `now`.
    fn due(&self, t: &Tick, s: &Subscription, now: u64) -> (r: bool)
        ensures
            r == crate::model::tick_due(t@, s@, now),
    {
        if t.is_expired_at(now) || t.timestamp < s.last_poll_timestamp {
            return false;
        }
        let to_ok = match &t.to_agent {
            None => true,
            Some(a) => *a == s.agent,
        };
        to_ok && contains_string(&s.topics, &t.topic)
    }

    /// Poll for new ticks matching a subscription since its last poll, at
    /// the current time.
    pub fn poll(&mut self, subscription_id: SubscriptionId) -> (r: Vec<Tick>)
        ensures
            exists|now: u64| #[trigger] poll_board(old(self)@, subscription_id.0, now) == final(self)@
                && poll_result(old(self)@, subscription_id.0, now) == ticks_view(r@),
    {
        let now = now_ms();
        let r = self.poll_at(subscription_id, now);
        assert(poll_board(old(self)@, subscription_id.0, now) == self@);
        r
    }

    /// Remove, at time `now`, the ticks posted more than `max_age_ms`
    /// milliseconds before. Returns the number removed.
    pub fn cleanup_at(&mut self, max_age_ms: u64, now: u64) -> (r: usize)
        ensures
            final(self)@ == cleanup_board(old(self)@, max_age_ms, now),
            r == cleanup_removed(old(self)@, max_age_ms, now),
    {
        let cutoff = now.saturating_sub(max_age_ms);
        assert(cutoff == cleanup_cutoff(now, max_age_ms));
        let before = self.ticks.len();
        let ghost all = ticks_view(self.ticks@);
        let mut old_ticks: Vec<Tick> = Vec::new();
        std::mem::swap(&mut old_ticks, &mut self.ticks);
        let mut kept: Vec<Tick> = Vec::new();
        let mut i: usize = 0;
        assert(old_ticks@.len() == before);
        while i < old_ticks.len()
            invariant
                i <= old_ticks.len(),
                all == ticks_view(old_ticks@),
                ticks_view(kept@) == all.take(i as int).filter(kept_pred(cutoff)),
                kept@.len() <= i,
            decreases old_ticks.len() - i,
        {
            let ghost prev = kept@;
            proof {
                assert(all.take(i + 1) =~= all.take(i as int).push(all[i as int]));
                all.take(i as int).lemma_filter_push(all[i as int], kept_pred(cutoff));
            }
            if old_ticks[i].timestamp >= cutoff {
                let t = old_ticks[i].copy();
                kept.push(t);
                assert(ticks_view(kept@) =~= ticks_view(prev).push(t@));
            }
            i += 1;
        }
        assert(all.take(old_ticks.len() as int) =~= all);
        self.ticks = kept;
        before - self.ticks.len()
    }

    /// Remove ticks older than `max_age_ms` milliseconds. Returns the count removed.
    pub fn cleanup(&mut self, max_age_ms: u64) -> (r: usize)
        ensures
            exists|now: u64| #[trigger] cleanup_board(old(self)@, max_age_ms, now) == final(self)@
                && r == cleanup_removed(old(self)@, max_age_ms, now),
    {
        let now = now_ms();
        let r = self.cleanup_at(max_age_ms, now);
        assert(cleanup_board(old(self)@, max_age_ms, now) == self@);
        r
    }
}

} // verus!
