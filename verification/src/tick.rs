//! Ticks, the filters used to read them, and acknowledgments.

use vstd::prelude::*;
use crate::ids::{TickId, TickPriority, priority_at_least};
use crate::text::{strings_view, copy_strings};
use crate::clock::now_ms;

verus! {

/// The view of an optional string.
pub open spec fn opt_string_view(o: Option<String>) -> Option<Seq<char>> {
    match o {
        Some(s) => Some(s@),
        None => None,
    }
}

/// What a tick holds, as mathematical values.
pub struct TickView {
    pub id: u64,
    pub from_agent: Seq<char>,
    pub to_agent: Option<Seq<char>>,
    pub topic: Seq<char>,
    pub body: Seq<char>,
    pub priority: TickPriority,
    pub timestamp: u64,
    pub ttl_ms: u64,
    pub acked_by: Seq<Seq<char>>,
}

/// A message left by one agent for another (or broadcast, when `to_agent` is `None`).
#[derive(Debug, Clone)]
pub struct Tick {
    pub id: TickId,
    pub from_agent: String,
    pub to_agent: Option<String>,
    pub topic: String,
    pub body: String,
    pub priority: TickPriority,
    pub timestamp: u64,
    pub ttl_ms: u64,
    pub acked_by: Vec<String>,
}

impl View for Tick {
    type V = TickView;

    open spec fn view(&self) -> TickView {
        TickView {
            id: self.id.0,
            from_agent: self.from_agent@,
            to_agent: opt_string_view(self.to_agent),
            topic: self.topic@,
            body: self.body@,
            priority: self.priority,
            timestamp: self.timestamp,
            ttl_ms: self.ttl_ms,
            acked_by: strings_view(self.acked_by@),
        }
    }
}

/// The views of a list of ticks.
pub open spec fn ticks_view(v: Seq<Tick>) -> Seq<TickView> {
    v.map_values(|t: Tick| t@)
}

/// A tick is expired at `now` when it has a time to live (a `ttl_ms` of 0
/// means none) and more than `ttl_ms` milliseconds have passed since it
/// was posted.
pub open spec fn tick_expired(t: TickView, now: u64) -> bool {
    t.ttl_ms != 0 && now > t.timestamp + t.ttl_ms
}

/// A copy of an optional string.
fn copy_opt_string(o: &Option<String>) -> (r: Option<String>)
    ensures
        opt_string_view(r) == opt_string_view(*o),
{
    match o {
        Some(s) => Some(s.clone()),
        None => None,
    }
}

impl Tick {
    /// Returns true if this tick has expired at time `now` (milliseconds
    /// since the epoch).
    pub fn is_expired_at(&self, now: u64) -> (r: bool)
        ensures
            r == tick_expired(self@, now),
    {
        if self.ttl_ms == 0 {
            return false;
        }
        now > self.timestamp && now - self.timestamp > self.ttl_ms
    }

    /// Returns true if this tick has expired based on the current time.
    pub fn is_expired(&self) -> (r: bool)
        ensures
            exists|now: u64| #[trigger] tick_expired(self@, now) == r,
            r ==> self.ttl_ms != 0,
    {
        let now = now_ms();
        let r = self.is_expired_at(now);
        assert(tick_expired(self@, now) == r);
        r
    }

    /// A copy of this tick.
    pub fn copy(&self) -> (r: Tick)
        ensures
            r@ == self@,
    {
        Tick {
            id: self.id,
            from_agent: self.from_agent.clone(),
            to_agent: copy_opt_string(&self.to_agent),
            topic: self.topic.clone(),
            body: self.body.clone(),
            priority: self.priority,
            timestamp: self.timestamp,
            ttl_ms: self.ttl_ms,
            acked_by: copy_strings(&self.acked_by),
        }
    }
}

/// What a filter asks for, as mathematical values.
pub struct FilterView {
    pub target: Option<Seq<char>>,
    pub topic: Option<Seq<char>>,
    pub min_priority: Option<TickPriority>,
    pub since: Option<u64>,
}

/// Filter for querying ticks. Each field left at `None` lets every tick through.
#[derive(Debug, Clone)]
pub struct TickFilter {
    pub target: Option<String>,
    pub topic: Option<String>,
    pub min_priority: Option<TickPriority>,
    pub since: Option<u64>,
}

impl View for TickFilter {
    type V = FilterView;

    open spec fn view(&self) -> FilterView {
        FilterView {
            target: opt_string_view(self.target),
            topic: opt_string_view(self.topic),
            min_priority: self.min_priority,
            since: self.since,
        }
    }
}

impl Default for TickFilter {
    fn default() -> (r: TickFilter)
        ensures
            r.target is None,
            r.topic is None,
            r.min_priority is None,
            r.since is None,
    {
        TickFilter { target: None, topic: None, min_priority: None, since: None }
    }
}

/// A tick reaches `target` when it is addressed to `target` or broadcast.
pub open spec fn reaches(t: TickView, target: Seq<char>) -> bool {
    t.to_agent == Some(target) || t.to_agent is None
}

/// The tick `t` is returned by a read with filter `f` at time `now`: it has
/// not expired, it reaches the filter's target, it has the filter's topic,
/// its priority is at least the filter's minimum, and it was posted at or
/// after the filter's `since`.
pub open spec fn tick_visible(t: TickView, f: FilterView, now: u64) -> bool {
    &&& !tick_expired(t, now)
    &&& match f.target {
        Some(target) => reaches(t, target),
        None => true,
    }
    &&& match f.topic {
        Some(topic) => t.topic == topic,
        None => true,
    }
    &&& match f.min_priority {
        Some(min) => priority_at_least(t.priority, min),
        None => true,
    }
    &&& match f.since {
        Some(since) => t.timestamp >= since,
        None => true,
    }
}

/// The predicate of a read with filter `f` at time `now`.
pub open spec fn visible_pred(f: FilterView, now: u64) -> spec_fn(TickView) -> bool {
    |t: TickView| tick_visible(t, f, now)
}

/// Whether the optional agent `to` names `target`.
fn addressed_to(to: &Option<String>, target: &String) -> (r: bool)
    ensures
        r == (opt_string_view(*to) == Some(target@)),
{
    match to {
        Some(a) => *a == *target,
        None => false,
    }
}

impl TickFilter {
    /// Whether `t` passes this filter at time `now`.
    pub fn admits_at(&self, t: &Tick, now: u64) -> (r: bool)
        ensures
            r == tick_visible(t@, self@, now),
    {
        if t.is_expired_at(now) {
            return false;
        }
        let target_ok = match &self.target {
            Some(target) => addressed_to(&t.to_agent, target) || t.to_agent.is_none(),
            None => true,
        };
        let topic_ok = match &self.topic {
            Some(topic) => t.topic == *topic,
            None => true,
        };
        let priority_ok = match &self.min_priority {
            Some(min) => t.priority.at_least(min),
            None => true,
        };
        let since_ok = match self.since {
            Some(since) => t.timestamp >= since,
            None => true,
        };
        target_ok && topic_ok && priority_ok && since_ok
    }
}

/// What an acknowledgment holds, as mathematical values.
pub struct AckView {
    pub tick_id: u64,
    pub agent: Seq<char>,
    pub timestamp: u64,
    pub action_taken: Seq<char>,
}

/// Acknowledgment when an agent reads/acts on a tick.
#[derive(Debug, Clone)]
pub struct TickAck {
    pub tick_id: TickId,
    pub agent: String,
    pub timestamp: u64,
    pub action_taken: String,
}

impl View for TickAck {
    type V = AckView;

    open spec fn view(&self) -> AckView {
        AckView {
            tick_id: self.tick_id.0,
            agent: self.agent@,
            timestamp: self.timestamp,
            action_taken: self.action_taken@,
        }
    }
}

impl TickAck {
    /// A copy of this acknowledgment.
    pub fn copy(&self) -> (r: TickAck)
        ensures
            r@ == self@,
    {
        TickAck {
            tick_id: self.tick_id,
            agent: self.agent.clone(),
            timestamp: self.timestamp,
            action_taken: self.action_taken.clone(),
        }
    }
}

} // verus!
