//! Identifiers and priority levels.

use vstd::prelude::*;

verus! {

/// Unique identifier for a tick.
#[derive(Debug, Clone, Copy, PartialEq, Eq, Hash, Structural)]
pub struct TickId(pub u64);

/// Unique identifier for a subscription.
#[derive(Debug, Clone, Copy, PartialEq, Eq, Hash, Structural)]
pub struct SubscriptionId(pub u64);

/// Priority levels for ticks, from the least to the most pressing.
#[derive(Debug, Clone, Copy, PartialEq, Eq, PartialOrd, Ord, Structural)]
pub enum TickPriority {
    Info,
    Normal,
    Urgent,
    Critical,
}

/// The position of a priority in the order Info < Normal < Urgent < Critical.
pub open spec fn priority_rank(p: TickPriority) -> nat {
    match p {
        TickPriority::Info => 0,
        TickPriority::Normal => 1,
        TickPriority::Urgent => 2,
        TickPriority::Critical => 3,
    }
}

/// `a` is at least as pressing as `b`.
pub open spec fn priority_at_least(a: TickPriority, b: TickPriority) -> bool {
    priority_rank(a) >= priority_rank(b)
}

impl TickPriority {
    /// The position of this priority in the order Info < Normal < Urgent < Critical.
    pub fn level(&self) -> (r: u8)
        ensures
            r == priority_rank(*self),
    {
        match self {
            TickPriority::Info => 0,
            TickPriority::Normal => 1,
            TickPriority::Urgent => 2,
            TickPriority::Critical => 3,
        }
    }

    /// Whether this priority is at least as pressing as `min`.
    pub fn at_least(&self, min: &TickPriority) -> (r: bool)
        ensures
            r == priority_at_least(*self, *min),
    {
        self.level() >= min.level()
    }
}

/// The four priorities are strictly ordered: Info < Normal < Urgent < Critical,
/// and two priorities have the same rank only when they are the same priority.
pub proof fn lemma_priority_order(a: TickPriority, b: TickPriority)
    ensures
        priority_rank(TickPriority::Info) < priority_rank(TickPriority::Normal),
        priority_rank(TickPriority::Normal) < priority_rank(TickPriority::Urgent),
        priority_rank(TickPriority::Urgent) < priority_rank(TickPriority::Critical),
        priority_rank(a) == priority_rank(b) <==> a == b,
        priority_at_least(a, b) || priority_at_least(b, a),
{
}

} // verus!
