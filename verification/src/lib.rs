//! An inter-agent message board: agents post ticks (direct or broadcast),
//! read them through filters, acknowledge them, subscribe to topics and poll
//! for what arrived since their last poll. Ticks may carry a time to live.

pub mod board;
pub mod clock;
pub mod ids;
pub mod laws;
pub mod model;
pub mod text;
pub mod tick;
