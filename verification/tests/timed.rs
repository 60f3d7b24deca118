use plato_tick::board::TickBoard;
use plato_tick::clock::{epoch_millis_to_u64, now_ms};
use plato_tick::ids::{SubscriptionId, TickId, TickPriority};
use plato_tick::tick::{Tick, TickFilter};

fn tick_at(ts: u64, ttl: u64) -> Tick {
    Tick {
        id: TickId(7),
        from_agent: "a".to_string(),
        to_agent: None,
        topic: "t".to_string(),
        body: "b".to_string(),
        priority: TickPriority::Normal,
        timestamp: ts,
        ttl_ms: ttl,
        acked_by: Vec::new(),
    }
}

#[test]
fn post_at_stamps_given_time_and_counts_ids() {
    let mut board = TickBoard::new();
    let a = board.post_at("a", None, "t", "one", TickPriority::Info, 0, 100);
    let b = board.post_at("b", Some("a"), "t", "two", TickPriority::Critical, 50, 200);
    assert_eq!(a, TickId(1));
    assert_eq!(b, TickId(2));
    let all = board.read_at(&TickFilter::default(), 200);
    assert_eq!(all.len(), 2);
    assert_eq!(all[0].timestamp, 100);
    assert_eq!(all[0].body, "one");
    assert_eq!(all[1].timestamp, 200);
    assert_eq!(all[1].to_agent, Some("a".to_string()));
    assert_eq!(all[1].from_agent, "b");
    assert!(all[1].acked_by.is_empty());
}

#[test]
fn expiry_boundary() {
    let t = tick_at(1000, 10);
    assert!(!t.is_expired_at(1000));
    assert!(!t.is_expired_at(1010));
    assert!(t.is_expired_at(1011));
    assert!(!t.is_expired_at(5));
    let forever = tick_at(1000, 0);
    assert!(!forever.is_expired_at(u64::MAX));
    let huge = tick_at(u64::MAX - 1, u64::MAX);
    assert!(!huge.is_expired_at(u64::MAX));
    assert!(!forever.is_expired());
}

#[test]
fn read_at_skips_expired_and_applies_since() {
    let mut board = TickBoard::new();
    board.post_at("a", None, "t", "short", TickPriority::Normal, 10, 100);
    board.post_at("a", None, "t", "long", TickPriority::Normal, 0, 150);
    assert_eq!(board.read_at(&TickFilter::default(), 110).len(), 2);
    let later = board.read_at(&TickFilter::default(), 111);
    assert_eq!(later.len(), 1);
    assert_eq!(later[0].body, "long");
    let since = TickFilter { since: Some(120), ..Default::default() };
    let recent = board.read_at(&since, 105);
    assert_eq!(recent.len(), 1);
    assert_eq!(recent[0].body, "long");
}

#[test]
fn read_at_target_excludes_other_addressees() {
    let mut board = TickBoard::new();
    board.post_at("a", Some("x"), "t", "to x", TickPriority::Normal, 0, 1);
    board.post_at("a", Some("y"), "t", "to y", TickPriority::Normal, 0, 2);
    board.post_at("a", None, "t", "all", TickPriority::Normal, 0, 3);
    let f = TickFilter { target: Some("x".to_string()), ..Default::default() };
    let seen = board.read_at(&f, 3);
    assert_eq!(seen.len(), 2);
    assert_eq!(seen[0].body, "to x");
    assert_eq!(seen[1].body, "all");
}

#[test]
fn read_at_combines_filters() {
    let mut board = TickBoard::new();
    board.post_at("a", None, "alerts", "low", TickPriority::Info, 0, 1);
    board.post_at("a", None, "alerts", "high", TickPriority::Critical, 0, 2);
    board.post_at("a", None, "other", "high elsewhere", TickPriority::Critical, 0, 3);
    let f = TickFilter {
        topic: Some("alerts".to_string()),
        min_priority: Some(TickPriority::Normal),
        ..Default::default()
    };
    let seen = board.read_at(&f, 3);
    assert_eq!(seen.len(), 1);
    assert_eq!(seen[0].body, "high");
}

#[test]
fn ack_at_is_idempotent_and_records_each_ack() {
    let mut board = TickBoard::new();
    let id = board.post_at("a", None, "t", "x", TickPriority::Normal, 0, 1);
    let first = board.ack_at(id, "b", "did it", 5);
    let second = board.ack_at(id, "b", "did it again", 6);
    assert_eq!(first.timestamp, 5);
    assert_eq!(second.timestamp, 6);
    assert_eq!(second.action_taken, "did it again");
    let ticks = board.read_at(&TickFilter::default(), 6);
    assert_eq!(ticks[0].acked_by, vec!["b".to_string()]);
}

#[test]
fn ack_at_unknown_tick_still_returns_ack() {
    let mut board = TickBoard::new();
    board.post_at("a", None, "t", "x", TickPriority::Normal, 0, 1);
    let ack = board.ack_at(TickId(42), "b", "nothing", 9);
    assert_eq!(ack.tick_id, TickId(42));
    assert_eq!(ack.agent, "b");
    let ticks = board.read_at(&TickFilter::default(), 9);
    assert!(ticks[0].acked_by.is_empty());
}

#[test]
fn subscribe_ids_are_sequential() {
    let mut board = TickBoard::new();
    assert_eq!(board.subscribe_at("a", vec![], 0), SubscriptionId(1));
    assert_eq!(board.subscribe_at("b", vec![], 0), SubscriptionId(2));
    assert_eq!(board.subscribe("c", vec![]), SubscriptionId(3));
}

#[test]
fn poll_at_unknown_ids_give_nothing() {
    let mut board = TickBoard::new();
    board.subscribe_at("x", vec!["t".to_string()], 0);
    board.post_at("a", None, "t", "x", TickPriority::Normal, 0, 1);
    assert_eq!(board.poll_at(SubscriptionId(0), 2).len(), 0);
    assert_eq!(board.poll_at(SubscriptionId(2), 2).len(), 0);
    assert_eq!(board.poll_at(SubscriptionId(1), 2).len(), 1);
}

#[test]
fn poll_at_advances_last_poll() {
    let mut board = TickBoard::new();
    let sub = board.subscribe_at("x", vec!["t".to_string()], 10);
    board.post_at("a", None, "t", "before", TickPriority::Normal, 0, 5);
    board.post_at("a", None, "t", "first", TickPriority::Normal, 0, 20);
    let first = board.poll_at(sub, 30);
    assert_eq!(first.len(), 1);
    assert_eq!(first[0].body, "first");
    board.post_at("a", None, "t", "second", TickPriority::Normal, 0, 40);
    let second = board.poll_at(sub, 50);
    assert_eq!(second.len(), 1);
    assert_eq!(second[0].body, "second");
    assert_eq!(board.poll_at(sub, 60).len(), 0);
}

#[test]
fn poll_at_respects_addressee_and_expiry() {
    let mut board = TickBoard::new();
    let sub = board.subscribe_at("x", vec!["t".to_string()], 0);
    board.post_at("a", Some("y"), "t", "for y", TickPriority::Normal, 0, 1);
    board.post_at("a", Some("x"), "t", "for x", TickPriority::Normal, 0, 2);
    board.post_at("a", None, "t", "gone", TickPriority::Normal, 1, 3);
    let got = board.poll_at(sub, 100);
    assert_eq!(got.len(), 1);
    assert_eq!(got[0].body, "for x");
}

#[test]
fn cleanup_at_counts_and_keeps_recent() {
    let mut board = TickBoard::new();
    board.post_at("a", None, "t", "100", TickPriority::Normal, 0, 100);
    board.post_at("a", None, "t", "200", TickPriority::Normal, 0, 200);
    board.post_at("a", None, "t", "300", TickPriority::Normal, 0, 300);
    assert_eq!(board.cleanup_at(150, 400), 2);
    let left = board.read_at(&TickFilter::default(), 400);
    assert_eq!(left.len(), 1);
    assert_eq!(left[0].body, "300");
    // A max age beyond the current time keeps everything.
    assert_eq!(board.cleanup_at(1000, 500), 0);
    // The cutoff itself is kept.
    assert_eq!(board.cleanup_at(100, 400), 0);
    assert_eq!(board.cleanup_at(99, 400), 1);
}

#[test]
fn priority_levels_are_ordered() {
    assert_eq!(TickPriority::Info.level(), 0);
    assert_eq!(TickPriority::Normal.level(), 1);
    assert_eq!(TickPriority::Urgent.level(), 2);
    assert_eq!(TickPriority::Critical.level(), 3);
    assert!(TickPriority::Urgent.at_least(&TickPriority::Urgent));
    assert!(!TickPriority::Normal.at_least(&TickPriority::Urgent));
}

#[test]
fn clock_reads_after_epoch() {
    // Any machine running these tests has a clock well past 2001-09-09.
    assert!(now_ms() > 1_000_000_000_000);
}

#[test]
fn copies_are_equal() {
    let mut t = tick_at(3, 4);
    t.acked_by.push("z".to_string());
    t.to_agent = Some("q".to_string());
    let c = t.copy();
    assert_eq!(c.acked_by, t.acked_by);
    assert_eq!(c.to_agent, t.to_agent);
    assert_eq!(c.id, t.id);
    assert_eq!(c.timestamp, 3);
}

#[test]
fn clock_readings_become_millis() {
    assert_eq!(epoch_millis_to_u64(None), 0);
    assert_eq!(epoch_millis_to_u64(Some(1_700_000_000_123)), 1_700_000_000_123);
    assert_eq!(epoch_millis_to_u64(Some((1u128 << 64) + 5)), 5);
}
