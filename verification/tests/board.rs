use plato_tick::board::TickBoard;
use plato_tick::clock::now_ms;
use plato_tick::ids::{SubscriptionId, TickId, TickPriority};
use plato_tick::tick::TickFilter;

fn make_board() -> TickBoard {
    TickBoard::new()
}

fn wait_ms(ms: u64) {
    let start = now_ms();
    while now_ms() < start + ms {}
}

#[test]
fn post_creates_tick_with_id() {
    let mut board = make_board();
    let id = board.post("agent-a", None, "test", "hello", TickPriority::Normal, 0);
    assert_eq!(id, TickId(1));

    let id2 = board.post("agent-b", Some("agent-a"), "reply", "world", TickPriority::Urgent, 0);
    assert_eq!(id2, TickId(2));
}

#[test]
fn read_returns_posted_ticks() {
    let mut board = make_board();
    board.post("agent-a", None, "test", "hello", TickPriority::Normal, 0);
    board.post("agent-b", None, "test", "world", TickPriority::Normal, 0);

    let ticks = board.read(&TickFilter::default());
    assert_eq!(ticks.len(), 2);
}

#[test]
fn read_with_filter_returns_matching_ticks_only() {
    let mut board = make_board();
    board.post("agent-a", Some("agent-b"), "direct", "for you", TickPriority::Normal, 0);
    board.post("agent-a", None, "broadcast", "everyone", TickPriority::Normal, 0);

    let filter = TickFilter {
        target: Some("agent-b".to_string()),
        ..Default::default()
    };
    let ticks = board.read(&filter);
    assert_eq!(ticks.len(), 2); // both direct and broadcast
    assert!(ticks.iter().any(|t| t.topic == "direct"));
    assert!(ticks.iter().any(|t| t.topic == "broadcast"));
}

#[test]
fn read_with_topic_filter_works() {
    let mut board = make_board();
    board.post("a", None, "alerts", "alert!", TickPriority::Normal, 0);
    board.post("a", None, "info", "fyi", TickPriority::Normal, 0);

    let filter = TickFilter {
        topic: Some("alerts".to_string()),
        ..Default::default()
    };
    let ticks = board.read(&filter);
    assert_eq!(ticks.len(), 1);
    assert_eq!(ticks[0].topic, "alerts");
}

#[test]
fn read_with_min_priority_filters_correctly() {
    let mut board = make_board();
    board.post("a", None, "t", "info", TickPriority::Info, 0);
    board.post("a", None, "t", "normal", TickPriority::Normal, 0);
    board.post("a", None, "t", "urgent", TickPriority::Urgent, 0);
    board.post("a", None, "t", "critical", TickPriority::Critical, 0);

    let filter = TickFilter {
        min_priority: Some(TickPriority::Urgent),
        ..Default::default()
    };
    let ticks = board.read(&filter);
    assert_eq!(ticks.len(), 2);
    assert!(ticks.iter().all(|t| t.priority >= TickPriority::Urgent));
}

#[test]
fn ack_records_acknowledgment() {
    let mut board = make_board();
    let id = board.post("a", None, "t", "hello", TickPriority::Normal, 0);
    let ack = board.ack(id, "agent-b", "read and handled");
    assert_eq!(ack.tick_id, id);
    assert_eq!(ack.agent, "agent-b");
    assert_eq!(ack.action_taken, "read and handled");

    let ticks = board.read(&TickFilter::default());
    assert!(ticks[0].acked_by.contains(&"agent-b".to_string()));
}

#[test]
fn acked_by_tracks_multiple_agents() {
    let mut board = make_board();
    let id = board.post("a", None, "t", "hello", TickPriority::Normal, 0);
    board.ack(id, "agent-b", "handled");
    board.ack(id, "agent-c", "also handled");

    let ticks = board.read(&TickFilter::default());
    assert_eq!(ticks[0].acked_by.len(), 2);
    assert!(ticks[0].acked_by.contains(&"agent-b".to_string()));
    assert!(ticks[0].acked_by.contains(&"agent-c".to_string()));
}

#[test]
fn subscribe_creates_subscription() {
    let mut board = make_board();
    let sub_id = board.subscribe("agent-x", vec!["alerts".to_string(), "tasks".to_string()]);
    assert_eq!(sub_id, SubscriptionId(1));
}

#[test]
fn poll_returns_new_ticks_since_last_poll() {
    let mut board = make_board();
    let sub_id = board.subscribe("agent-x", vec!["alerts".to_string()]);

    // Post a matching tick after subscribe
    board.post("agent-a", None, "alerts", "fire!", TickPriority::Urgent, 0);
    board.post("agent-a", None, "info", "fyi", TickPriority::Info, 0);

    let ticks = board.poll(sub_id);
    assert_eq!(ticks.len(), 1);
    assert_eq!(ticks[0].topic, "alerts");
}

#[test]
fn poll_with_subscription_only_returns_matching_topics() {
    let mut board = make_board();
    let sub_id = board.subscribe("agent-x", vec!["alerts".to_string()]);

    board.post("a", None, "alerts", "a1", TickPriority::Normal, 0);
    board.post("a", None, "tasks", "t1", TickPriority::Normal, 0);
    board.post("a", None, "alerts", "a2", TickPriority::Normal, 0);

    let ticks = board.poll(sub_id);
    assert_eq!(ticks.len(), 2);
    assert!(ticks.iter().all(|t| t.topic == "alerts"));
}

#[test]
fn cleanup_removes_old_ticks() {
    let mut board = make_board();
    board.post("a", None, "t", "old", TickPriority::Normal, 0);
    board.post("a", None, "t", "also old", TickPriority::Normal, 0);

    // Wait a moment so the ticks are now in the past
    wait_ms(5);

    // With max_age_ms=1, ticks from >1ms ago should be removed
    let removed = board.cleanup(1);
    assert_eq!(removed, 2);
    assert_eq!(board.read(&TickFilter::default()).len(), 0);
}

#[test]
fn broadcast_ticks_reach_all_subscribers() {
    let mut board = make_board();
    let sub1 = board.subscribe("agent-x", vec!["news".to_string()]);
    let sub2 = board.subscribe("agent-y", vec!["news".to_string()]);

    board.post("source", None, "news", "breaking!", TickPriority::Normal, 0);

    let t1 = board.poll(sub1);
    let t2 = board.poll(sub2);
    assert_eq!(t1.len(), 1);
    assert_eq!(t2.len(), 1);
}

#[test]
fn ttl_expired_ticks_are_marked_expired() {
    let mut board = make_board();
    // TTL of 1ms — will expire almost immediately
    let id = board.post("a", None, "t", "ephemeral", TickPriority::Normal, 1);

    // Wait for expiry
    wait_ms(10);

    // A read at the epoch sees every tick, expired or not.
    let ticks = board.read_at(&TickFilter::default(), 0);
    let tick = ticks.iter().find(|t| t.id == id).unwrap();
    assert!(tick.is_expired());

    // read() should not return expired ticks
    let visible = board.read(&TickFilter::default());
    assert_eq!(visible.len(), 0);
}
