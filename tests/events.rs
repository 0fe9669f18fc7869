use rauthy_core::event::{Event, EventLevel};
use rauthy_core::router::EventRouter;
use rauthy_core::scheduler::{cleanup_threshold, events_cleanup, events_cleanup_tick, DAY_MILLIS};
use rauthy_core::store::StateBackend;

fn ev(ts: i64, level: EventLevel) -> Event {
    Event::new(ts, level, "test", "127.0.0.1", "msg")
}

#[test]
fn routing_respects_minimum_severity() {
    let mut store = StateBackend::standalone();
    let mut router = EventRouter::new();
    let (warn_id, _) = router.register(&store, "10.0.0.1".to_string(), None, EventLevel::Warning).unwrap();
    let (info_id, _) = router.register(&store, "10.0.0.2".to_string(), None, EventLevel::Info).unwrap();
    assert_ne!(warn_id, info_id);
    let to = router.route(&mut store, ev(1, EventLevel::Info));
    assert_eq!(to, vec![info_id]);
    let to = router.route(&mut store, ev(2, EventLevel::Critical));
    assert_eq!(to, vec![warn_id, info_id]);
    assert_eq!(store.events.len(), 2);
}

#[test]
fn removed_subscriber_gets_nothing() {
    let mut store = StateBackend::standalone();
    let mut router = EventRouter::new();
    let (a, _) = router.register(&store, "a".to_string(), None, EventLevel::Info).unwrap();
    let (b, _) = router.register(&store, "b".to_string(), None, EventLevel::Info).unwrap();
    router.remove(a);
    assert_eq!(router.route(&mut store, ev(1, EventLevel::Notice)), vec![b]);
}

#[test]
fn registration_replays_newer_events_in_order() {
    let mut store = StateBackend::standalone();
    let mut router = EventRouter::new();
    router.route(&mut store, ev(30, EventLevel::Info));
    router.route(&mut store, ev(10, EventLevel::Warning));
    router.route(&mut store, ev(20, EventLevel::Critical));
    let stamps: Vec<i64> = store.events.iter().map(|e| e.timestamp).collect();
    assert_eq!(stamps, vec![10, 20, 30]);
    let (_, replay) = router.register(&store, "a".to_string(), Some(10), EventLevel::Info).unwrap();
    let stamps: Vec<i64> = replay.iter().map(|e| e.timestamp).collect();
    assert_eq!(stamps, vec![20, 30]);
    let (_, replay) = router.register(&store, "b".to_string(), Some(0), EventLevel::Warning).unwrap();
    let stamps: Vec<i64> = replay.iter().map(|e| e.timestamp).collect();
    assert_eq!(stamps, vec![10, 20]);
    let (_, replay) = router.register(&store, "c".to_string(), None, EventLevel::Info).unwrap();
    assert!(replay.is_empty());
}

#[test]
fn registry_full_refuses() {
    let store = StateBackend::standalone();
    let mut router = EventRouter::new();
    router.next_id = u64::MAX;
    assert!(router.register(&store, "a".to_string(), None, EventLevel::Info).is_none());
    assert!(router.subscribers.is_empty());
}

#[test]
fn cleanup_runs_on_the_leader_only() {
    let now = 100 * DAY_MILLIS;
    let mut nodes = vec![
        StateBackend::replicated(false),
        StateBackend::replicated(true),
        StateBackend::replicated(false),
    ];
    let router = EventRouter::new();
    for node in nodes.iter_mut() {
        router.route(node, ev(now - 40 * DAY_MILLIS, EventLevel::Info));
        router.route(node, ev(now - 35 * DAY_MILLIS, EventLevel::Info));
        router.route(node, ev(now - DAY_MILLIS, EventLevel::Info));
    }
    let results: Vec<Option<usize>> =
        nodes.iter_mut().map(|n| events_cleanup_tick(n, now, 31)).collect();
    assert_eq!(results, vec![None, Some(2), None]);
    assert_eq!(nodes[0].events.len(), 3);
    assert_eq!(nodes[1].events.len(), 1);
    assert_eq!(nodes[2].events.len(), 3);
}

#[test]
fn standalone_node_always_leads() {
    let mut store = StateBackend::standalone();
    assert!(store.is_leader());
    let mut replica = StateBackend::replicated(false);
    assert!(!replica.is_leader());
    replica.set_leader(true);
    assert!(replica.is_leader());
    store.append_event(ev(0, EventLevel::Info));
    assert_eq!(events_cleanup(&mut store, 31), Some(1));
}

#[test]
fn cleanup_threshold_values() {
    assert_eq!(cleanup_threshold(40 * DAY_MILLIS, 31), 9 * DAY_MILLIS);
    assert_eq!(cleanup_threshold(i64::MIN, 1), i64::MIN);
    assert_eq!(DAY_MILLIS, 86_400_000);
}
