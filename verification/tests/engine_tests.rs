use fanout::{
    decode_notification, id_string, render_deleted, EventKind, Message, TopicDirectory,
};

const TS: u64 = 1_704_067_200_000;

fn v7_id(tail: u128) -> u128 {
    ((TS as u128) << 80) | (0x7u128 << 76) | (0x8u128 << 60) | tail
}

fn msg(id: u128, author: u128, content: &str) -> Message {
    Message {
        id,
        content: content.to_string(),
        updated_ms: TS as i64,
        author,
        author_name: "Ada".to_string(),
    }
}

#[test]
fn event_before_any_registration_is_dropped() {
    // An event alone never creates a worker: the topic directory stays
    // empty and nothing is delivered.
    let dir = TopicDirectory::new();
    let payload = format!("{}{}", id_string(v7_id(1)), id_string(1000));
    let ev = decode_notification("insert_message", &payload).unwrap();
    assert_eq!(dir.route_event(&ev), None);
    assert!(dir.workers.is_empty());
}

#[test]
fn registration_before_event_is_delivered() {
    let mut dir = TopicDirectory::new();
    let topic = 1000u128;
    let idx = dir.route_registration(topic, 2000, 31);
    let payload = format!("{}{}", id_string(v7_id(1)), id_string(topic));
    let ev = decode_notification("insert_message", &payload).unwrap();
    let widx = dir.route_event(&ev).expect("the registered topic routes");
    assert_eq!(widx, idx);
    let m = msg(ev.entity_id, 31, "hi");
    let ds = dir.deliveries_at(widx, ev.kind, ev.entity_id, Some(&m), TS as i64);
    assert_eq!(ds.len(), 1);
    assert_eq!(ds[0].subscriber_id, 31);
}

#[test]
fn two_subscribers_each_get_their_own_fragment() {
    let mut dir = TopicDirectory::new();
    let topic = 1000u128;
    let (s1, s2) = (31u128, 32u128);
    let idx = dir.route_registration(topic, 2000, s1);
    assert_eq!(dir.route_registration(topic, 2000, s2), idx);
    let mid = v7_id(1);
    let m = msg(mid, s1, "mine");
    let ds = dir.deliveries_at(idx, EventKind::Insert, mid, Some(&m), TS as i64);
    assert_eq!(ds.len(), 2);
    let d1 = ds.iter().find(|d| d.subscriber_id == s1).unwrap();
    let d2 = ds.iter().find(|d| d.subscriber_id == s2).unwrap();
    // The author sees their own message on the end side with its controls;
    // the other subscriber sees it on the start side.
    assert!(d1.data.contains("chat-end"));
    assert!(d1.data.contains("Edit</button>"));
    assert!(d2.data.contains("chat-start"));
    assert!(!d2.data.contains("Edit</button>"));
}

#[test]
fn registering_twice_keeps_one_entry() {
    let mut dir = TopicDirectory::new();
    let idx = dir.route_registration(1000, 2000, 31);
    assert_eq!(dir.route_registration(1000, 2000, 31), idx);
    assert_eq!(dir.workers[idx].subscribers.len(), 1);
}

#[test]
fn stale_subscriber_is_pruned_and_silent() {
    let mut dir = TopicDirectory::new();
    let topic = 1000u128;
    let (s1, s2) = (31u128, 32u128);
    let idx = dir.route_registration(topic, 2000, s1);
    dir.route_registration(topic, 2000, s2);
    // The first delivery attempt showed s1's channel closed.
    dir.prune_topic(idx, &vec![s1]);
    assert_eq!(dir.workers[idx].subscribers, vec![s2]);
    let mid = v7_id(2);
    let m = msg(mid, s1, "later");
    let ds = dir.deliveries_at(idx, EventKind::Insert, mid, Some(&m), TS as i64);
    assert_eq!(ds.len(), 1);
    assert_eq!(ds[0].subscriber_id, s2);
}

#[test]
fn events_reach_subscribers_in_feed_order() {
    let mut dir = TopicDirectory::new();
    let topic = 1000u128;
    let idx = dir.route_registration(topic, 2000, 31);
    let (m1, m2) = (msg(v7_id(1), 31, "first"), msg(v7_id(2), 31, "second"));
    let mut stream: Vec<String> = Vec::new();
    for m in [&m1, &m2] {
        let ds = dir.deliveries_at(idx, EventKind::Insert, m.id, Some(m), TS as i64);
        stream.extend(ds.into_iter().map(|d| d.data));
    }
    assert_eq!(stream.len(), 2);
    assert!(stream[0].contains("first"));
    assert!(stream[1].contains("second"));
}

#[test]
fn delete_needs_no_entity_and_is_uniform() {
    let mut dir = TopicDirectory::new();
    let topic = 1000u128;
    let idx = dir.route_registration(topic, 2000, 31);
    dir.route_registration(topic, 2000, 32);
    let mid = v7_id(3);
    let ds = dir.deliveries_at(idx, EventKind::Delete, mid, None, TS as i64);
    assert_eq!(ds.len(), 2);
    assert_eq!(ds[0].data, render_deleted(mid));
    assert_eq!(ds[1].data, ds[0].data);
    assert_ne!(ds[0].subscriber_id, ds[1].subscriber_id);
}

#[test]
fn fetch_failure_skips_the_event_without_pruning() {
    let mut dir = TopicDirectory::new();
    let idx = dir.route_registration(1000, 2000, 31);
    let ds = dir.deliveries_at(idx, EventKind::Insert, v7_id(4), None, TS as i64);
    assert!(ds.is_empty());
    assert_eq!(dir.workers[idx].subscribers.len(), 1);
}

#[test]
fn untimestamped_message_skips_every_subscriber() {
    let mut dir = TopicDirectory::new();
    let idx = dir.route_registration(1000, 2000, 31);
    let m = msg(1, 31, "no timestamp");
    let ds = dir.deliveries_at(idx, EventKind::Insert, 1, Some(&m), TS as i64);
    assert!(ds.is_empty());
    assert_eq!(dir.workers[idx].subscribers.len(), 1);
}

#[test]
fn worker_clock_delivers_to_every_subscriber() {
    let mut dir = TopicDirectory::new();
    let idx = dir.route_registration(1000, 2000, 31);
    let m = msg(v7_id(5), 31, "now");
    let ds = dir.workers[idx].handle_message_event(EventKind::Insert, m.id, Some(&m));
    assert_eq!(ds.len(), 1);
    assert_eq!(ds[0].subscriber_id, 31);
}

#[test]
fn insert_scenario_reaches_only_the_events_topic() {
    // Feed delivers one insert for topic1. u1 subscribed to topic1 receives
    // one rendered event carrying the entity; u2, subscribed to topic2,
    // receives nothing from it.
    let id1 = v7_id(6);
    let (topic1, topic2) = (1000u128, 3000u128);
    let (u1, u2) = (31u128, 32u128);
    let mut dir = TopicDirectory::new();
    let i1 = dir.route_registration(topic1, 2000, u1);
    let i2 = dir.route_registration(topic2, 2000, u2);
    assert_ne!(i1, i2);

    let payload = format!("{}{}", id_string(id1), id_string(topic1));
    let ev = decode_notification("insert_message", &payload).unwrap();
    let widx = dir.route_event(&ev).unwrap();
    assert_eq!(widx, i1);

    let m = msg(id1, u1, "scenario");
    let ds = dir.deliveries_at(widx, ev.kind, ev.entity_id, Some(&m), TS as i64);
    assert_eq!(ds.len(), 1);
    assert_eq!(ds[0].subscriber_id, u1);
    assert!(ds[0].data.contains(&format!("msg-{}", id_string(id1))));
    // Nothing was handed to topic2's worker; its subscriber saw no event.
    assert_eq!(dir.workers[i2].subscribers, vec![u2]);
    assert_ne!(dir.workers[widx].channel_id, topic2);
}

#[test]
fn deliveries_follow_ascending_subscriber_order() {
    // The subscriber set is kept in key order, whatever order
    // registrations arrive in.
    let mut dir = TopicDirectory::new();
    let idx = dir.route_registration(1000, 2000, 77);
    dir.route_registration(1000, 2000, 31);
    dir.route_registration(1000, 2000, 55);
    assert_eq!(dir.workers[idx].subscribers, vec![31, 55, 77]);
    let m = msg(v7_id(8), 31, "ordered");
    let ds = dir.deliveries_at(idx, EventKind::Insert, m.id, Some(&m), TS as i64);
    let order: Vec<u128> = ds.iter().map(|d| d.subscriber_id).collect();
    assert_eq!(order, vec![31, 55, 77]);
}

#[test]
fn prune_keeps_the_remaining_order() {
    let mut dir = TopicDirectory::new();
    let idx = dir.route_registration(1000, 2000, 77);
    for s in [31, 55, 91] {
        dir.route_registration(1000, 2000, s);
    }
    dir.prune_topic(idx, &vec![55, 91]);
    assert_eq!(dir.workers[idx].subscribers, vec![31, 77]);
}
