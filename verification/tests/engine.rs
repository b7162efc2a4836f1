use event_broker::multiplexing::{new_engine, Event, Muxer, State};

#[test]
fn fresh_engine_is_not_started_and_empty() {
    let e = new_engine();
    assert_eq!(e.state, State::NotStarted);
    assert!(e.event_queue.queue.is_empty());
    assert!(e.event_queue.muxers.is_empty());
    assert!(e.cache_file.events.is_empty());
    assert_eq!(e.cache_file.name.as_str(), "Cache-tst");
    assert_eq!(e.unprocessed_events, 0);
}

#[test]
fn publish_before_start_only_buffers() {
    let mut e = new_engine();
    let idx = e.add_muxer(Some("early"));
    e.publish(&Event { id: 1 });
    assert_eq!(e.event_queue.queue, vec![Event { id: 1 }]);
    assert!(e.event_queue.muxers[idx].queue.is_empty());
    assert!(e.cache_file.events.is_empty());
    assert_eq!(e.unprocessed_events, 0);
}

#[test]
fn publish_while_stopped_goes_to_cache() {
    let mut e = new_engine();
    let idx = e.add_muxer(Some("m"));
    e.start();
    e.stop();
    let e1 = Event { id: 17 };
    e.publish(&e1);
    // exactly one add call reached the cache collaborator
    assert_eq!(e.cache_file.events, vec![e1]);
    assert_eq!(e.unprocessed_events, 1);
    // no muxer queue changed, no central queue change
    assert!(e.event_queue.muxers[idx].queue.is_empty());
    assert!(e.event_queue.queue.is_empty());
}

#[test]
fn publish_while_running_fans_out_to_every_muxer() {
    let mut e = new_engine();
    let m1 = e.add_muxer(Some("m1"));
    let m2 = e.add_muxer(Some("m2"));
    e.start();
    let e2 = Event { id: 2 };
    e.publish(&e2);
    let q1 = &e.event_queue.muxers[m1].queue;
    let q2 = &e.event_queue.muxers[m2].queue;
    assert_eq!(q1.iter().filter(|x| **x == e2).count(), 1);
    assert_eq!(q2.iter().filter(|x| **x == e2).count(), 1);
    assert_eq!(*q1, vec![e2]);
    assert_eq!(*q2, vec![e2]);
    // the central queue keeps its own copy: muxers received copies, not moves
    assert_eq!(e.event_queue.queue, vec![e2]);
}

#[test]
fn fan_out_preserves_snapshot_order_per_muxer() {
    let mut e = new_engine();
    let m = e.add_muxer(Some("m"));
    e.publish_v(&vec![Event { id: 1 }, Event { id: 2 }, Event { id: 3 }]);
    e.send_to_subscribers();
    assert_eq!(
        e.event_queue.muxers[m].queue,
        vec![Event { id: 1 }, Event { id: 2 }, Event { id: 3 }]
    );
    assert_eq!(
        e.event_queue.queue,
        vec![Event { id: 1 }, Event { id: 2 }, Event { id: 3 }]
    );
}

#[test]
fn publish_v_appends_batch_without_fan_out() {
    let mut e = new_engine();
    let m = e.add_muxer(Some("m"));
    e.start();
    e.publish_v(&vec![Event { id: 5 }, Event { id: 6 }]);
    assert_eq!(e.event_queue.queue, vec![Event { id: 5 }, Event { id: 6 }]);
    assert!(e.event_queue.muxers[m].queue.is_empty());
}

#[test]
fn resume_replays_cached_events_in_order() {
    let mut e = new_engine();
    e.start();
    e.stop();
    e.publish(&Event { id: 7 });
    e.publish(&Event { id: 8 });
    assert_eq!(e.unprocessed_events, 2);
    e.resume();
    assert_eq!(e.state, State::Running);
    assert_eq!(e.event_queue.queue, vec![Event { id: 7 }, Event { id: 8 }]);
    assert!(e.cache_file.events.is_empty());
    assert_eq!(e.unprocessed_events, 0);
}

#[test]
fn add_muxer_returns_consecutive_handles() {
    let mut e = new_engine();
    assert_eq!(e.add_muxer(Some("a")), 0);
    assert_eq!(e.add_muxer(Some("b")), 1);
    assert_eq!(e.event_queue.muxers[0].name.as_str(), "a");
    assert_eq!(e.event_queue.muxers[1].name.as_str(), "b");
}

#[test]
fn invalid_muxer_name_falls_back_to_default() {
    let mut e = new_engine();
    let idx = e.add_muxer(None);
    assert_eq!(e.event_queue.muxers[idx].name.as_str(), "BrokerBadMuxerName");
    assert!(e.event_queue.muxers[idx].queue.is_empty());
}

#[test]
fn muxer_registered_mid_stream_starts_with_an_empty_queue() {
    let mut e = new_engine();
    let early = e.add_muxer(Some("early"));
    e.start();
    e.publish(&Event { id: 1 });
    // a muxer registered between rounds is fully constructed and gets only
    // later snapshots
    let late = e.add_muxer(Some("late"));
    assert_eq!(e.event_queue.muxers[late].name.as_str(), "late");
    assert!(e.event_queue.muxers[late].queue.is_empty());
    e.publish(&Event { id: 2 });
    assert_eq!(
        e.event_queue.muxers[early].queue,
        vec![Event { id: 1 }, Event { id: 1 }, Event { id: 2 }]
    );
    assert_eq!(
        e.event_queue.muxers[late].queue,
        vec![Event { id: 1 }, Event { id: 2 }]
    );
}

#[test]
fn muxer_write_and_publish_append_locally() {
    let mut m = Muxer { name: String::from("m"), queue: Vec::new() };
    m.write(&Event { id: 1 });
    m.publish(&Event { id: 2 });
    assert_eq!(m.queue, vec![Event { id: 1 }, Event { id: 2 }]);
}

#[test]
fn muxer_publish_vd_appends_a_whole_snapshot() {
    let mut m = Muxer { name: String::from("m"), queue: vec![Event { id: 0 }] };
    m.publish_vd(&vec![Event { id: 1 }, Event { id: 2 }]);
    assert_eq!(
        m.queue,
        vec![Event { id: 0 }, Event { id: 1 }, Event { id: 2 }]
    );
}

#[test]
fn cache_drain_empties_and_returns_in_order() {
    let mut e = new_engine();
    e.start();
    e.stop();
    e.publish(&Event { id: 3 });
    e.publish(&Event { id: 4 });
    let drained = e.cache_file.drain();
    assert_eq!(drained, vec![Event { id: 3 }, Event { id: 4 }]);
    assert_eq!(e.cache_file.len(), 0);
    assert!(e.cache_file.events().is_empty());
}
