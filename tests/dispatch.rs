use logcore::{
    capture_backtrace, AsyncEvent, DefaultLoggerService, DispatchQueue, FieldMap, Key, Level,
    LevelFilter, LoggerServiceDispatcher, LoggerServiceEvent, Metadata, RecordOutcome, ServiceAction,
    StandardFilter,
};

fn meta(level: Level, module: &'static str) -> Metadata {
    Metadata::new(level, module, module, "src/lib.rs", 1, "src/lib.rs:1", None, 7, None)
}

fn event(level: Level, module: &'static str, msg: &str) -> AsyncEvent {
    AsyncEvent::capture(0, meta(level, module), Some(msg.to_string()), Vec::new(), None)
}

fn level_filter(level: LevelFilter) -> StandardFilter {
    StandardFilter::builder().filter_level(level).build()
}

#[test]
fn structured_pairs_round_trip() {
    let pairs = vec![
        (Key::new("user_id"), serde_json::Value::from(42)),
        (Key::new("ok"), serde_json::Value::Bool(true)),
    ];
    let e = AsyncEvent::capture(1, meta(Level::Info, "app"), None, pairs, None);
    let kv = e.keys_and_values();
    assert_eq!(kv.len(), 2);
    assert_eq!(kv.get("user_id"), Some(&serde_json::Value::from(42)));
    assert_eq!(kv.get("ok"), Some(&serde_json::Value::Bool(true)));
    assert_eq!(kv.get("missing"), None);
    assert_eq!(kv.key_at(0).deref(), "ok");
    assert_eq!(kv.key_at(1).deref(), "user_id");
}

#[test]
fn duplicate_keys_keep_the_last_value() {
    let mut m = FieldMap::new();
    m.insert(Key::new("a"), serde_json::Value::from(1));
    m.insert(Key::new_owned("b".to_string()), serde_json::Value::from(2));
    m.insert(Key::new("a"), serde_json::Value::from(3));
    assert_eq!(m.len(), 2);
    assert_eq!(m.get("a"), Some(&serde_json::Value::from(3)));
    assert_eq!(m.key_at(0).deref(), "a");
    assert_eq!(m.value_at(1), &serde_json::Value::from(2));
}

#[test]
fn fields_are_kept_in_key_order() {
    let mut m = FieldMap::new();
    for name in ["zeta", "alpha", "mid", "alpha2", "Zed"] {
        m.insert(Key::new_owned(name.to_string()), serde_json::Value::Null);
    }
    let keys: Vec<String> = (0..m.len()).map(|i| m.key_at(i).deref().to_string()).collect();
    assert_eq!(keys, vec!["Zed", "alpha", "alpha2", "mid", "zeta"]);
    assert!(Key::new("a").precedes(&Key::new("ab")));
    assert!(!Key::new("b").precedes(&Key::new("ab")));
    assert!(!Key::new("a").precedes(&Key::new("a")));
}

#[test]
fn snapshot_keeps_message_and_metadata() {
    let e = AsyncEvent::capture(5, meta(Level::Warn, "m"), Some("hi".to_string()), Vec::new(), Some("bt".to_string()));
    assert_eq!(e.timestamp(), 5);
    assert_eq!(e.message(), Some("hi"));
    assert_eq!(e.backtrace(), Some("bt"));
    assert_eq!(e.metadata().level(), Level::Warn);
    assert!(e.keys_and_values().is_empty());
}

#[test]
fn backtrace_is_captured_for_crash_only() {
    assert!(capture_backtrace(Level::Crash).is_some());
    assert!(capture_backtrace(Level::Error).is_none());
    assert!(capture_backtrace(Level::Trace).is_none());
}

#[test]
fn trimming_drops_the_innermost_five_frames() {
    assert_eq!(logcore::event::trim_frames(vec![1, 2, 3, 4, 5, 6, 7]), vec![6, 7]);
    assert_eq!(logcore::event::trim_frames(vec![1, 2, 3, 4, 5]), vec![1, 2, 3, 4, 5]);
}

#[test]
fn overflow_drops_exactly_one_and_keeps_order() {
    let n = 3;
    let d = LoggerServiceDispatcher::new(vec![level_filter(LevelFilter::Trace)]);
    let mut q: DispatchQueue<LoggerServiceEvent<u32>> = DispatchQueue::new(n);
    let mut outcomes = Vec::new();
    for i in 0..(n + 1) {
        outcomes.push(d.record(&mut q, event(Level::Info, "app", &format!("e{}", i))));
    }
    assert_eq!(outcomes[..n].to_vec(), vec![RecordOutcome::Queued; n]);
    assert_eq!(outcomes[n], RecordOutcome::Dropped);
    assert_eq!(q.dropped(), 1);
    assert_eq!(q.len(), n);
    let mut seen = Vec::new();
    while let Some(m) = q.recv() {
        match m {
            LoggerServiceEvent::LogEvent(e) => seen.push(e.message().unwrap().to_string()),
            LoggerServiceEvent::Flush(_) => panic!("no flush was sent"),
        }
    }
    assert_eq!(seen, vec!["e0", "e1", "e2"]);
}

#[test]
fn disabled_events_are_not_queued() {
    let d = LoggerServiceDispatcher::new(vec![level_filter(LevelFilter::Error)]);
    let mut q: DispatchQueue<LoggerServiceEvent<u32>> = DispatchQueue::new(4);
    assert!(!d.enabled(&meta(Level::Info, "app")));
    assert_eq!(d.record(&mut q, event(Level::Info, "app", "x")), RecordOutcome::Disabled);
    assert_eq!(q.len(), 0);
    assert_eq!(q.dropped(), 0);
}

#[test]
fn flush_is_acknowledged_after_every_prior_event_reached_every_sink() {
    let k = 5;
    let d = LoggerServiceDispatcher::new(vec![level_filter(LevelFilter::Trace)]);
    let service = DefaultLoggerService::new(vec![
        level_filter(LevelFilter::Trace),
        level_filter(LevelFilter::Info),
    ]);
    let mut q: DispatchQueue<LoggerServiceEvent<u32>> = DispatchQueue::new(100);
    for i in 0..k {
        d.record(&mut q, event(Level::Info, "app", &format!("e{}", i)));
    }
    d.flush(&mut q, 77);
    // Events queued after the flush are not part of it.
    d.record(&mut q, event(Level::Info, "app", "late"));
    let mut writes = vec![0usize; service.sink_count()];
    let mut flushed_at = None;
    while let Some(m) = q.recv() {
        match m {
            LoggerServiceEvent::LogEvent(e) => {
                for s in service.route(e.metadata()) {
                    writes[s] += 1;
                }
            }
            LoggerServiceEvent::Flush(reply) => {
                assert_eq!(reply, 77);
                flushed_at = Some(writes.clone());
            }
        }
    }
    assert_eq!(flushed_at, Some(vec![k, k]));
    assert_eq!(writes, vec![k + 1, k + 1]);
}

#[test]
fn sinks_receive_only_what_their_filter_accepts() {
    let service = DefaultLoggerService::new(vec![
        level_filter(LevelFilter::Error),
        level_filter(LevelFilter::Debug),
        StandardFilter::builder().filter_module("db", LevelFilter::Trace).build(),
    ]);
    assert_eq!(service.route(&meta(Level::Debug, "db::pool")), vec![1, 2]);
    assert_eq!(service.route(&meta(Level::Error, "web")), vec![0, 1]);
    assert_eq!(service.route(&meta(Level::Trace, "web")), Vec::<usize>::new());
}

#[test]
fn consumer_actions_follow_the_messages() {
    let service = DefaultLoggerService::new(vec![
        level_filter(LevelFilter::Warn),
        level_filter(LevelFilter::Trace),
    ]);
    match service.handle(LoggerServiceEvent::<u8>::LogEvent(event(Level::Info, "app", "m"))) {
        ServiceAction::Deliver { event, sinks } => {
            assert_eq!(event.message(), Some("m"));
            assert_eq!(sinks, vec![1]);
        }
        ServiceAction::FlushAll { .. } => panic!("expected a delivery"),
    }
    match service.handle(LoggerServiceEvent::<u8>::Flush(9)) {
        ServiceAction::FlushAll { reply } => assert_eq!(reply, 9),
        ServiceAction::Deliver { .. } => panic!("expected a flush"),
    }
}
