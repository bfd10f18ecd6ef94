// The concurrent pipeline's verified core, driven sequentially: bus routing
// and ordering, the history cache, the durable sink, the poller decisions,
// and the supervisor rule.

use mng_tracker::bus::{Bus, BusEvent, EventKind};
use mng_tracker::cache_actor::CacheActor;
use mng_tracker::error_actor::ErrorActor;
use mng_tracker::file_writer::new_file_writer;
use mng_tracker::messages::{LastN, PublishError, PublishTick};
use mng_tracker::publish_actor::PublisherActor;
use mng_tracker::supervisor::{supervisor_restarts, UnitState};
use mng_tracker::ticker_actor::{TickerActor, POLL_INTERVAL_SECS};

fn tick(line: &str) -> BusEvent {
    BusEvent::Tick(PublishTick(line.to_string()))
}

fn expect_tick_line(ev: Option<BusEvent>) -> String {
    match ev {
        Some(BusEvent::Tick(t)) => t.0,
        other => panic!("expected a tick event, got {:?}", other.is_some()),
    }
}

#[test]
fn cache_keeps_most_recent_first_within_capacity() {
    let mut cache = CacheActor::with_capacity(3);
    for line in ["a", "b", "c", "d", "e"] {
        cache.handle_tick(PublishTick(line.to_string()));
    }
    // Capacity is never exceeded and the most recent entries come first.
    assert_eq!(cache.handle_last_n(LastN(10)), vec!["e", "d", "c"]);
    assert_eq!(cache.handle_last_n(LastN(2)), vec!["e", "d"]);
    assert_eq!(cache.handle_last_n(LastN(0)), Vec::<String>::new());
}

#[test]
fn cache_partial_fill() {
    let mut cache = CacheActor::with_capacity(100);
    cache.handle_tick(PublishTick("one".to_string()));
    cache.handle_tick(PublishTick("two".to_string()));
    assert_eq!(cache.handle_last_n(LastN(5)), vec!["two", "one"]);
}

#[test]
fn cache_default_capacity_holds_one_hundred() {
    let mut cache = CacheActor::default();
    for i in 0..110 {
        cache.handle_tick(PublishTick(format!("line{}", i)));
    }
    let all = cache.handle_last_n(LastN(1000));
    assert_eq!(all.len(), 100);
    assert_eq!(all[0], "line109");
    assert_eq!(all[99], "line10");
}

#[test]
fn cache_zero_capacity_stays_empty() {
    let mut cache = CacheActor::with_capacity(0);
    cache.handle_tick(PublishTick("x".to_string()));
    assert_eq!(cache.handle_last_n(LastN(1)), Vec::<String>::new());
}

#[test]
fn bus_delivers_in_publish_order() {
    let mut bus = Bus::new();
    let sub = bus.register();
    bus.subscribe(sub, EventKind::Tick);
    bus.publish(tick("first"));
    bus.publish(tick("second"));
    assert_eq!(expect_tick_line(bus.take_next(sub)), "first");
    assert_eq!(expect_tick_line(bus.take_next(sub)), "second");
    assert!(bus.take_next(sub).is_none());
}

#[test]
fn error_for_one_symbol_does_not_block_other_ticks() {
    let mut bus = Bus::new();
    let cache = bus.register();
    let sink = bus.register();
    let console = bus.register();
    let errors = bus.register();
    bus.subscribe(cache, EventKind::Tick);
    bus.subscribe(sink, EventKind::Tick);
    bus.subscribe(console, EventKind::Tick);
    bus.subscribe(errors, EventKind::Error);

    // One symbol's poller fails...
    bus.publish(BusEvent::Error(PublishError("AAA|fetch failed".to_string())));
    // ...and another symbol's tick still reaches every tick subscriber.
    bus.publish(tick("BBB line"));
    for sub in [cache, sink, console] {
        assert_eq!(expect_tick_line(bus.take_next(sub)), "BBB line");
    }
    match bus.take_next(errors) {
        Some(BusEvent::Error(e)) => assert_eq!(e.0, "AAA|fetch failed"),
        _ => panic!("error subscriber should have received the error event"),
    }
}

#[test]
fn stopped_mailbox_drops_delivery_without_blocking_others() {
    let mut bus = Bus::new();
    let stopped = bus.register();
    let live = bus.register();
    bus.subscribe(stopped, EventKind::Tick);
    bus.subscribe(live, EventKind::Tick);
    bus.stop(stopped);
    bus.publish(tick("x"));
    assert!(bus.take_next(stopped).is_none());
    assert_eq!(expect_tick_line(bus.take_next(live)), "x");
}

#[test]
fn flush_failure_is_not_fatal() {
    let mut fw = new_file_writer(30);
    fw.handle_tick(&PublishTick("a".to_string()));
    assert_eq!(fw.pending_copy(), b"a\n".to_vec());

    // A failed flush keeps the bytes, reports an error, and reschedules.
    let step = fw.on_flush_result(false);
    assert_eq!(step.next_flush_secs, 30);
    assert_eq!(step.error.unwrap().0, "Unable to write to file.");
    assert_eq!(fw.pending_copy(), b"a\n".to_vec());

    // Later ticks are still buffered and a later flush still drains.
    fw.handle_tick(&PublishTick("b".to_string()));
    assert_eq!(fw.pending_copy(), b"a\nb\n".to_vec());
    let step = fw.on_flush_result(true);
    assert!(step.error.is_none());
    assert_eq!(step.next_flush_secs, 30);
    assert_eq!(fw.pending_copy(), Vec::<u8>::new());
}

#[test]
fn poller_publishes_tick_on_success() {
    let actor = TickerActor {
        ticker: "AAPL".to_string(),
        quotes_from: 0,
        quotes_to: 86_400,
    };
    let (ev, delay) = actor.handle_tick(Ok("the line".to_string()));
    assert_eq!(delay, POLL_INTERVAL_SECS);
    match ev {
        BusEvent::Tick(t) => assert_eq!(t.0, "the line"),
        _ => panic!("success must publish a tick event"),
    }
}

#[test]
fn poller_publishes_tagged_error_on_failure() {
    let actor = TickerActor {
        ticker: "AAPL".to_string(),
        quotes_from: 0,
        quotes_to: 86_400,
    };
    let (ev, delay) = actor.handle_tick(Err("no quotes".to_string()));
    assert_eq!(delay, POLL_INTERVAL_SECS);
    match ev {
        BusEvent::Error(e) => assert_eq!(e.0, "AAPL|no quotes"),
        _ => panic!("failure must publish an error event"),
    }
}

#[test]
fn error_sink_formats_prefixed_line() {
    let actor = ErrorActor("Error:".to_string());
    let line = actor.format_line(&PublishError("AAA|cause".to_string()));
    assert_eq!(line, "Error:::AAA|cause");
}

#[test]
fn unit_subscriptions() {
    let console = PublisherActor;
    assert_eq!(console.subscriptions(), vec![EventKind::Tick]);
    let errors = ErrorActor("Error:".to_string());
    assert_eq!(errors.subscriptions(), vec![EventKind::Error]);
}

#[test]
fn supervisor_restarts_only_crashed_units() {
    assert!(supervisor_restarts(UnitState::Crashed));
    assert!(!supervisor_restarts(UnitState::Stopped));
    assert!(!supervisor_restarts(UnitState::Running));
    assert!(!supervisor_restarts(UnitState::Created));
    assert!(!supervisor_restarts(UnitState::Starting));
}
