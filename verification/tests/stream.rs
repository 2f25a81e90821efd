use nico_api::channel::Taken;
use nico_api::fields::Fields;
use nico_api::layer::{LogLineVisitor, LogStreamLayer, Metadata};
use nico_api::line::LogLine;
use nico_api::stream::{LogStream, BROADCAST_CAPACITY, REPLAY_CAPACITY};
use tokio::sync::broadcast::error::TryRecvError;

fn meta(target: &str, name: &str) -> Metadata {
    Metadata {
        level: "INFO",
        target: target.to_string(),
        name: name.to_string(),
        file: Some("src/main.rs".to_string()),
        line: Some(12),
    }
}

fn message(text: String) -> LogLineVisitor {
    let mut visitor = LogLineVisitor::default();
    visitor.insert("message", text);
    visitor
}

fn line(text: &str) -> LogLine {
    LogLine {
        timestamp: "2026-01-01T00:00:00+00:00".to_string(),
        level: "INFO",
        target: "t".to_string(),
        message: text.to_string(),
        fields: Fields::new(),
        location: None,
        span_id: None,
    }
}

fn replayed(stream: &LogStream) -> Vec<String> {
    stream.recent().iter().map(|line| line.message.clone()).collect()
}

#[test]
fn captures_event_level_target_message_and_fields() {
    let mut layer = LogStreamLayer::new(LogStream::new(16, 8));
    let mut rx = layer.stream.subscribe();

    let mut visitor = LogLineVisitor::default();
    visitor.record_i64("answer", 42);
    visitor.insert("message", "hello world".to_string());
    layer.on_event(meta("test_target", "event"), visitor, &Vec::new());

    let line = rx.try_recv().expect("a line should have been broadcast");
    assert_eq!(line.level, "INFO");
    assert_eq!(line.target, "test_target");
    assert_eq!(line.message, "hello world");
    assert_eq!(line.fields.get("answer").map(String::as_str), Some("42"));
    assert_eq!(line.span_id, None);

    // The same line is retained for replay-on-connect.
    let recent = layer.stream.recent();
    assert_eq!(recent.len(), 1);
    assert_eq!(recent[0].message, "hello world");
}

#[test]
fn replay_buffer_drops_oldest_at_capacity() {
    let mut layer = LogStreamLayer::new(LogStream::new(8, 3));

    for i in 0..5 {
        layer.on_event(meta("t", "event"), message(format!("line {i}")), &Vec::new());
    }

    let recent = layer.stream.recent();
    assert_eq!(recent.len(), 3, "ring buffer should cap at replay_capacity");
    assert_eq!(recent[0].message, "line 2");
    assert_eq!(recent[2].message, "line 4");
}

#[test]
fn carries_span_id_on_events_and_emits_span_summary() {
    let mut layer = LogStreamLayer::new(LogStream::new(32, 16));
    let mut rx = layer.stream.subscribe();

    let mut attrs = LogLineVisitor::default();
    attrs.record_str("span_id", "0xabc");
    attrs.record_str("http_url", "/x");
    let span = LogStreamLayer::on_new_span(attrs);
    layer.on_event(
        meta("t", "event"),
        message("inside span".to_string()),
        &vec![Some(span.clone())],
    );
    layer.on_close(meta("t", "request"), Some(&span));

    // The event inside the span carries the span's id.
    let event_line = rx.try_recv().expect("event line");
    assert_eq!(event_line.message, "inside span");
    assert_eq!(event_line.span_id.as_deref(), Some("0xabc"));

    // Closing the span produces a SPAN summary line carrying its fields.
    let span_line = rx.try_recv().expect("span summary line");
    assert_eq!(span_line.level, "SPAN");
    assert_eq!(span_line.message, "request");
    assert_eq!(span_line.span_id.as_deref(), Some("0xabc"));
    assert_eq!(
        span_line.fields.get("http_url").map(String::as_str),
        Some("/x")
    );
    assert!(span_line.fields.contains_key("elapsed_ms"));
    assert!(!span_line.fields.contains_key("span_id"));
}

#[test]
fn new_stream_has_nothing_to_replay() {
    let stream = LogStream::new(16, 8);
    assert!(stream.recent().is_empty());
    assert!(matches!(stream.subscribe().try_recv(), Err(TryRecvError::Empty)));
    // No room for replay is no obstacle as long as nothing is published.
    assert!(LogStream::new(1, 0).recent().is_empty());
}

#[test]
fn replay_keeps_all_until_full_and_then_the_latest() {
    let mut stream = LogStream::new(4, 2);
    stream.publish(line("a"));
    assert_eq!(replayed(&stream), ["a"]);
    stream.publish(line("b"));
    assert_eq!(replayed(&stream), ["a", "b"]);
    stream.publish(line("c"));
    assert_eq!(replayed(&stream), ["b", "c"]);

    let mut single = LogStream::new(4, 1);
    single.publish(line("a"));
    single.publish(line("b"));
    assert_eq!(replayed(&single), ["b"]);
}

#[test]
fn subscribers_receive_what_follows_their_subscription() {
    let mut stream = LogStream::new(16, 8);
    stream.publish(line("before"));
    let mut first = stream.subscribe();
    stream.publish(line("one"));
    let mut second = stream.subscribe();
    stream.publish(line("two"));

    assert_eq!(first.try_recv().unwrap().message, "one");
    assert_eq!(first.try_recv().unwrap().message, "two");
    assert!(matches!(first.try_recv(), Err(TryRecvError::Empty)));
    assert_eq!(second.try_recv().unwrap().message, "two");
    assert!(matches!(second.try_recv(), Err(TryRecvError::Empty)));
    assert_eq!(replayed(&stream), ["before", "one", "two"]);
}

#[test]
fn slow_subscriber_lags_behind_the_rounded_capacity() {
    // Three is rounded up to four.
    let mut stream = LogStream::new(3, 2);
    let mut rx = stream.subscribe();
    for i in 0..6 {
        stream.publish(line(&format!("line {i}")));
    }
    assert_eq!(rx.try_recv().unwrap_err(), TryRecvError::Lagged(2));
    assert_eq!(rx.try_recv().unwrap().message, "line 2");
}

#[test]
fn power_of_two_capacity_is_kept() {
    let mut stream = LogStream::new(4, 1);
    let mut rx = stream.subscribe();
    for i in 0..4 {
        stream.publish(line(&format!("line {i}")));
    }
    assert_eq!(rx.try_recv().unwrap().message, "line 0");
    stream.publish(line("line 4"));
    stream.publish(line("line 5"));
    assert_eq!(rx.try_recv().unwrap_err(), TryRecvError::Lagged(1));
    assert_eq!(rx.try_recv().unwrap().message, "line 2");
}

#[test]
fn dropping_the_stream_closes_subscriptions() {
    let mut stream = LogStream::new(4, 4);
    let mut rx = stream.subscribe();
    stream.publish(line("last"));
    drop(stream);
    assert_eq!(rx.try_recv().unwrap().message, "last");
    assert!(matches!(rx.try_recv(), Err(TryRecvError::Closed)));
}

#[test]
fn default_capacities() {
    assert_eq!(BROADCAST_CAPACITY, 1024);
    assert_eq!(REPLAY_CAPACITY, 500);

    let mut stream = LogStream::default();
    let mut rx = stream.subscribe();
    for i in 0..1025 {
        stream.publish(line(&format!("line {i}")));
    }
    let recent = replayed(&stream);
    assert_eq!(recent.len(), 500);
    assert_eq!(recent[0], "line 525");
    assert_eq!(recent[499], "line 1024");
    assert_eq!(rx.try_recv().unwrap_err(), TryRecvError::Lagged(1));
    assert_eq!(rx.try_recv().unwrap().message, "line 1");
}

#[test]
fn stream_without_ring_buffer_still_broadcasts() {
    let mut stream = LogStream::new(4, 4);
    stream.publish(line("kept"));
    let mut rx = stream.subscribe();
    stream.lose_replay();
    assert!(stream.recent().is_empty());
    stream.publish(line("sent"));
    assert!(stream.recent().is_empty());
    assert_eq!(rx.try_recv().unwrap().message, "sent");
}

#[test]
fn replay_and_broadcast_share_one_line() {
    let mut stream = LogStream::new(4, 4);
    let mut rx = stream.subscribe();
    stream.publish(line("shared"));
    assert!(std::sync::Arc::ptr_eq(&rx.try_recv().unwrap(), &stream.recent()[0]));
}

#[test]
fn receiving_without_waiting() {
    let mut stream = LogStream::new(2, 1);
    stream.publish(line("before"));
    let mut rx = stream.subscribe();
    let mut other = stream.subscribe();
    assert!(matches!(stream.try_recv(&mut rx), Taken::Empty));
    stream.publish(line("one"));
    stream.publish(line("two"));
    assert!(matches!(stream.try_recv(&mut rx), Taken::Line(line) if line.message == "one"));
    assert!(matches!(stream.try_recv(&mut rx), Taken::Line(line) if line.message == "two"));
    assert!(matches!(stream.try_recv(&mut rx), Taken::Empty));
    stream.publish(line("three"));
    // What one subscriber has received makes no difference to another.
    assert!(matches!(stream.try_recv(&mut other), Taken::Lagged(1)));
    drop(rx);
    let _late = stream.subscribe();
    assert!(matches!(stream.try_recv(&mut other), Taken::Line(line) if line.message == "two"));
    assert!(matches!(stream.try_recv(&mut other), Taken::Line(line) if line.message == "three"));
    assert!(matches!(stream.try_recv(&mut other), Taken::Empty));
}

#[test]
fn lines_that_nobody_could_receive_are_no_lag() {
    let mut stream = LogStream::new(1, 1);
    for i in 0..5 {
        stream.publish(line(&i.to_string()));
    }
    let mut rx = stream.subscribe();
    assert!(matches!(stream.try_recv(&mut rx), Taken::Empty));
    for i in 5..8 {
        stream.publish(line(&i.to_string()));
    }
    assert!(matches!(stream.try_recv(&mut rx), Taken::Lagged(2)));
    assert!(matches!(stream.try_recv(&mut rx), Taken::Line(line) if line.message == "7"));
}
