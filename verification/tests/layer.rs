use nico_api::fields::Fields;
use nico_api::layer::{
    enclosing_span_id, event_line, event_line_now, location_of, span_line, span_line_now,
    LogLineVisitor, LogStreamLayer, Metadata, SpanData,
};
use nico_api::stream::LogStream;

fn meta(file: Option<&str>, line: Option<u32>) -> Metadata {
    Metadata {
        level: "WARN",
        target: "api::web".to_string(),
        name: "request".to_string(),
        file: file.map(|file| file.to_string()),
        line,
    }
}

fn span(fields: &[(&str, &str)]) -> SpanData {
    let mut visitor = LogLineVisitor::default();
    for (field, value) in fields {
        visitor.record_str(field, value);
    }
    LogStreamLayer::on_new_span(visitor)
}

fn pairs(fields: &Fields) -> Vec<(&str, &str)> {
    fields.entries().iter().map(|(key, value)| (key.as_str(), value.as_str())).collect()
}

#[test]
fn location_is_file_and_line() {
    assert_eq!(location_of(&meta(Some("src/a.rs"), Some(70))).as_deref(), Some("src/a.rs:70"));
    assert_eq!(location_of(&meta(Some("src/a.rs"), Some(0))).as_deref(), Some("src/a.rs:0"));
    assert_eq!(
        location_of(&meta(Some("src/a.rs"), Some(u32::MAX))).as_deref(),
        Some("src/a.rs:4294967295")
    );
    assert_eq!(location_of(&meta(Some("src/a.rs"), None)).as_deref(), Some("src/a.rs"));
    assert_eq!(location_of(&meta(None, Some(70))), None);
    assert_eq!(location_of(&meta(None, None)), None);
}

#[test]
fn visitor_writes_values_as_text() {
    let mut visitor = LogLineVisitor::default();
    visitor.record_str("s", "text");
    visitor.record_bool("yes", true);
    visitor.record_bool("no", false);
    visitor.record_i64("min", i64::MIN);
    visitor.record_i64("minus", -7);
    visitor.record_i64("max", i64::MAX);
    visitor.record_u64("big", u64::MAX);
    visitor.record_u64("zero", 0);
    assert_eq!(visitor.message, None);
    assert_eq!(
        pairs(&visitor.fields),
        [
            ("big", "18446744073709551615"),
            ("max", "9223372036854775807"),
            ("min", "-9223372036854775808"),
            ("minus", "-7"),
            ("no", "false"),
            ("s", "text"),
            ("yes", "true"),
            ("zero", "0"),
        ]
    );
}

#[test]
fn message_is_kept_apart_from_the_fields() {
    let mut visitor = LogLineVisitor::default();
    visitor.insert("message", "hello".to_string());
    visitor.record_u64("messages", 3);
    visitor.record_u64("message", 5);
    assert_eq!(visitor.message.as_deref(), Some("5"));
    assert_eq!(pairs(&visitor.fields), [("messages", "3")]);
}

#[test]
fn last_recorded_value_counts() {
    let mut visitor = LogLineVisitor::default();
    visitor.record_str("k", "first");
    visitor.record_str("k", "second");
    assert_eq!(pairs(&visitor.fields), [("k", "second")]);
}

#[test]
fn recorded_values_are_added_to_a_span() {
    let mut data = span(&[("span_id", "0x1"), ("status", "pending"), ("url", "/x")]);
    let opened_at = data.opened_at;
    let mut values = LogLineVisitor::default();
    values.record_str("status", "ok");
    values.record_u64("sql", 4);
    values.record_str("message", "dropped");
    LogStreamLayer::on_record(&mut data, values);
    assert_eq!(
        pairs(&data.fields),
        [("span_id", "0x1"), ("sql", "4"), ("status", "ok"), ("url", "/x")]
    );
    assert_eq!(data.opened_at, opened_at);
}

#[test]
fn nearest_span_id_is_found() {
    let plain = span(&[("url", "/x")]);
    let inner = span(&[("span_id", "inner")]);
    let outer = span(&[("span_id", "outer")]);
    assert_eq!(enclosing_span_id(&vec![]), None);
    assert_eq!(enclosing_span_id(&vec![None, Some(plain.clone())]), None);
    assert_eq!(
        enclosing_span_id(&vec![
            None,
            Some(plain),
            Some(inner.clone()),
            Some(outer.clone())
        ])
        .as_deref(),
        Some("inner")
    );
    assert_eq!(enclosing_span_id(&vec![Some(outer), Some(inner)]).as_deref(), Some("outer"));
}

#[test]
fn event_without_message_has_an_empty_one() {
    let mut visitor = LogLineVisitor::default();
    visitor.record_bool("ok", true);
    let line = event_line("now".to_string(), meta(Some("a.rs"), Some(1)), visitor, &vec![]);
    assert_eq!(line.timestamp, "now");
    assert_eq!(line.level, "WARN");
    assert_eq!(line.target, "api::web");
    assert_eq!(line.message, "");
    assert_eq!(pairs(&line.fields), [("ok", "true")]);
    assert_eq!(line.location.as_deref(), Some("a.rs:1"));
    assert_eq!(line.span_id, None);
}

#[test]
fn span_summary_has_duration_and_no_span_id_field() {
    let data = span(&[("span_id", "0x1"), ("elapsed_ms", "never"), ("url", "/x")]);
    let line = span_line("now".to_string(), 1234, meta(None, None), &data);
    assert_eq!(line.timestamp, "now");
    assert_eq!(line.level, "SPAN");
    assert_eq!(line.target, "api::web");
    assert_eq!(line.message, "request");
    assert_eq!(pairs(&line.fields), [("elapsed_ms", "1234"), ("url", "/x")]);
    assert_eq!(line.location, None);
    assert_eq!(line.span_id.as_deref(), Some("0x1"));

    let line = span_line("now".to_string(), u128::MAX, meta(None, None), &span(&[]));
    assert_eq!(
        pairs(&line.fields),
        [("elapsed_ms", "340282366920938463463374607431768211455")]
    );
    assert_eq!(line.span_id, None);
}

#[test]
fn closing_a_span_without_data_publishes_nothing() {
    let mut layer = LogStreamLayer::new(LogStream::new(4, 4));
    layer.on_close(meta(None, None), None);
    assert!(layer.stream.recent().is_empty());
}

#[test]
fn summary_times_the_span() {
    let mut layer = LogStreamLayer::new(LogStream::new(4, 4));
    let data = span(&[]);
    let opened = std::time::Instant::now();
    while opened.elapsed().as_millis() < 30 {}
    layer.on_close(meta(None, None), Some(&data));
    let line = &layer.stream.recent()[0];
    let elapsed: u128 = line.fields.get("elapsed_ms").unwrap().parse().unwrap();
    assert!(30 <= elapsed && elapsed < 20_000);
}

#[test]
fn lines_are_stamped_in_utc() {
    let before = chrono::Utc::now();
    let mut layer = LogStreamLayer::new(LogStream::new(4, 4));
    layer.on_event(meta(None, None), LogLineVisitor::default(), &vec![]);
    let after = chrono::Utc::now();
    let line = &layer.stream.recent()[0];
    let form: String =
        line.timestamp.chars().map(|c| if c.is_ascii_digit() { '0' } else { c }).collect();
    assert!(["", ".000", ".000000", ".000000000"]
        .iter()
        .any(|fraction| form == format!("0000-00-00T00:00:00{fraction}+00:00")));
    assert!(line.timestamp.ends_with("+00:00"));
    let stamp = chrono::DateTime::parse_from_rfc3339(&line.timestamp).unwrap();
    assert!(before <= stamp && stamp <= after);
}

#[test]
fn cloned_line_says_the_same() {
    let data = span(&[("span_id", "0x1"), ("url", "/x")]);
    let line = span_line("now".to_string(), 5, meta(Some("a.rs"), Some(3)), &data);
    let copy = line.clone();
    assert_eq!(copy.timestamp, line.timestamp);
    assert_eq!(copy.level, line.level);
    assert_eq!(copy.target, line.target);
    assert_eq!(copy.message, line.message);
    assert_eq!(pairs(&copy.fields), pairs(&line.fields));
    assert_eq!(copy.location.as_deref(), Some("a.rs:3"));
    assert_eq!(copy.span_id.as_deref(), Some("0x1"));
}

#[test]
fn lines_observed_now_are_stamped_and_timed() {
    let data = span(&[("span_id", "0x1")]);
    let before = chrono::Utc::now();
    let event = event_line_now(meta(None, None), LogLineVisitor::default(), &vec![Some(data.clone())]);
    let summary = span_line_now(meta(None, None), &data);
    let after = chrono::Utc::now();
    for line in [&event, &summary] {
        let stamp = chrono::DateTime::parse_from_rfc3339(&line.timestamp).unwrap();
        assert!(before <= stamp && stamp <= after);
        assert_eq!(line.span_id.as_deref(), Some("0x1"));
    }
    assert_eq!(event.level, "WARN");
    assert_eq!(summary.level, "SPAN");
    assert!(summary.fields.get("elapsed_ms").unwrap().parse::<u128>().unwrap() < 20_000);
}
