use nico_api::fields::Fields;
use nico_api::line::LogLine;
use nico_api::channel::Taken;
use nico_api::logs::{
    line_event, live_event, stream, unavailable_text, Received, Session, Step, StreamReply,
};
use nico_api::stream::LogStream;

fn line(text: &str) -> LogLine {
    LogLine {
        timestamp: "2026-01-01T00:00:00+00:00".to_string(),
        level: "INFO",
        target: "t".to_string(),
        message: text.to_string(),
        fields: Fields::new(),
        location: None,
        span_id: None,
    }
}

/// What a viewer is shown until nothing is pending, with the message of a line in place of
/// its JSON.
fn shown(
    log_stream: &LogStream,
    rx: &mut tokio::sync::broadcast::Receiver<std::sync::Arc<LogLine>>,
    session: &mut Session,
) -> Vec<String> {
    let mut shown: Vec<String> = Vec::new();
    loop {
        let frame = match session.step() {
            Step::Replay(line) => Some(line_event(Some(line.message.clone()))),
            Step::Receive => match log_stream.try_recv(rx) {
                Taken::Line(line) => session.receive(Received::Line(Some(line.message.clone()))),
                Taken::Lagged(skipped) => session.receive(Received::Lagged(skipped)),
                Taken::Closed => session.receive(Received::Closed),
                Taken::Empty => None,
            },
            Step::End => None,
        };
        match frame {
            Some(frame) => shown.push(match frame.event {
                Some(event) => format!("{event} {}", frame.data),
                None => frame.data,
            }),
            None => return shown,
        }
    }
}

#[test]
fn unknown_source_is_not_found() {
    let log_stream = LogStream::new(4, 4);
    for (source, expected) in [
        ("scout", "log source \"scout\" is not available yet"),
        ("", "log source \"\" is not available yet"),
        ("API", "log source \"API\" is not available yet"),
        ("a\"b\n", "log source \"a\\\"b\\n\" is not available yet"),
    ] {
        match stream(&log_stream, source) {
            StreamReply::Unavailable { status, body } => {
                assert_eq!(status, 404);
                assert_eq!(body, expected);
            }
            StreamReply::Opened { .. } => panic!("{source} is no source"),
        }
    }
    assert_eq!(unavailable_text("'x'"), "log source 'x' is not available yet");
}

#[test]
fn viewer_is_shown_the_backlog_and_then_live_lines() {
    let mut log_stream = LogStream::new(8, 2);
    for text in ["a", "b", "c"] {
        log_stream.publish(line(text));
    }
    match stream(&log_stream, "api") {
        StreamReply::Opened { mut rx, mut session } => {
            log_stream.publish(line("d"));
            assert_eq!(shown(&log_stream, &mut rx, &mut session), ["b", "c", "d"]);
            assert!(matches!(session.step(), Step::Receive));
        }
        StreamReply::Unavailable { .. } => panic!("api is a source"),
    }
}

#[test]
fn frames_carry_json_or_nothing() {
    let frame = line_event(Some("{}".to_string()));
    assert_eq!(frame.event, None);
    assert_eq!(frame.data, "{}");
    let frame = line_event(None);
    assert_eq!(frame.event, None);
    assert_eq!(frame.data, "");
}

#[test]
fn live_frames() {
    let frame = live_event(Received::Line(Some("{\"a\":1}".to_string()))).unwrap();
    assert_eq!(frame.event, None);
    assert_eq!(frame.data, "{\"a\":1}");
    let frame = live_event(Received::Lagged(120)).unwrap();
    assert_eq!(frame.event, Some("lag"));
    assert_eq!(frame.data, "120");
    assert!(live_event(Received::Closed).is_none());
}

#[test]
fn lines_are_shown_or_counted_as_missed() {
    let mut log_stream = LogStream::new(4, 2);
    log_stream.publish(line("before"));
    match stream(&log_stream, "api") {
        StreamReply::Opened { mut rx, mut session } => {
            log_stream.publish(line("0"));
            assert_eq!(shown(&log_stream, &mut rx, &mut session), ["before", "0"]);
            for i in 1..8 {
                log_stream.publish(line(&i.to_string()));
            }
            assert_eq!(
                shown(&log_stream, &mut rx, &mut session),
                ["lag 3", "4", "5", "6", "7"]
            );
            log_stream.publish(line("8"));
            assert_eq!(shown(&log_stream, &mut rx, &mut session), ["8"]);
        }
        StreamReply::Unavailable { .. } => panic!("api is a source"),
    }
}

#[test]
fn session_ends_when_the_subscription_closes() {
    match stream(&LogStream::new(4, 2), "api") {
        StreamReply::Opened { mut session, .. } => {
            assert!(matches!(session.step(), Step::Receive));
            assert_eq!(session.receive(Received::Lagged(2)).unwrap().data, "2");
            assert!(matches!(session.step(), Step::Receive));
            assert!(session.receive(Received::Closed).is_none());
            assert!(matches!(session.step(), Step::End));
            assert!(matches!(session.step(), Step::End));
        }
        StreamReply::Unavailable { .. } => panic!("api is a source"),
    }
}
