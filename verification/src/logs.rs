//! Live log viewer.
//!
//! A viewer that opens the stream of a log source is shown the recent lines first,
//! and then every line as it is published. Only the `api` source is wired in for now.

use crate::channel;
use crate::channel::Yield;
use crate::line;
use crate::line::LogLine;
use crate::stream;
use crate::stream::LogStream;
use crate::text;
use std::collections::VecDeque;
use std::sync::Arc;
use tokio::sync::broadcast;
use vstd::prelude::*;

verus! {

/// HTTP status of a log source that does not exist.
pub const NOT_FOUND: u16 = 404;

/// `source` as std's `Debug` writes a `str`: in double quotes, with escapes.
pub uninterp spec fn debug_text(source: Seq<char>) -> Seq<char>;

/// The `Debug` of std on a `str`, through `format`. What it escapes, and how, is left
/// to std: all that is claimed is that the text depends on the characters of `source`
/// alone.
#[verifier::external_body]
fn debug_of(source: &str) -> (quoted: String)
    ensures
        quoted@ == debug_text(source@),
{
    format!("{source:?}")
}

/// What a request for a source that does not exist is told.
pub open spec fn unavailable(quoted: Seq<char>) -> Seq<char> {
    "log source "@ + quoted + " is not available yet"@
}

/// What a request for a source that does not exist is told, given the name of the
/// source in quotes.
pub fn unavailable_text(quoted: &str) -> (body: String)
    ensures
        body@ == unavailable(quoted@),
        body@ == "log source "@ + quoted@ + " is not available yet"@,
{
    let mut body = "log source ".to_string();
    body.append(quoted);
    body.append(" is not available yet");
    body
}

/// `lines` as a queue, first in front.
fn queue(lines: Vec<Arc<LogLine>>) -> (queued: VecDeque<Arc<LogLine>>)
    ensures
        queued@ == lines@,
{
    let mut rest = lines;
    let mut queued: VecDeque<Arc<LogLine>> = VecDeque::new();
    loop
        invariant
            rest@ + queued@ == lines@,
        ensures
            rest@.len() == 0,
        decreases rest@.len(),
    {
        let ghost before = rest@ + queued@;
        match rest.pop() {
            Some(line) => {
                queued.push_front(line);
                assert(rest@ + queued@ =~= before);
            },
            None => {
                break ;
            },
        }
    }
    assert(rest@ + queued@ =~= queued@);
    queued
}

/// The answer to a request for the stream of a log source.
#[derive(Debug)]
pub enum StreamReply {
    /// The source does not exist.
    Unavailable { status: u16, body: String },
    /// The viewer is shown what `session` says, with what it receives from `rx`.
    Opened { rx: broadcast::Receiver<Arc<LogLine>>, session: Session },
}

/// Handle a request to stream the lines of `source`.
pub fn stream(log_stream: &LogStream, source: &str) -> (reply: StreamReply)
    requires
        log_stream.wf(),
    ensures
        match reply {
            StreamReply::Unavailable { status, body } => {
                &&& source@ != "api"@
                &&& status == NOT_FOUND
                &&& status == 404
                &&& body@ == unavailable(debug_text(source@))
                &&& body@ == "log source "@ + debug_text(source@) + " is not available yet"@
            },
            StreamReply::Opened { rx, session } => {
                &&& source@ == "api"@
                &&& log_stream.feeds(rx)
                &&& channel::lines_before(rx) == log_stream.published()
                &&& channel::lines_past(rx) == log_stream.published().len()
                &&& session.backlog() == log_stream.replay()
                &&& session.backlog().len() == if log_stream.replay_lost() {
                    0
                } else if log_stream.published().len() < log_stream.replay_limit() {
                    log_stream.published().len()
                } else {
                    log_stream.replay_limit()
                }
                &&& forall|i: int|
                    0 <= i < session.backlog().len() ==> #[trigger] session.backlog()[i]
                        == log_stream.published()[log_stream.published().len()
                        - session.backlog().len() + i]
                &&& !session.ended()
            },
        },
{
    if !text::same_text(source, "api") {
        let quoted = debug_of(source);
        return StreamReply::Unavailable {
            status: NOT_FOUND,
            body: unavailable_text(quoted.as_str()),
        };
    }
    // Subscribe before snapshotting the backlog so that no line slips through the gap
    // between the two.
    let rx = log_stream.subscribe();
    let session = Session { backlog: queue(log_stream.recent()), ended: false };
    StreamReply::Opened { rx, session }
}

/// No line slips through the gap between backlog and subscription: what was published
/// from the first line of the backlog on, up to any later time, is the backlog followed by
/// what was published after the viewer subscribed.
pub proof fn backlog_meets_subscription(
    rx: broadcast::Receiver<Arc<LogLine>>,
    backlog: Seq<LogLine>,
    limit: nat,
    published_later: Seq<LogLine>,
)
    requires
        backlog == stream::keep_last(channel::lines_before(rx), limit),
        channel::lines_before(rx).is_prefix_of(published_later),
    ensures
        published_later.skip(channel::lines_before(rx).len() - backlog.len())
            == backlog + published_later.skip(channel::lines_before(rx).len() as int),
{
    let before = channel::lines_before(rx);
    assert(before =~= published_later.take(before.len() as int));
    assert(published_later.skip(before.len() - backlog.len()) =~= backlog
        + published_later.skip(before.len() as int));
}

/// A frame of a Server-Sent Events stream.
#[derive(Debug)]
pub struct Frame {
    /// The kind of event; a frame without one carries a log line.
    pub event: Option<&'static str>,
    pub data: String,
}

/// What a frame carries.
#[verifier::ext_equal]
pub struct FrameView {
    pub event: Option<Seq<char>>,
    pub data: Seq<char>,
}

impl View for Frame {
    type V = FrameView;

    open spec fn view(&self) -> FrameView {
        FrameView {
            event: match self.event {
                Some(event) => Some(event@),
                None => None,
            },
            data: self.data@,
        }
    }
}

/// The frame for a log line: its JSON, or no data where it has none.
pub open spec fn line_frame(json: Option<Seq<char>>) -> FrameView {
    FrameView {
        event: None,
        data: match json {
            Some(json) => json,
            None => Seq::empty(),
        },
    }
}

/// Puts a log line into a data frame (one JSON object per event), given its JSON. A
/// line that could not be serialized leaves the frame empty.
pub fn line_event(json: Option<String>) -> (frame: Frame)
    ensures
        frame@ == line_frame(line::optional_text(json)),
        frame.event is None,
        json matches Some(text) ==> frame.data@ == text@,
        json is None ==> frame.data@.len() == 0,
{
    Frame {
        event: None,
        data: match json {
            Some(json) => json,
            None => String::new(),
        },
    }
}

/// What a frame carries is what it holds.
pub proof fn frame_carries_what_it_holds(frame: Frame)
    ensures
        frame@.data == frame.data@,
        frame.event is None <==> frame@.event is None,
        frame.event matches Some(kind) ==> frame@.event == Some(kind@),
{
}

/// The frame for a line carries the whole of its JSON, whatever that is, and no kind of event.
/// A line without JSON has a frame without data.
pub proof fn line_frame_carries_the_json(json: Seq<char>)
    ensures
        line_frame(Some(json)).data == json,
        line_frame(Some(json)).event is None,
        line_frame(None).data.len() == 0,
        line_frame(None).event is None,
{
}

/// What [`line_event`] makes of a JSON text has that text as its data, and no kind of event.
pub proof fn line_is_sent_as_its_json(json: String, frame: Frame)
    requires
        call_ensures(line_event, (Some(json),), frame),
    ensures
        frame.data@ == json@,
        frame.event is None,
{
}

/// A line that could not be serialized is sent without data, and without a kind of event.
pub proof fn line_without_json_is_sent_empty(frame: Frame)
    requires
        call_ensures(line_event, (None::<String>,), frame),
    ensures
        frame.data@ == Seq::<char>::empty(),
        frame.event is None,
{
}

/// Two lines are sent in the same frame only if their JSON is the same.
pub proof fn different_json_in_different_frames(a: String, b: String, of_a: Frame, of_b: Frame)
    requires
        call_ensures(line_event, (Some(a),), of_a),
        call_ensures(line_event, (Some(b),), of_b),
    ensures
        a@ != b@ <==> of_a.data@ != of_b.data@,
        a@ != b@ <==> of_a@ != of_b@,
{
    frame_carries_what_it_holds(of_a);
    frame_carries_what_it_holds(of_b);
}

/// Requests for two sources that do not exist are told the same only if the names, in quotes,
/// are the same. What they are told holds the name between two fixed texts.
pub proof fn unavailable_source_is_named(a: &str, b: &str, of_a: String, of_b: String)
    requires
        call_ensures(unavailable_text, (a,), of_a),
        call_ensures(unavailable_text, (b,), of_b),
    ensures
        of_a@.len() == "log source "@.len() + a@.len() + " is not available yet"@.len(),
        of_a@.take("log source "@.len() as int) == "log source "@,
        of_a@.skip("log source "@.len() as int).take(a@.len() as int) == a@,
        of_a@.skip(("log source "@.len() + a@.len()) as int) == " is not available yet"@,
        a@ != b@ <==> of_a@ != of_b@,
{
    let front = "log source "@;
    let end = " is not available yet"@;
    assert(of_a@.take(front.len() as int) =~= front);
    assert(of_a@.skip(front.len() as int).take(a@.len() as int) =~= a@);
    assert(of_b@.skip(front.len() as int).take(b@.len() as int) =~= b@);
    assert(of_a@.skip((front.len() + a@.len()) as int) =~= end);
}

/// What a subscription gives.
#[derive(Debug)]
pub enum Received {
    /// A line was published. Here it is as JSON, if it could be serialized.
    Line(Option<String>),
    /// The subscriber fell behind the bounded channel, and missed as many lines.
    Lagged(u64),
    /// No further lines will be published.
    Closed,
}

/// The frame that a viewer is sent for what its subscription gave. There is none when
/// the stream has ended.
pub open spec fn live_frame(received: Received) -> Option<FrameView> {
    match received {
        Received::Line(json) => Some(line_frame(line::optional_text(json))),
        Received::Lagged(skipped) => Some(
            FrameView { event: Some("lag"@), data: text::decimal(skipped as nat) },
        ),
        Received::Closed => None,
    }
}

/// The frame that a viewer is sent for what its subscription gave, or `None` to end the
/// stream.
pub fn live_event(received: Received) -> (frame: Option<Frame>)
    ensures
        match frame {
            Some(frame) => live_frame(received) == Some(frame@),
            None => live_frame(received) is None,
        },
        frame is None <==> received is Closed,
        frame matches Some(sent) ==> match received {
            Received::Line(json) => {
                &&& sent.event is None
                &&& json matches Some(text) ==> sent.data@ == text@
                &&& json is None ==> sent.data@.len() == 0
            },
            Received::Lagged(skipped) => {
                &&& sent.event matches Some(kind) && kind@ == "lag"@
                &&& sent.data@ == text::decimal(skipped as nat)
                &&& text::number(sent.data@) == skipped
            },
            Received::Closed => false,
        },
{
    match received {
        Received::Line(json) => Some(line_event(json)),
        // Tell the viewer how many lines it missed rather than dropping the connection.
        Received::Lagged(skipped) => Some(
            Frame { event: Some("lag"), data: text::decimal_text(skipped as u128) },
        ),
        Received::Closed => None,
    }
}

/// A viewer is cut off only when no further lines will be published: one that fell behind
/// is told so, in a frame that no log line has.
pub proof fn lagging_keeps_the_connection(received: Received)
    ensures
        live_frame(received) is None <==> received is Closed,
        live_frame(received) matches Some(frame) ==> (frame.event is Some <==> received is Lagged),
{
}

/// What [`live_event`] sends for a line is its JSON, for lines that were missed their number,
/// under a kind of its own, and nothing once the subscription has closed.
pub proof fn viewer_is_sent_what_was_received(received: Received, sent: Option<Frame>)
    requires
        call_ensures(live_event, (received,), sent),
    ensures
        sent is None <==> received is Closed,
        received matches Received::Line(Some(json)) ==> sent->0.data@ == json@
            && sent->0.event is None,
        received matches Received::Line(None) ==> sent->0.data@ == Seq::<char>::empty()
            && sent->0.event is None,
        received matches Received::Lagged(skipped) ==> {
            &&& sent->0.event matches Some(kind) && kind@ == "lag"@
            &&& text::number(sent->0.data@) == skipped
            &&& forall|i: int|
                0 <= i < sent->0.data@.len() ==> '0' <= #[trigger] sent->0.data@[i] <= '9'
            &&& skipped > 0 ==> sent->0.data@[0] != '0'
        },
{
    if let Received::Lagged(skipped) = received {
        text::decimal_reads_back(skipped as nat);
    }
}

/// Two viewers that missed different numbers of lines are told different things.
pub proof fn different_lags_are_told_apart(a: u64, b: u64, of_a: Frame, of_b: Frame)
    requires
        call_ensures(live_event, (Received::Lagged(a),), Some(of_a)),
        call_ensures(live_event, (Received::Lagged(b),), Some(of_b)),
    ensures
        a != b <==> of_a.data@ != of_b.data@,
        of_a.event matches Some(of_lag) && of_lag@ == "lag"@,
{
}

/// How many outcomes come before the subscription closes.
pub open spec fn until_closed(received: Seq<Received>) -> nat
    decreases received.len(),
{
    if received.len() == 0 || received[0] is Closed {
        0
    } else {
        1 + until_closed(received.drop_first())
    }
}

/// The frames for what a subscription gave: one for each outcome, until it closes.
pub open spec fn live_frames(received: Seq<Received>) -> Seq<FrameView> {
    Seq::new(until_closed(received), |i: int| live_frame(received[i])->0)
}

/// The first outcome has the first frame, unless it closes the subscription.
proof fn live_frames_step(first: Received, rest: Seq<Received>)
    ensures
        live_frames(seq![first] + rest) == match live_frame(first) {
            Some(frame) => seq![frame] + live_frames(rest),
            None => Seq::empty(),
        },
{
    let received = seq![first] + rest;
    assert(received.drop_first() =~= rest);
    if live_frame(first) is Some {
        assert forall|i: int| 0 < i < received.len() implies received[i] == rest[i - 1] by {}
        until_closed_is_in_range(rest);
        assert(live_frames(received) =~= seq![live_frame(first)->0] + live_frames(rest));
    } else {
        assert(live_frames(received) =~= Seq::empty());
    }
}

/// The outcomes before the first that closes the subscription are the leading ones that do
/// not.
pub proof fn until_closed_is_in_range(received: Seq<Received>)
    ensures
        until_closed(received) <= received.len(),
        forall|i: int| 0 <= i < until_closed(received) ==> !(#[trigger] received[i] is Closed),
        until_closed(received) < received.len() ==> received[until_closed(received) as int]
            is Closed,
    decreases received.len(),
{
    if received.len() > 0 && !(received[0] is Closed) {
        let rest = received.drop_first();
        until_closed_is_in_range(rest);
        assert forall|i: int| 0 <= i < until_closed(received) implies !(#[trigger] received[i]
            is Closed) by {
            if i > 0 {
                assert(received[i] == rest[i - 1]);
            }
        }
    }
}

/// What is to be done for a viewer next.
#[derive(Debug)]
pub enum Step {
    /// Show a line from before the viewer connected.
    Replay(Arc<LogLine>),
    /// Wait for what the subscription gives.
    Receive,
    /// Nothing: the stream has ended.
    End,
}

/// How far a connected viewer has come: it is shown the lines from before it connected, and
/// then what its subscription gives, until that closes.
#[derive(Debug)]
pub struct Session {
    backlog: VecDeque<Arc<LogLine>>,
    ended: bool,
}

impl Session {
    /// The lines from before the viewer connected that it has yet to be shown, oldest first.
    pub closed spec fn backlog(&self) -> Seq<LogLine> {
        stream::lines_of(self.backlog@)
    }

    /// The subscription has closed.
    pub closed spec fn ended(&self) -> bool {
        self.ended
    }

    /// The frames that the viewer is still to be sent, where `json` is the JSON of each line
    /// and `received` is what the subscription gives: those of the backlog, oldest first, and
    /// then one for each outcome until the subscription closes.
    pub open spec fn frames(
        &self,
        json: spec_fn(LogLine) -> Option<Seq<char>>,
        received: Seq<Received>,
    ) -> Seq<FrameView> {
        if self.ended() {
            Seq::empty()
        } else {
            self.backlog().map_values(|line: LogLine| line_frame(json(line))) + live_frames(
                received,
            )
        }
    }

    /// What is to be done next. A line that is to be shown leaves the backlog, and its frame
    /// comes before all others.
    pub fn step(&mut self) -> (step: Step)
        ensures
            final(self).ended() == old(self).ended(),
            match step {
                Step::Replay(line) => {
                    &&& !old(self).ended()
                    &&& old(self).backlog().len() > 0
                    &&& *line == old(self).backlog()[0]
                    &&& final(self).backlog() == old(self).backlog().drop_first()
                    &&& forall|
                        json: spec_fn(LogLine) -> Option<Seq<char>>,
                        received: Seq<Received>,
                    | #[trigger]
                        old(self).frames(json, received) == seq![line_frame(json(*line))]
                            + final(self).frames(json, received)
                },
                Step::Receive => {
                    &&& !old(self).ended()
                    &&& old(self).backlog().len() == 0
                    &&& final(self).backlog() == old(self).backlog()
                },
                Step::End => old(self).ended() && final(self).backlog() == old(self).backlog(),
            },
    {
        if self.ended {
            return Step::End;
        }
        match self.backlog.pop_front() {
            Some(line) => {
                proof {
                    let before = old(self).backlog();
                    assert(self.backlog() =~= before.drop_first());
                    assert forall|
                        json: spec_fn(LogLine) -> Option<Seq<char>>,
                        received: Seq<Received>,
                    | #[trigger]
                        old(self).frames(json, received) == seq![line_frame(json(*line))]
                            + self.frames(json, received) by {
                        assert(old(self).frames(json, received) =~= seq![line_frame(json(*line))]
                            + self.frames(json, received));
                    }
                }
                Step::Replay(line)
            },
            None => Step::Receive,
        }
    }

    /// The frame for what the subscription gave, or `None` where it has closed. It is due
    /// once the backlog has been shown.
    pub fn receive(&mut self, received: Received) -> (frame: Option<Frame>)
        requires
            !old(self).ended(),
            old(self).backlog().len() == 0,
        ensures
            final(self).backlog() == old(self).backlog(),
            final(self).ended() == (received is Closed),
            match frame {
                Some(frame) => live_frame(received) == Some(frame@),
                None => live_frame(received) is None,
            },
            frame is None <==> received is Closed,
            frame matches Some(sent) ==> match received {
                Received::Line(json) => {
                    &&& sent.event is None
                    &&& json matches Some(text) ==> sent.data@ == text@
                    &&& json is None ==> sent.data@.len() == 0
                },
                Received::Lagged(skipped) => {
                    &&& sent.event matches Some(kind) && kind@ == "lag"@
                    &&& sent.data@ == text::decimal(skipped as nat)
                    &&& text::number(sent.data@) == skipped
                },
                Received::Closed => false,
            },
            forall|json: spec_fn(LogLine) -> Option<Seq<char>>, rest: Seq<Received>|
                old(self).frames(json, seq![received] + rest) == match frame {
                    Some(frame) => seq![frame@] + #[trigger] final(self).frames(json, rest),
                    None => Seq::empty(),
                },
    {
        if let Received::Closed = received {
            self.ended = true;
        }
        let frame = live_event(received);
        proof {
            assert forall|json: spec_fn(LogLine) -> Option<Seq<char>>, rest: Seq<Received>|
                old(self).frames(json, seq![received] + rest) == match frame {
                    Some(frame) => seq![frame@] + #[trigger] self.frames(json, rest),
                    None => Seq::empty(),
                } by {
                live_frames_step(received, rest);
                let shown = old(self).backlog().map_values(|line: LogLine| line_frame(json(line)));
                assert(shown =~= Seq::empty());
                assert(old(self).frames(json, seq![received] + rest) =~= live_frames(
                    seq![received] + rest,
                ));
                assert(!self.ended() ==> self.frames(json, rest) =~= live_frames(rest));
            }
        }
        frame
    }
}

/// A viewer is sent the frames of the backlog, oldest first, and then one frame for each
/// outcome of its subscription up to the first that closes it.
pub proof fn backlog_first_and_then_live(
    session: Session,
    json: spec_fn(LogLine) -> Option<Seq<char>>,
    received: Seq<Received>,
)
    requires
        !session.ended(),
    ensures
        ({
            let frames = session.frames(json, received);
            let shown = session.backlog().len();
            &&& frames.len() == shown + until_closed(received)
            &&& forall|i: int|
                0 <= i < shown ==> #[trigger] frames[i] == line_frame(json(session.backlog()[i]))
            &&& forall|i: int|
                shown <= i < frames.len() ==> Some(#[trigger] frames[i]) == live_frame(
                    received[i - shown],
                )
        }),
{
    until_closed_is_in_range(received);
    assert forall|i: int|
        session.backlog().len() <= i < session.frames(json, received).len() implies Some(
        #[trigger] session.frames(json, received)[i],
    ) == live_frame(received[i - session.backlog().len()]) by {
        assert(!(received[i - session.backlog().len()] is Closed));
    }
}

/// What a viewer is sent, frame by frame: the JSON of each line of the backlog, oldest first;
/// then, for each outcome before the subscription closes, the JSON of a line that was
/// received, or how many lines were missed. A viewer whose subscription has closed is sent
/// nothing.
pub proof fn frames_carry_the_json_of_their_lines(
    session: Session,
    json: spec_fn(LogLine) -> Option<Seq<char>>,
    received: Seq<Received>,
)
    ensures
        ({
            let frames = session.frames(json, received);
            let shown = session.backlog().len();
            if session.ended() {
                frames.len() == 0
            } else {
                &&& shown <= frames.len() <= shown + received.len()
                &&& frames.len() < shown + received.len() ==> received[frames.len() - shown]
                    is Closed
                &&& forall|i: int|
                    0 <= i < shown ==> {
                        &&& (#[trigger] frames[i]).event is None
                        &&& json(session.backlog()[i]) matches Some(text) ==> frames[i].data == text
                        &&& json(session.backlog()[i]) is None ==> frames[i].data.len() == 0
                    }
                &&& forall|i: int|
                    shown <= i < frames.len() ==> {
                        let sent = #[trigger] frames[i];
                        match received[i - shown] {
                            Received::Line(Some(text)) => sent.event is None && sent.data == text@,
                            Received::Line(None) => sent.event is None && sent.data.len() == 0,
                            Received::Lagged(skipped) => sent.event == Some("lag"@)
                                && text::number(sent.data) == skipped,
                            Received::Closed => false,
                        }
                    }
            }
        }),
{
    if !session.ended() {
        backlog_first_and_then_live(session, json, received);
        until_closed_is_in_range(received);
        let frames = session.frames(json, received);
        let shown = session.backlog().len();
        assert forall|i: int| 0 <= i < shown implies {
            &&& (#[trigger] frames[i]).event is None
            &&& json(session.backlog()[i]) matches Some(text) ==> frames[i].data == text
            &&& json(session.backlog()[i]) is None ==> frames[i].data.len() == 0
        } by {
            assert(frames[i] == line_frame(json(session.backlog()[i])));
        }
        assert forall|i: int| shown <= i < frames.len() implies {
            let sent = #[trigger] frames[i];
            match received[i - shown] {
                Received::Line(Some(text)) => sent.event is None && sent.data == text@,
                Received::Line(None) => sent.event is None && sent.data.len() == 0,
                Received::Lagged(skipped) => sent.event == Some("lag"@) && text::number(sent.data)
                    == skipped,
                Received::Closed => false,
            }
        } by {
            assert(Some(frames[i]) == live_frame(received[i - shown]));
            if let Received::Lagged(skipped) = received[i - shown] {
                text::decimal_reads_back(skipped as nat);
            }
        }
    }
}

/// `received` is what a receiver was given, with each line as `json` has it.
pub open spec fn carries(
    received: Seq<Received>,
    given: Seq<Yield>,
    json: spec_fn(LogLine) -> Option<Seq<char>>,
) -> bool {
    &&& received.len() == given.len()
    &&& forall|i: int|
        0 <= i < given.len() ==> match #[trigger] given[i] {
            Yield::Line(line) => received[i] matches Received::Line(text) && line::optional_text(
                text,
            ) == json(line),
            Yield::Lagged(missed) => received[i] matches Received::Lagged(skipped) && skipped
                == missed,
        }
}

/// The first outcomes are what the receiver was given first.
proof fn carries_prefix(
    received: Seq<Received>,
    given: Seq<Yield>,
    json: spec_fn(LogLine) -> Option<Seq<char>>,
    n: int,
)
    requires
        carries(received, given, json),
        0 <= n <= given.len(),
    ensures
        carries(received.take(n), given.take(n), json),
{
    assert forall|i: int| 0 <= i < n implies #[trigger] given.take(n)[i] == given[i] by {}
}

/// How many published lines a frame accounts for: the one that it carries, or the number
/// that it gives as missed.
pub open spec fn frame_weight(frame: FrameView) -> int {
    if frame.event is None {
        1
    } else {
        text::number(frame.data)
    }
}

/// How many published lines the frames account for.
pub open spec fn counted(frames: Seq<FrameView>) -> int
    decreases frames.len(),
{
    if frames.len() == 0 {
        0
    } else {
        counted(frames.drop_last()) + frame_weight(frames.last())
    }
}

/// A viewer is told of every line: those that it is shown and the numbers in its lag frames
/// make up what its receiver was given, frame by frame.
pub proof fn frames_count_every_line(
    received: Seq<Received>,
    given: Seq<Yield>,
    json: spec_fn(LogLine) -> Option<Seq<char>>,
)
    requires
        carries(received, given, json),
    ensures
        live_frames(received).len() == given.len(),
        forall|i: int|
            0 <= i < given.len() ==> (#[trigger] given[i] matches Yield::Line(line)
                ==> live_frames(received)[i] == line_frame(json(line))),
        counted(live_frames(received)) == stream::total_weight(given),
    decreases given.len(),
{
    assert forall|i: int| 0 <= i < received.len() implies !(#[trigger] received[i] is Closed) by {
        assert(given[i] is Line || given[i] is Lagged);
    }
    until_closed_is_in_range(received);
    if given.len() > 0 {
        let n = given.len() - 1;
        let fewer = received.drop_last();
        carries_prefix(received, given, json, n);
        assert(fewer =~= received.take(n));
        assert(given.drop_last() =~= given.take(n));
        frames_count_every_line(fewer, given.drop_last(), json);
        assert(live_frames(received).drop_last() =~= live_frames(fewer));
        assert(live_frames(received).last() == live_frame(received[n])->0);
        assert(given[n] == given.last());
        if let Yield::Lagged(missed) = given[n] {
            text::decimal_reads_back(missed);
        }
    }
}

/// A viewer that reads until nothing is pending has been shown, or told that it missed, each
/// line that was published since it subscribed, and is shown lines in the order of
/// publication: the frame for a line stands where the lines before it have been accounted
/// for.
pub proof fn lines_are_dropped_only_when_counted(
    history: Seq<LogLine>,
    start: nat,
    given: Seq<Yield>,
    kept: nat,
    received: Seq<Received>,
    json: spec_fn(LogLine) -> Option<Seq<char>>,
)
    requires
        stream::accounts_for(history, start, given),
        channel::next_yield(history, start + stream::total_weight(given), kept) is None,
        carries(received, given, json),
    ensures
        counted(live_frames(received)) == history.len() - start,
        forall|i: int|
            0 <= i < live_frames(received).len() && (#[trigger] live_frames(received)[i]).event
                is None ==> {
                let at = start + counted(live_frames(received).take(i));
                at < history.len() && live_frames(received)[i] == line_frame(
                    json(history[at as int]),
                )
            },
{
    frames_count_every_line(received, given, json);
    let frames = live_frames(received);
    assert forall|i: int| 0 <= i < frames.len() && (#[trigger] frames[i]).event is None implies {
        let at = start + counted(frames.take(i));
        at < history.len() && frames[i] == line_frame(json(history[at as int]))
    } by {
        let earlier = received.take(i);
        carries_prefix(received, given, json, i);
        frames_count_every_line(earlier, given.take(i), json);
        until_closed_is_in_range(received);
        assert(live_frames(earlier) =~= frames.take(i));
        assert(given[i] is Line || given[i] is Lagged);
    }
}

} // verus!
