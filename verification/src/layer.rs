//! What becomes of the events and spans that the server traces: each event is
//! forwarded to the log stream as a line, and each span as a summary line when it
//! closes.

use crate::clock;
use crate::fields::Fields;
use crate::line;
use crate::line::{LogLine, LogLineView};
use crate::stream::LogStream;
use crate::text;
use std::sync::Arc;
use std::time::Instant;
use tokio::sync::broadcast;
use vstd::prelude::*;

verus! {

/// Where an event or a span comes from.
#[derive(Debug)]
pub struct Metadata {
    /// Log level, e.g. `"INFO"`.
    pub level: &'static str,
    /// Target (module path / target string).
    pub target: String,
    /// Name of the event or span.
    pub name: String,
    /// Source file, if known.
    pub file: Option<String>,
    /// Line in the source file, if known.
    pub line: Option<u32>,
}

impl Metadata {
    /// `file:line`, or the file alone where the line is not known.
    pub open spec fn location(&self) -> Option<Seq<char>> {
        match (self.file, self.line) {
            (Some(file), Some(line)) => Some(file@ + seq![':'] + text::decimal(line as nat)),
            (Some(file), None) => Some(file@),
            _ => None,
        }
    }
}

/// The source location that `meta` gives.
pub fn location_of(meta: &Metadata) -> (location: Option<String>)
    ensures
        line::optional_text(location) == meta.location(),
        location is Some <==> meta.file is Some,
        meta.file matches Some(file) ==> location->0@ == match meta.line {
            Some(line) => file@ + seq![':'] + text::decimal(line as nat),
            None => file@,
        },
{
    match (&meta.file, meta.line) {
        (Some(file), Some(line)) => {
            proof {
                reveal_strlit(":");
            }
            let mut location = file.clone();
            location.append(":");
            location.append(text::decimal_text(line as u128).as_str());
            assert(location@ =~= file@ + seq![':'] + text::decimal(line as nat));
            Some(location)
        },
        (Some(file), None) => Some(file.clone()),
        _ => None,
    }
}

/// Collects a `message` and the remaining fields of an event or span. The
/// `message` field is special-cased; span attributes have no message and leave it
/// `None`.
#[derive(Debug)]
pub struct LogLineVisitor {
    /// What was recorded as `message`.
    pub message: Option<String>,
    /// Everything else that was recorded.
    pub fields: Fields,
}

impl Default for LogLineVisitor {
    fn default() -> (visitor: LogLineVisitor)
        ensures
            visitor.message is None,
            visitor.fields@ == Map::<Seq<char>, Seq<char>>::empty(),
    {
        LogLineVisitor { message: None, fields: Fields::new() }
    }
}

impl LogLineVisitor {
    /// `after` is `self` once `value` has been recorded under `field`.
    pub open spec fn recorded(
        &self,
        field: Seq<char>,
        value: Seq<char>,
        after: LogLineVisitor,
    ) -> bool {
        if field == "message"@ {
            &&& line::optional_text(after.message) == Some(value)
            &&& after.fields == self.fields
        } else {
            &&& after.message == self.message
            &&& after.fields@ == self.fields@.insert(field, value)
        }
    }

    /// Records `value` under `field`.
    pub fn insert(&mut self, field: &str, value: String)
        ensures
            old(self).recorded(field@, value@, *final(self)),
            field@ == "message"@ ==> {
                &&& final(self).message matches Some(message) && message@ == value@
                &&& final(self).fields@ == old(self).fields@
            },
            field@ != "message"@ ==> {
                &&& final(self).message == old(self).message
                &&& final(self).fields@ == old(self).fields@.insert(field@, value@)
            },
    {
        if text::same_text(field, "message") {
            self.message = Some(value);
        } else {
            self.fields.insert(field.to_string(), value);
        }
    }

    /// Records a text under `field`.
    pub fn record_str(&mut self, field: &str, value: &str)
        ensures
            old(self).recorded(field@, value@, *final(self)),
            field@ == "message"@ ==> {
                &&& final(self).message matches Some(message) && message@ == value@
                &&& final(self).fields@ == old(self).fields@
            },
            field@ != "message"@ ==> {
                &&& final(self).message == old(self).message
                &&& final(self).fields@ == old(self).fields@.insert(field@, value@)
            },
    {
        self.insert(field, value.to_string());
    }

    /// Records a truth value under `field`.
    pub fn record_bool(&mut self, field: &str, value: bool)
        ensures
            old(self).recorded(field@, text::truth(value), *final(self)),
            field@ == "message"@ ==> {
                &&& final(self).message is Some
                &&& final(self).message->0@ == if value {
                    "true"@
                } else {
                    "false"@
                }
                &&& final(self).fields@ == old(self).fields@
            },
            field@ != "message"@ ==> {
                &&& final(self).message == old(self).message
                &&& final(self).fields@ == old(self).fields@.insert(
                    field@,
                    if value {
                        "true"@
                    } else {
                        "false"@
                    },
                )
            },
    {
        self.insert(field, text::truth_text(value));
    }

    /// Records a signed number under `field`.
    pub fn record_i64(&mut self, field: &str, value: i64)
        ensures
            old(self).recorded(field@, text::signed_decimal(value as int), *final(self)),
            field@ == "message"@ ==> {
                &&& final(self).message is Some
                &&& final(self).message->0@ == text::signed_decimal(value as int)
                &&& final(self).fields@ == old(self).fields@
            },
            field@ != "message"@ ==> {
                &&& final(self).message == old(self).message
                &&& final(self).fields@ == old(self).fields@.insert(
                    field@,
                    text::signed_decimal(value as int),
                )
            },
    {
        self.insert(field, text::signed_decimal_text(value));
    }

    /// Records an unsigned number under `field`.
    pub fn record_u64(&mut self, field: &str, value: u64)
        ensures
            old(self).recorded(field@, text::decimal(value as nat), *final(self)),
            field@ == "message"@ ==> {
                &&& final(self).message is Some
                &&& final(self).message->0@ == text::decimal(value as nat)
                &&& final(self).fields@ == old(self).fields@
            },
            field@ != "message"@ ==> {
                &&& final(self).message == old(self).message
                &&& final(self).fields@ == old(self).fields@.insert(
                    field@,
                    text::decimal(value as nat),
                )
            },
    {
        self.insert(field, text::decimal_text(value as u128));
    }
}

/// Per-span data accumulated while a span is open, so that a summary line (with
/// its fields and duration) can be emitted when the span closes, and its `span_id`
/// be surfaced on the events logged inside it.
#[derive(Debug)]
pub struct SpanData {
    pub fields: Fields,
    pub opened_at: Instant,
}

impl Clone for SpanData {
    fn clone(&self) -> (data: SpanData)
        ensures
            data.fields@ == self.fields@,
            data.opened_at == self.opened_at,
    {
        SpanData { fields: self.fields.clone(), opened_at: self.opened_at }
    }
}

impl SpanData {
    /// The `span_id` that the span carries.
    pub open spec fn span_id(&self) -> Option<Seq<char>> {
        if self.fields@.contains_key("span_id"@) {
            Some(self.fields@["span_id"@])
        } else {
            None
        }
    }
}

/// The first `span_id` in a walk over spans, of which some may carry no data.
pub open spec fn first_span_id(scope: Seq<Option<SpanData>>) -> Option<Seq<char>>
    decreases scope.len(),
{
    if scope.len() == 0 {
        None
    } else if scope[0] is Some && scope[0]->0.span_id() is Some {
        scope[0]->0.span_id()
    } else {
        first_span_id(scope.drop_first())
    }
}

/// Walk from the event's span up through its ancestors and return the first
/// `span_id` field found. `scope` holds the event's span first and the root last;
/// an event outside of any span has an empty scope.
pub fn enclosing_span_id(scope: &Vec<Option<SpanData>>) -> (span_id: Option<String>)
    ensures
        line::optional_text(span_id) == first_span_id(scope@),
        (forall|i: int|
            0 <= i < scope@.len() ==> (#[trigger] scope@[i] matches Some(data)
                ==> !data.fields@.contains_key("span_id"@))) ==> span_id is None,
        forall|at: int|
            0 <= at < scope@.len() && #[trigger] scope@[at] is Some
                && scope@[at]->0.fields@.contains_key("span_id"@) && (forall|i: int|
                0 <= i < at ==> (#[trigger] scope@[i] matches Some(data)
                    ==> !data.fields@.contains_key("span_id"@))) ==> span_id is Some
                && span_id->0@ == scope@[at]->0.fields@["span_id"@],
{
    let mut i: usize = 0;
    proof {
        first_id_is_that_of_the_nearest_span(scope@);
        assert(scope@.skip(0) =~= scope@);
    }
    while i < scope.len()
        invariant
            i <= scope@.len(),
            first_span_id(scope@) == first_span_id(scope@.skip(i as int)),
        decreases scope@.len() - i,
    {
        assert(scope@.skip(i as int)[0] == scope@[i as int]);
        assert(scope@.skip(i as int).drop_first() =~= scope@.skip(i + 1));
        if let Some(data) = &scope[i] {
            if let Some(span_id) = data.fields.get("span_id") {
                proof {
                    first_id_is_that_of_the_nearest_span(scope@);
                }
                return Some(span_id.clone());
            }
        }
        i += 1;
    }
    None
}

/// What the line for an event says.
pub open spec fn event_says(
    timestamp: Seq<char>,
    meta: Metadata,
    visitor: LogLineVisitor,
    scope: Seq<Option<SpanData>>,
) -> LogLineView {
    LogLineView {
        timestamp,
        level: meta.level@,
        target: meta.target@,
        message: match visitor.message {
            Some(message) => message@,
            None => Seq::empty(),
        },
        fields: visitor.fields@,
        location: meta.location(),
        span_id: first_span_id(scope),
    }
}

/// The line for an event that was observed at `timestamp` inside of the spans of
/// `scope`.
pub fn event_line(
    timestamp: String,
    meta: Metadata,
    visitor: LogLineVisitor,
    scope: &Vec<Option<SpanData>>,
) -> (line: LogLine)
    ensures
        line@ == event_says(timestamp@, meta, visitor, scope@),
        line.level == meta.level,
        line.target@ == meta.target@,
        visitor.message matches Some(message) ==> line.message@ == message@,
        visitor.message is None ==> line.message@.len() == 0,
        line.fields@ == visitor.fields@,
        line::optional_text(line.location) == meta.location(),
        line::optional_text(line.span_id) == first_span_id(scope@),
        line.timestamp == timestamp,
{
    let location = location_of(&meta);
    LogLine {
        timestamp,
        level: meta.level,
        target: meta.target,
        message: match visitor.message {
            Some(message) => message,
            None => String::new(),
        },
        fields: visitor.fields,
        location,
        span_id: enclosing_span_id(scope),
    }
}

/// The line for an event that is observed now, inside of the spans of `scope`. Panics on a
/// system clock that is set before the Unix epoch.
pub fn event_line_now(
    meta: Metadata,
    visitor: LogLineVisitor,
    scope: &Vec<Option<SpanData>>,
) -> (line: LogLine)
    ensures
        line@ == event_says(line.timestamp@, meta, visitor, scope@),
        line.level == meta.level,
        line.target@ == meta.target@,
        visitor.message matches Some(message) ==> line.message@ == message@,
        visitor.message is None ==> line.message@.len() == 0,
        line.fields@ == visitor.fields@,
        line::optional_text(line.location) == meta.location(),
        line::optional_text(line.span_id) == first_span_id(scope@),
        clock::stamped_now(line.timestamp),
        clock::is_utc_stamp(line.timestamp@),
{
    event_line(clock::stamp_now(), meta, visitor, scope)
}

/// What the summary line for a span says: its `span_id` is in a slot of its own, and
/// how long it was open is among its fields.
pub open spec fn span_says(
    timestamp: Seq<char>,
    elapsed_ms: u128,
    meta: Metadata,
    data: SpanData,
) -> LogLineView {
    LogLineView {
        timestamp,
        level: "SPAN"@,
        target: meta.target@,
        message: meta.name@,
        fields: data.fields@.remove("span_id"@).insert(
            "elapsed_ms"@,
            text::decimal(elapsed_ms as nat),
        ),
        location: meta.location(),
        span_id: data.span_id(),
    }
}

/// The summary line for a span that closed at `timestamp`, after it had been open for
/// `elapsed_ms` milliseconds.
pub fn span_line(timestamp: String, elapsed_ms: u128, meta: Metadata, data: &SpanData) -> (line:
    LogLine)
    ensures
        line@ == span_says(timestamp@, elapsed_ms, meta, *data),
        line.level@ == "SPAN"@,
        line.target@ == meta.target@,
        line.message@ == meta.name@,
        line::optional_text(line.location) == meta.location(),
        data.fields@.contains_key("span_id"@) ==> line.span_id is Some && line.span_id->0@
            == data.fields@["span_id"@],
        !data.fields@.contains_key("span_id"@) ==> line.span_id is None,
        line.fields@ == data.fields@.remove("span_id"@).insert(
            "elapsed_ms"@,
            text::decimal(elapsed_ms as nat),
        ),
        line.timestamp == timestamp,
{
    let location = location_of(&meta);
    let mut fields = data.fields.clone();
    let span_id = fields.remove("span_id");
    fields.insert("elapsed_ms".to_string(), text::decimal_text(elapsed_ms));
    LogLine {
        timestamp,
        level: "SPAN",
        target: meta.target,
        message: meta.name,
        fields,
        location,
        span_id,
    }
}

/// The summary line for a span that closes now. Panics on a system clock that is set before
/// the Unix epoch.
pub fn span_line_now(meta: Metadata, data: &SpanData) -> (line: LogLine)
    ensures
        exists|elapsed_ms: u128| #[trigger]
            clock::read_since(data.opened_at, elapsed_ms) && line@ == span_says(
                line.timestamp@,
                elapsed_ms,
                meta,
                *data,
            ) && line.fields@ == data.fields@.remove("span_id"@).insert(
                "elapsed_ms"@,
                text::decimal(elapsed_ms as nat),
            ),
        line.level@ == "SPAN"@,
        line.target@ == meta.target@,
        line.message@ == meta.name@,
        line::optional_text(line.location) == meta.location(),
        data.fields@.contains_key("span_id"@) ==> line.span_id is Some && line.span_id->0@
            == data.fields@["span_id"@],
        !data.fields@.contains_key("span_id"@) ==> line.span_id is None,
        clock::stamped_now(line.timestamp),
        clock::is_utc_stamp(line.timestamp@),
{
    let elapsed_ms: u128 = clock::elapsed_ms(&data.opened_at);
    span_line(clock::stamp_now(), elapsed_ms, meta, data)
}

/// Forwards events and span-completion summaries to a [`LogStream`].
#[derive(Debug)]
pub struct LogStreamLayer {
    pub stream: LogStream,
}

impl LogStreamLayer {
    /// Forwards to `stream`.
    pub fn new(stream: LogStream) -> (layer: LogStreamLayer)
        ensures
            layer.stream == stream,
    {
        LogStreamLayer { stream }
    }

    /// The data of a span that opens with the attributes that `attrs` collected.
    pub fn on_new_span(attrs: LogLineVisitor) -> (data: SpanData)
        ensures
            data.fields == attrs.fields,
            data.fields@ == attrs.fields@,
            call_ensures(Instant::now, (), data.opened_at),
            clock::read_now(data.opened_at),
    {
        SpanData { fields: attrs.fields, opened_at: clock::instant_now() }
    }

    /// Adds the values that `values` collected to an open span.
    pub fn on_record(data: &mut SpanData, values: LogLineVisitor)
        ensures
            final(data).fields@ == old(data).fields@.union_prefer_right(values.fields@),
            final(data).opened_at == old(data).opened_at,
    {
        data.fields.extend(values.fields);
    }

    /// Publishes an event. `scope` holds the event's span first and the root last. Panics on
    /// a system clock that is set before the Unix epoch.
    pub fn on_event(
        &mut self,
        meta: Metadata,
        visitor: LogLineVisitor,
        scope: &Vec<Option<SpanData>>,
    )
        requires
            old(self).stream.takes_lines(),
        ensures
            final(self).stream.takes_lines(),
            final(self).stream.replay_lost() == old(self).stream.replay_lost(),
            final(self).stream.replay_limit() == old(self).stream.replay_limit(),
            final(self).stream.lag_limit() == old(self).stream.lag_limit(),
            forall|rx: broadcast::Receiver<Arc<LogLine>>|
                #[trigger] final(self).stream.feeds(rx) == old(self).stream.feeds(rx),
            ({
                let line = final(self).stream.published().last();
                &&& final(self).stream.published() == old(self).stream.published().push(line)
                &&& line@ == event_says(line.timestamp@, meta, visitor, scope@)
                &&& line.level == meta.level
                &&& line.target@ == meta.target@
                &&& visitor.message matches Some(message) ==> line.message@ == message@
                &&& visitor.message is None ==> line.message@.len() == 0
                &&& line.fields@ == visitor.fields@
                &&& line::optional_text(line.location) == meta.location()
                &&& line::optional_text(line.span_id) == first_span_id(scope@)
                &&& clock::stamped_now(line.timestamp)
                &&& clock::is_utc_stamp(line.timestamp@)
            }),
    {
        let line = event_line_now(meta, visitor, scope);
        self.stream.publish(line);
    }

    /// Publishes the summary of a span that closes. A span that carries no data leaves
    /// no trace. Panics on a system clock that is set before the Unix epoch.
    pub fn on_close(&mut self, meta: Metadata, data: Option<&SpanData>)
        requires
            old(self).stream.takes_lines(),
        ensures
            final(self).stream.takes_lines(),
            final(self).stream.replay_lost() == old(self).stream.replay_lost(),
            final(self).stream.replay_limit() == old(self).stream.replay_limit(),
            final(self).stream.lag_limit() == old(self).stream.lag_limit(),
            forall|rx: broadcast::Receiver<Arc<LogLine>>|
                #[trigger] final(self).stream.feeds(rx) == old(self).stream.feeds(rx),
            match data {
                Some(data) => {
                    let line = final(self).stream.published().last();
                    &&& final(self).stream.published() == old(self).stream.published().push(line)
                    &&& exists|elapsed_ms: u128| #[trigger]
                        clock::read_since(data.opened_at, elapsed_ms) && line@ == span_says(
                            line.timestamp@,
                            elapsed_ms,
                            meta,
                            *data,
                        ) && line.fields@ == data.fields@.remove("span_id"@).insert(
                            "elapsed_ms"@,
                            text::decimal(elapsed_ms as nat),
                        )
                    &&& line.level@ == "SPAN"@
                    &&& line.target@ == meta.target@
                    &&& line.message@ == meta.name@
                    &&& line::optional_text(line.location) == meta.location()
                    &&& data.fields@.contains_key("span_id"@) ==> line.span_id is Some
                        && line.span_id->0@ == data.fields@["span_id"@]
                    &&& !data.fields@.contains_key("span_id"@) ==> line.span_id is None
                    &&& clock::stamped_now(line.timestamp)
                    &&& clock::is_utc_stamp(line.timestamp@)
                },
                None => *final(self) == *old(self),
            },
    {
        if let Some(data) = data {
            let line = span_line_now(meta, data);
            self.stream.publish(line);
        }
    }
}

/// A field that is recorded twice has the value that was recorded last.
pub proof fn last_value_counts(
    before: LogLineVisitor,
    between: LogLineVisitor,
    after: LogLineVisitor,
    field: Seq<char>,
    first: Seq<char>,
    second: Seq<char>,
)
    requires
        before.recorded(field, first, between),
        between.recorded(field, second, after),
    ensures
        before.recorded(field, second, after),
{
    assert(before.fields@.insert(field, first).insert(field, second) =~= before.fields@.insert(
        field,
        second,
    ));
}

/// `after` is `before` once some value has been recorded under some field.
pub open spec fn recorded_some_value(before: LogLineVisitor, after: LogLineVisitor) -> bool {
    exists|field: Seq<char>, value: Seq<char>| before.recorded(field, value, after)
}

/// The message of an event is not among its fields: a visitor that starts without fields
/// never gains one of that name.
pub proof fn message_is_no_field(visits: Seq<LogLineVisitor>)
    requires
        visits.len() > 0,
        visits[0].fields@ == Map::<Seq<char>, Seq<char>>::empty(),
        forall|i: int|
            0 < i < visits.len() ==> recorded_some_value(visits[i - 1], #[trigger] visits[i]),
    ensures
        !visits.last().fields@.contains_key("message"@),
    decreases visits.len(),
{
    if visits.len() > 1 {
        let earlier = visits.drop_last();
        assert forall|i: int| 0 < i < earlier.len() implies recorded_some_value(
            earlier[i - 1],
            #[trigger] earlier[i],
        ) by {
            assert(visits[i] == earlier[i] && visits[i - 1] == earlier[i - 1]);
        }
        message_is_no_field(earlier);
        assert(visits[visits.len() - 1] == visits.last());
        assert(visits[visits.len() - 2] == earlier.last());
    }
}

/// An event carries the `span_id` of the nearest span that has one.
pub proof fn nearest_span_id_counts(scope: Seq<Option<SpanData>>, at: int)
    requires
        0 <= at < scope.len(),
        scope[at] is Some,
        scope[at]->0.span_id() is Some,
        forall|i: int|
            0 <= i < at ==> (#[trigger] scope[i] matches Some(data) ==> data.span_id() is None),
    ensures
        first_span_id(scope) == scope[at]->0.span_id(),
    decreases at,
{
    if at > 0 {
        assert(scope[0] matches Some(data) ==> data.span_id() is None);
        let rest = scope.drop_first();
        assert forall|i: int| 0 <= i < at - 1 implies (#[trigger] rest[i] matches Some(data)
            ==> data.span_id() is None) by {
            assert(rest[i] == scope[i + 1]);
        }
        nearest_span_id_counts(rest, at - 1);
    }
}

/// An event carries no `span_id` where none of its spans has one.
pub proof fn no_span_id_to_carry(scope: Seq<Option<SpanData>>)
    requires
        forall|i: int|
            0 <= i < scope.len() ==> (#[trigger] scope[i] matches Some(data)
                ==> data.span_id() is None),
    ensures
        first_span_id(scope) is None,
    decreases scope.len(),
{
    if scope.len() > 0 {
        assert(scope[0] matches Some(data) ==> data.span_id() is None);
        let rest = scope.drop_first();
        assert forall|i: int| 0 <= i < rest.len() implies (#[trigger] rest[i] matches Some(data)
            ==> data.span_id() is None) by {
            assert(rest[i] == scope[i + 1]);
        }
        no_span_id_to_carry(rest);
    }
}

/// The events logged inside a span that has a `span_id` carry the same id as its summary.
pub proof fn events_match_their_span(
    event_time: Seq<char>,
    event_meta: Metadata,
    visitor: LogLineVisitor,
    outer: Seq<Option<SpanData>>,
    close_time: Seq<char>,
    elapsed_ms: u128,
    span_meta: Metadata,
    data: SpanData,
)
    requires
        data.span_id() is Some,
    ensures
        event_says(event_time, event_meta, visitor, seq![Some(data)] + outer).span_id
            == span_says(close_time, elapsed_ms, span_meta, data).span_id,
{
    nearest_span_id_counts(seq![Some(data)] + outer, 0);
}

/// The fields of a summary are those of the span, but for the `span_id`, which is not
/// among them, and the duration, which always is.
pub proof fn summary_fields(timestamp: Seq<char>, elapsed_ms: u128, meta: Metadata, data: SpanData)
    ensures
        ({
            let fields = span_says(timestamp, elapsed_ms, meta, data).fields;
            &&& !fields.contains_key("span_id"@)
            &&& fields.contains_key("elapsed_ms"@)
            &&& fields["elapsed_ms"@] == text::decimal(elapsed_ms as nat)
            &&& forall|key: Seq<char>|
                key != "span_id"@ && key != "elapsed_ms"@ ==> {
                    &&& #[trigger] fields.contains_key(key) == data.fields@.contains_key(key)
                    &&& fields.contains_key(key) ==> fields[key] == data.fields@[key]
                }
        }),
{
    reveal_strlit("span_id");
    reveal_strlit("elapsed_ms");
    assert("span_id"@.len() != "elapsed_ms"@.len());
}

/// What is recorded as `message` becomes the message, and leaves the fields as they were.
/// What is recorded under any other name becomes the value of that field, and leaves the
/// message and all other fields as they were.
pub proof fn recording_changes_one_thing(
    before: LogLineVisitor,
    field: Seq<char>,
    value: Seq<char>,
    after: LogLineVisitor,
    other: Seq<char>,
)
    requires
        before.recorded(field, value, after),
        other != field,
    ensures
        field == "message"@ ==> {
            &&& after.message is Some
            &&& after.message->0@ == value
            &&& after.fields@ == before.fields@
        },
        field != "message"@ ==> {
            &&& after.message == before.message
            &&& after.fields@.contains_key(field)
            &&& after.fields@[field] == value
        },
        after.fields@.contains_key(other) == before.fields@.contains_key(other),
        before.fields@.contains_key(other) ==> after.fields@[other] == before.fields@[other],
{
}

/// A location starts with the file. Where the line is known, a colon and the number of the
/// line follow, and nothing else. Without a file there is no location.
pub proof fn location_names_file_and_line(meta: &Metadata, location: Option<String>)
    requires
        call_ensures(location_of, (meta,), location),
    ensures
        meta.file is None <==> location is None,
        meta.file matches Some(file) ==> {
            let text = location->0@;
            &&& text.len() >= file@.len()
            &&& text.take(file@.len() as int) == file@
            &&& meta.line is None ==> text == file@
            &&& meta.line matches Some(line) ==> {
                &&& text.len() > file@.len() + 1
                &&& text[file@.len() as int] == ':'
                &&& text::number(text.skip((file@.len() + 1) as int)) == line
                &&& forall|i: int|
                    file@.len() < i < text.len() ==> '0' <= #[trigger] text[i] <= '9'
                &&& line > 0 ==> text[(file@.len() + 1) as int] != '0'
            }
        },
        line::optional_text(location) == meta.location(),
{
    if let Some(file) = meta.file {
        let text = location->0@;
        assert(text.take(file@.len() as int) =~= file@);
        if let Some(line) = meta.line {
            let digits = text::decimal(line as nat);
            text::decimal_reads_back(line as nat);
            assert(text.skip((file@.len() + 1) as int) =~= digits);
            assert forall|i: int| file@.len() < i < text.len() implies '0' <= #[trigger] text[i]
                <= '9' by {
                assert(text[i] == digits[i - file@.len() - 1]);
            }
            assert(text[(file@.len() + 1) as int] == digits[0]);
        }
    }
}

/// Where the nearest span that has a field `span_id` has some value there, whatever it is,
/// that value is the one which is found.
pub proof fn nearest_span_that_maps_an_id(scope: Seq<Option<SpanData>>, at: int)
    requires
        0 <= at < scope.len(),
        scope[at] is Some,
        scope[at]->0.fields@.contains_key("span_id"@),
        forall|i: int|
            0 <= i < at ==> (#[trigger] scope[i] matches Some(data)
                ==> !data.fields@.contains_key("span_id"@)),
    ensures
        first_span_id(scope) == Some(scope[at]->0.fields@["span_id"@]),
{
    assert forall|i: int| 0 <= i < at implies (#[trigger] scope[i] matches Some(data)
        ==> data.span_id() is None) by {
        assert(scope[i] matches Some(data) ==> !data.fields@.contains_key("span_id"@));
    }
    nearest_span_id_counts(scope, at);
}

/// Where no span has a field `span_id`, none is found.
pub proof fn no_span_maps_an_id(scope: Seq<Option<SpanData>>)
    requires
        forall|i: int|
            0 <= i < scope.len() ==> (#[trigger] scope[i] matches Some(data)
                ==> !data.fields@.contains_key("span_id"@)),
    ensures
        first_span_id(scope) is None,
{
    assert forall|i: int| 0 <= i < scope.len() implies (#[trigger] scope[i] matches Some(data)
        ==> data.span_id() is None) by {
        assert(scope[i] matches Some(data) ==> !data.fields@.contains_key("span_id"@));
    }
    no_span_id_to_carry(scope);
}

/// The first `span_id` is told from the fields of the spans alone.
proof fn first_id_is_that_of_the_nearest_span(scope: Seq<Option<SpanData>>)
    ensures
        (forall|i: int|
            0 <= i < scope.len() ==> (#[trigger] scope[i] matches Some(data)
                ==> !data.fields@.contains_key("span_id"@))) ==> first_span_id(scope) is None,
        forall|at: int|
            0 <= at < scope.len() && #[trigger] scope[at] is Some
                && scope[at]->0.fields@.contains_key("span_id"@) && (forall|i: int|
                0 <= i < at ==> (#[trigger] scope[i] matches Some(data)
                    ==> !data.fields@.contains_key("span_id"@))) ==> first_span_id(scope) == Some(
                scope[at]->0.fields@["span_id"@],
            ),
{
    if forall|i: int|
        0 <= i < scope.len() ==> (#[trigger] scope[i] matches Some(data)
            ==> !data.fields@.contains_key("span_id"@)) {
        no_span_maps_an_id(scope);
    }
    assert forall|at: int|
        0 <= at < scope.len() && #[trigger] scope[at] is Some
            && scope[at]->0.fields@.contains_key("span_id"@) && (forall|i: int|
            0 <= i < at ==> (#[trigger] scope[i] matches Some(data)
                ==> !data.fields@.contains_key("span_id"@))) implies first_span_id(scope) == Some(
        scope[at]->0.fields@["span_id"@],
    ) by {
        nearest_span_that_maps_an_id(scope, at);
    }
}

/// What [`enclosing_span_id`] gives is the value of the field `span_id` in the nearest span
/// that has that field.
pub proof fn enclosing_id_is_that_of_the_nearest_span(
    scope: &Vec<Option<SpanData>>,
    span_id: Option<String>,
    at: int,
)
    requires
        call_ensures(enclosing_span_id, (scope,), span_id),
        0 <= at <= scope@.len(),
        forall|i: int|
            0 <= i < at ==> (#[trigger] scope@[i] matches Some(data)
                ==> !data.fields@.contains_key("span_id"@)),
        at < scope@.len() ==> scope@[at] is Some && scope@[at]->0.fields@.contains_key(
            "span_id"@,
        ),
    ensures
        at < scope@.len() ==> span_id is Some && span_id->0@ == scope@[at]->0.fields@["span_id"@],
        at == scope@.len() ==> span_id is None,
{
}

/// The line that [`event_line`] makes has the level and the target of the event, and the
/// message and the fields that were recorded, all of them and no others.
pub proof fn event_is_told_as_recorded(
    timestamp: String,
    meta: Metadata,
    visitor: LogLineVisitor,
    scope: &Vec<Option<SpanData>>,
    line: LogLine,
)
    requires
        call_ensures(event_line, (timestamp, meta, visitor, scope), line),
    ensures
        line.timestamp@ == timestamp@,
        line.level@ == meta.level@,
        line.target@ == meta.target@,
        visitor.message is Some ==> line.message@ == visitor.message->0@,
        visitor.message is None ==> line.message@ == Seq::<char>::empty(),
        line.fields@ == visitor.fields@,
        meta.file is None ==> line.location is None,
        meta.file is Some && meta.line is None ==> line.location is Some && line.location->0@
            == meta.file->0@,
        meta.file is Some && meta.line is Some ==> line.location is Some && line.location->0@
            == meta.file->0@ + seq![':'] + text::decimal(meta.line->0 as nat),
{
}

/// The enclosing spans have a say in the `span_id` of an event alone: the lines that
/// [`event_line`] makes for one event inside of any two scopes agree in all else.
pub proof fn spans_lend_an_event_their_id_only(
    timestamp: String,
    meta: Metadata,
    visitor: LogLineVisitor,
    scope: &Vec<Option<SpanData>>,
    other_scope: &Vec<Option<SpanData>>,
    line: LogLine,
    other_line: LogLine,
)
    requires
        call_ensures(event_line, (timestamp, meta, visitor, scope), line),
        call_ensures(event_line, (timestamp, meta, visitor, other_scope), other_line),
    ensures
        line.timestamp@ == other_line.timestamp@,
        line.level@ == other_line.level@,
        line.target@ == other_line.target@,
        line.message@ == other_line.message@,
        line.fields@ == other_line.fields@,
        line.location is Some <==> other_line.location is Some,
        line.location is Some ==> line.location->0@ == other_line.location->0@,
{
    event_is_told_as_recorded(timestamp, meta, visitor, scope, line);
    event_is_told_as_recorded(timestamp, meta, visitor, other_scope, other_line);
}

/// The line that [`event_line`] makes has the value of the field `span_id` in the nearest span
/// that has that field.
pub proof fn event_has_the_id_of_its_nearest_span(
    timestamp: String,
    meta: Metadata,
    visitor: LogLineVisitor,
    scope: &Vec<Option<SpanData>>,
    line: LogLine,
    at: int,
)
    requires
        call_ensures(event_line, (timestamp, meta, visitor, scope), line),
        0 <= at <= scope@.len(),
        forall|i: int|
            0 <= i < at ==> (#[trigger] scope@[i] matches Some(data)
                ==> !data.fields@.contains_key("span_id"@)),
        at < scope@.len() ==> scope@[at] is Some && scope@[at]->0.fields@.contains_key(
            "span_id"@,
        ),
    ensures
        at < scope@.len() ==> line.span_id is Some && line.span_id->0@
            == scope@[at]->0.fields@["span_id"@],
        at == scope@.len() ==> line.span_id is None,
{
    if at < scope@.len() {
        nearest_span_that_maps_an_id(scope@, at);
    } else {
        no_span_maps_an_id(scope@);
    }
}

/// What an event says is what was recorded, whatever the enclosing spans.
pub proof fn event_says_what_was_recorded(
    timestamp: Seq<char>,
    meta: Metadata,
    visitor: LogLineVisitor,
    scope: Seq<Option<SpanData>>,
)
    ensures
        ({
            let said = event_says(timestamp, meta, visitor, scope);
            &&& said.timestamp == timestamp
            &&& said.level == meta.level@
            &&& said.target == meta.target@
            &&& visitor.message is Some ==> said.message == visitor.message->0@
            &&& visitor.message is None ==> said.message.len() == 0
            &&& said.fields == visitor.fields@
            &&& meta.file is None <==> said.location is None
        }),
{
}

/// The summary that [`span_line`] makes has `SPAN` for its level, the target of the span, and
/// its name for the message, whatever the fields of the span are. A `span_id` among the
/// fields, whatever its value, is moved to its own slot; all other fields stay, but for
/// `elapsed_ms`, which is how long the span was open.
pub proof fn summary_is_told_of_the_span(
    timestamp: String,
    elapsed_ms: u128,
    meta: Metadata,
    data: &SpanData,
    line: LogLine,
    key: Seq<char>,
)
    requires
        call_ensures(span_line, (timestamp, elapsed_ms, meta, data), line),
    ensures
        line.timestamp@ == timestamp@,
        line.level@ == "SPAN"@,
        line.target@ == meta.target@,
        line.message@ == meta.name@,
        meta.file is None ==> line.location is None,
        meta.file is Some && meta.line is None ==> line.location is Some && line.location->0@
            == meta.file->0@,
        meta.file is Some && meta.line is Some ==> line.location is Some && line.location->0@
            == meta.file->0@ + seq![':'] + text::decimal(meta.line->0 as nat),
        data.fields@.contains_key("span_id"@) <==> line.span_id is Some,
        data.fields@.contains_key("span_id"@) ==> line.span_id->0@ == data.fields@["span_id"@],
        !line.fields@.contains_key("span_id"@),
        line.fields@.contains_key("elapsed_ms"@),
        text::number(line.fields@["elapsed_ms"@]) == elapsed_ms,
        key != "span_id"@ && key != "elapsed_ms"@ ==> {
            &&& line.fields@.contains_key(key) <==> data.fields@.contains_key(key)
            &&& data.fields@.contains_key(key) ==> line.fields@[key] == data.fields@[key]
        },
{
    summary_fields(timestamp@, elapsed_ms, meta, *data);
    text::decimal_reads_back(elapsed_ms as nat);
}

/// What the summary of a span says of its name, its target and its place does not depend on
/// the fields of the span, nor on how long it was open.
pub proof fn fields_do_not_change_the_name(
    timestamp: String,
    elapsed_ms: u128,
    other_ms: u128,
    meta: Metadata,
    data: &SpanData,
    other_data: &SpanData,
    line: LogLine,
    other_line: LogLine,
)
    requires
        call_ensures(span_line, (timestamp, elapsed_ms, meta, data), line),
        call_ensures(span_line, (timestamp, other_ms, meta, other_data), other_line),
    ensures
        line.level@ == other_line.level@,
        line.target@ == other_line.target@,
        line.message@ == other_line.message@,
        line.location is Some <==> other_line.location is Some,
        line.location is Some ==> line.location->0@ == other_line.location->0@,
{
    summary_is_told_of_the_span(timestamp, elapsed_ms, meta, data, line, "span_id"@);
    summary_is_told_of_the_span(timestamp, other_ms, meta, other_data, other_line, "span_id"@);
}

/// What the summary of a span says is its name, its target and the level `SPAN`, whatever its
/// fields are, and any value of its field `span_id`.
pub proof fn summary_says_what_the_span_is(
    timestamp: Seq<char>,
    elapsed_ms: u128,
    meta: Metadata,
    data: SpanData,
)
    ensures
        ({
            let said = span_says(timestamp, elapsed_ms, meta, data);
            &&& said.timestamp == timestamp
            &&& said.level == "SPAN"@
            &&& said.target == meta.target@
            &&& said.message == meta.name@
            &&& meta.file is None <==> said.location is None
            &&& data.fields@.contains_key("span_id"@) ==> said.span_id == Some(
                data.fields@["span_id"@],
            )
            &&& !data.fields@.contains_key("span_id"@) ==> said.span_id is None
        }),
{
}

/// An event logged directly inside of a span and the summary of that span have the same
/// `span_id`, that of the fields of the span, where it has one.
pub proof fn event_and_summary_share_the_id(
    event_time: String,
    event_meta: Metadata,
    visitor: LogLineVisitor,
    scope: &Vec<Option<SpanData>>,
    event: LogLine,
    close_time: String,
    elapsed_ms: u128,
    span_meta: Metadata,
    data: &SpanData,
    summary: LogLine,
)
    requires
        call_ensures(event_line, (event_time, event_meta, visitor, scope), event),
        call_ensures(span_line, (close_time, elapsed_ms, span_meta, data), summary),
        scope@.len() > 0,
        scope@[0] is Some,
        scope@[0]->0.fields@ == data.fields@,
        data.fields@.contains_key("span_id"@),
    ensures
        event.span_id is Some,
        summary.span_id is Some,
        event.span_id->0@ == data.fields@["span_id"@],
        summary.span_id->0@ == data.fields@["span_id"@],
{
    event_has_the_id_of_its_nearest_span(event_time, event_meta, visitor, scope, event, 0);
}

} // verus!
