//! A single structured log line.

use crate::fields::Fields;
use vstd::prelude::*;

verus! {

/// A single structured log line. Produced both for events and for span
/// completions (`level == "SPAN"`).
#[derive(Debug)]
pub struct LogLine {
    /// RFC 3339 timestamp captured when the line was observed.
    pub timestamp: String,
    /// Log level, e.g. `"INFO"`, or `"SPAN"` for a span-completion summary.
    pub level: &'static str,
    /// Event target (module path / target string).
    pub target: String,
    /// The event's `message`, or the span name for a `SPAN` line.
    pub message: String,
    /// Remaining structured key/value fields, ordered by key.
    pub fields: Fields,
    /// Source location `"file:line"`, if available.
    pub location: Option<String>,
    /// `span_id` of the enclosing span (for events) or of the span itself (for
    /// `SPAN` lines), when the span carries one.
    pub span_id: Option<String>,
}

/// What a [`LogLine`] says.
#[verifier::ext_equal]
pub struct LogLineView {
    pub timestamp: Seq<char>,
    pub level: Seq<char>,
    pub target: Seq<char>,
    pub message: Seq<char>,
    pub fields: Map<Seq<char>, Seq<char>>,
    pub location: Option<Seq<char>>,
    pub span_id: Option<Seq<char>>,
}

/// The characters of a text that may be absent.
pub open spec fn optional_text(text: Option<String>) -> Option<Seq<char>> {
    match text {
        Some(text) => Some(text@),
        None => None,
    }
}

impl View for LogLine {
    type V = LogLineView;

    open spec fn view(&self) -> LogLineView {
        LogLineView {
            timestamp: self.timestamp@,
            level: self.level@,
            target: self.target@,
            message: self.message@,
            fields: self.fields@,
            location: optional_text(self.location),
            span_id: optional_text(self.span_id),
        }
    }
}

impl Clone for LogLine {
    fn clone(&self) -> (line: LogLine)
        ensures
            line@ == self@,
            line.timestamp@ == self.timestamp@,
            line.level@ == self.level@,
            line.target@ == self.target@,
            line.message@ == self.message@,
            line.fields@ == self.fields@,
            line.location is Some <==> self.location is Some,
            line.location is Some ==> line.location->0@ == self.location->0@,
            line.span_id is Some <==> self.span_id is Some,
            line.span_id is Some ==> line.span_id->0@ == self.span_id->0@,
    {
        LogLine {
            timestamp: self.timestamp.clone(),
            level: self.level,
            target: self.target.clone(),
            message: self.message.clone(),
            fields: self.fields.clone(),
            location: self.location.clone(),
            span_id: self.span_id.clone(),
        }
    }
}

/// What a line says is what its fields hold, one by one.
pub proof fn line_says_what_it_holds(line: LogLine)
    ensures
        line@.timestamp == line.timestamp@,
        line@.level == line.level@,
        line@.target == line.target@,
        line@.message == line.message@,
        line@.fields == line.fields@,
        line.location is Some ==> line@.location == Some(line.location->0@),
        line.location is None ==> line@.location is None,
        line.span_id is Some ==> line@.span_id == Some(line.span_id->0@),
        line.span_id is None ==> line@.span_id is None,
{
}

/// Lines that say the same hold the same.
pub proof fn lines_that_say_the_same(a: LogLine, b: LogLine)
    requires
        a@ == b@,
    ensures
        a.timestamp@ == b.timestamp@,
        a.level@ == b.level@,
        a.target@ == b.target@,
        a.message@ == b.message@,
        a.fields@ == b.fields@,
        a.location is Some <==> b.location is Some,
        a.location is Some ==> a.location->0@ == b.location->0@,
        a.span_id is Some <==> b.span_id is Some,
        a.span_id is Some ==> a.span_id->0@ == b.span_id->0@,
{
    line_says_what_it_holds(a);
    line_says_what_it_holds(b);
}

} // verus!
