//! The clocks that log lines are stamped and spans are timed by.

use crate::text;
use std::time::{Duration, Instant};
use vstd::prelude::*;

verus! {

/// A reading of std's monotonic clock.
#[verifier::external_type_specification]
#[verifier::external_body]
pub struct ExInstant(Instant);

/// The last `width` decimal digits of `n`, with zeros in front where it has fewer.
pub open spec fn padded(n: nat, width: nat) -> Seq<char>
    decreases width,
{
    if width == 0 {
        Seq::empty()
    } else {
        padded(n / 10, (width - 1) as nat).push(text::digit(n % 10))
    }
}

/// How many days a month has.
pub open spec fn days_in(year: nat, month: nat) -> nat {
    if month == 2 {
        if year % 4 == 0 && (year % 100 != 0 || year % 400 == 0) {
            29
        } else {
            28
        }
    } else if month == 4 || month == 6 || month == 9 || month == 11 {
        30
    } else {
        31
    }
}

/// A moment in UTC.
pub struct Moment {
    pub year: nat,
    pub month: nat,
    pub day: nat,
    pub hour: nat,
    pub minute: nat,
    pub second: nat,
    pub nanosecond: nat,
}

impl Moment {
    /// The moment is in the calendar, and not before the Unix epoch.
    pub open spec fn valid(self) -> bool {
        &&& 1970 <= self.year
        &&& 1 <= self.month <= 12
        &&& 1 <= self.day <= days_in(self.year, self.month)
        &&& self.hour < 24
        &&& self.minute < 60
        &&& self.second < 60
        &&& self.nanosecond < 1_000_000_000
    }

    /// The year, with a plus sign in front where it has more than four digits, for which
    /// RFC 3339 has no form.
    pub open spec fn year_text(self) -> Seq<char> {
        if self.year <= 9999 {
            padded(self.year, 4)
        } else {
            seq!['+'] + text::decimal(self.year)
        }
    }

    /// The fraction of a second, in milli-, micro- or nanoseconds: the coarsest that loses
    /// nothing. There is none on the full second.
    pub open spec fn fraction_text(self) -> Seq<char> {
        if self.nanosecond == 0 {
            Seq::empty()
        } else if self.nanosecond % 1_000_000 == 0 {
            seq!['.'] + padded(self.nanosecond / 1_000_000, 3)
        } else if self.nanosecond % 1_000 == 0 {
            seq!['.'] + padded(self.nanosecond / 1_000, 6)
        } else {
            seq!['.'] + padded(self.nanosecond, 9)
        }
    }

    /// The moment as a timestamp: date, `T`, time of day, fraction, and the offset of UTC.
    pub open spec fn stamp(self) -> Seq<char> {
        self.year_text() + seq!['-'] + padded(self.month, 2) + seq!['-'] + padded(self.day, 2)
            + seq!['T'] + padded(self.hour, 2) + seq![':'] + padded(self.minute, 2) + seq![':']
            + padded(self.second, 2) + self.fraction_text() + "+00:00"@
    }
}

/// `text` is the timestamp of a moment in UTC: up to the year 9999 an RFC 3339 timestamp.
pub open spec fn is_utc_stamp(text: Seq<char>) -> bool {
    exists|moment: Moment| moment.valid() && text == #[trigger] moment.stamp()
}

/// `timestamp` is what [`now_rfc3339`] gave.
pub closed spec fn stamped_now(timestamp: String) -> bool {
    call_ensures(now_rfc3339, (), timestamp)
}

/// `opened_at` is what `Instant::now` gave.
pub open spec fn read_now(opened_at: Instant) -> bool {
    call_ensures(Instant::now, (), opened_at)
}

/// `ms` is what `Instant::elapsed` gave for `since`, in the whole milliseconds that
/// `Duration::as_millis` gave for it.
pub open spec fn read_since(since: Instant, ms: u128) -> bool {
    exists|spent: Duration|
        #![trigger call_ensures(Instant::elapsed, (&since,), spent)]
        call_ensures(Instant::elapsed, (&since,), spent) && call_ensures(
            Duration::as_millis,
            (&spent,),
            ms,
        )
}

/// How long ago something was is what the clock says: the whole milliseconds of the time
/// that `Instant::elapsed` gave, and no other number.
pub proof fn elapsed_time_is_read_off_the_clock(since: Instant, ms: u128)
    requires
        read_since(since, ms),
    ensures
        exists|spent: Duration|
            #![trigger call_ensures(Instant::elapsed, (&since,), spent)]
            call_ensures(Instant::elapsed, (&since,), spent) && call_ensures(
                Duration::as_millis,
                (&spent,),
                ms,
            ),
{
}

/// When a span opened is what the clock said.
pub proof fn opening_time_is_read_off_the_clock(opened_at: Instant)
    requires
        read_now(opened_at),
    ensures
        call_ensures(Instant::now, (), opened_at),
{
}

/// A stamp is what the clock gave, and has the form of a timestamp in UTC.
pub(crate) proof fn stamp_is_read_off_the_clock(timestamp: String)
    requires
        stamped_now(timestamp),
    ensures
        call_ensures(now_rfc3339, (), timestamp),
        is_utc_stamp(timestamp@),
{
}

/// Calls `f`.
fn ask<R>(f: impl Fn() -> R) -> (answer: R)
    requires
        call_requires(f, ()),
    ensures
        call_ensures(f, (), answer),
{
    f()
}

/// Calls `f` on `of`.
fn ask_of<A, R>(f: impl Fn(&A) -> R, of: &A) -> (answer: R)
    requires
        call_requires(f, (of,)),
    ensures
        call_ensures(f, (of,), answer),
{
    f(of)
}

/// The time now, as a timestamp.
pub(crate) fn stamp_now() -> (timestamp: String)
    ensures
        stamped_now(timestamp),
        is_utc_stamp(timestamp@),
        call_ensures(now_rfc3339, (), timestamp),
{
    ask(now_rfc3339)
}

/// The reading of the clock now.
pub(crate) fn instant_now() -> (now: Instant)
    ensures
        read_now(now),
        call_ensures(Instant::now, (), now),
{
    ask(Instant::now)
}

/// How many whole milliseconds have passed since `since`.
pub(crate) fn elapsed_ms(since: &Instant) -> (ms: u128)
    ensures
        read_since(*since, ms),
        exists|spent: Duration|
            #![trigger call_ensures(Instant::elapsed, (since,), spent)]
            call_ensures(Instant::elapsed, (since,), spent) && call_ensures(
                Duration::as_millis,
                (&spent,),
                ms,
            ),
{
    let spent = ask_of(Instant::elapsed, since);
    ask_of(Duration::as_millis, &spent)
}

/// `chrono::Utc::now`, written out by `to_rfc3339`. The time itself is whatever the
/// system clock says. Of the text, what is claimed is the form that `chrono` gives to a
/// time in UTC, and that it is a date of the calendar and a time of the day.
/// `chrono` panics on a system clock that is set before the Unix epoch.
#[verifier::external_body]
pub(crate) fn now_rfc3339() -> (timestamp: String)
    ensures
        is_utc_stamp(timestamp@),
{
    chrono::Utc::now().to_rfc3339()
}

/// `Instant::now`. Nothing is claimed of what the clock reads.
pub assume_specification[ Instant::now ]() -> Instant;

/// `Instant::elapsed`. Nothing is claimed of how long ago `since` was.
pub assume_specification[ Instant::elapsed ](since: &Instant) -> Duration;

/// `Duration::as_millis`, the whole milliseconds in a duration. What a duration holds
/// is not visible here, and those that are asked come from the clock, so nothing is
/// claimed of the count.
pub assume_specification[ Duration::as_millis ](duration: &Duration) -> u128;

} // verus!
