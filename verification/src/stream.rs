//! The live log stream: a broadcast channel plus a small ring buffer of recent
//! lines for replay.

use crate::channel;
use crate::channel::{Taken, Yield};
use crate::line::LogLine;
use std::collections::VecDeque;
use std::sync::Arc;
use tokio::sync::broadcast;
use vstd::prelude::*;

verus! {

/// Number of lines buffered in the broadcast channel. A subscriber that falls
/// this far behind observes a `Lagged` notification and skips ahead rather than
/// blocking the sender.
pub const BROADCAST_CAPACITY: usize = 1024;

/// Number of recent lines retained for replay-on-connect, so a freshly opened
/// viewer shows recent (but not all) history instead of a blank pane.
pub const REPLAY_CAPACITY: usize = 500;

/// The last `n` items of `s`, or all of them where there are fewer.
pub open spec fn keep_last<T>(s: Seq<T>, n: nat) -> Seq<T> {
    if s.len() <= n {
        s
    } else {
        s.skip(s.len() - n)
    }
}

/// The lines behind the pointers.
pub open spec fn lines_of(shared: Seq<Arc<LogLine>>) -> Seq<LogLine> {
    shared.map_values(|line: Arc<LogLine>| *line)
}

/// A ring buffer of `capacity` lines can be allocated in advance.
pub open spec fn ring_fits(capacity: usize) -> bool {
    8 * capacity <= isize::MAX
}

/// `Arc::clone`: another pointer to the same line.
#[verifier::external_body]
fn share(line: &Arc<LogLine>) -> (shared: Arc<LogLine>)
    ensures
        *shared == **line,
{
    Arc::clone(line)
}

/// Appends `line` to a ring buffer of `capacity` lines, and drops the oldest if it is
/// full.
fn retain(recent: &mut VecDeque<Arc<LogLine>>, capacity: usize, line: Arc<LogLine>)
    requires
        capacity > 0,
    ensures
        lines_of(final(recent)@) == keep_last(lines_of(old(recent)@).push(*line), capacity as nat),
{
    let ghost start = recent@;
    while recent.len() >= capacity
        invariant
            capacity > 0,
            recent@.len() <= start.len(),
            recent@ == start.skip(start.len() - recent@.len()),
            recent@.len() == start.len() || recent@.len() + 1 >= capacity,
        decreases recent@.len(),
    {
        recent.pop_front();
        assert(recent@ =~= start.skip(start.len() - recent@.len()));
    }
    recent.push_back(line);
    assert(lines_of(recent@) =~= keep_last(lines_of(start).push(*line), capacity as nat));
}

/// The live log stream: a broadcast sender plus a ring buffer of recent lines. Threads
/// that publish to the same stream share it behind a lock.
#[derive(Debug)]
pub struct LogStream {
    tx: broadcast::Sender<Arc<LogLine>>,
    /// Absent once it was given up.
    recent: Option<VecDeque<Arc<LogLine>>>,
    replay_capacity: usize,
}

impl LogStream {
    /// Every line published so far, oldest first.
    pub closed spec fn published(&self) -> Seq<LogLine> {
        channel::sent_lines(self.tx)
    }

    /// How many lines are retained for replay.
    pub closed spec fn replay_limit(&self) -> nat {
        self.replay_capacity as nat
    }

    /// How many lines the channel keeps for a subscriber that is behind.
    pub closed spec fn lag_limit(&self) -> nat {
        channel::kept_lines(self.tx)
    }

    /// `rx` is subscribed to this stream.
    pub closed spec fn feeds(&self, rx: broadcast::Receiver<Arc<LogLine>>) -> bool {
        channel::feeds(self.tx, rx)
    }

    /// The ring buffer was given up.
    pub closed spec fn replay_lost(&self) -> bool {
        self.recent is None
    }

    /// The lines that a viewer which connects now is shown first.
    pub open spec fn replay(&self) -> Seq<LogLine> {
        if self.replay_lost() {
            Seq::empty()
        } else {
            keep_last(self.published(), self.replay_limit())
        }
    }

    /// The ring buffer holds the lines to be replayed, and no others.
    pub closed spec fn wf(&self) -> bool {
        self.recent matches Some(recent) ==> lines_of(recent@) == self.replay()
    }

    /// A line can be published: the ring buffer has room for it, or was given up.
    pub open spec fn takes_lines(&self) -> bool {
        self.wf() && (self.replay_limit() > 0 || self.replay_lost())
    }

    /// A stream whose channel keeps `broadcast_capacity` lines for slow subscribers, and
    /// whose ring buffer retains `replay_capacity` lines.
    pub fn new(broadcast_capacity: usize, replay_capacity: usize) -> (stream: LogStream)
        requires
            channel::channel_fits(broadcast_capacity),
            ring_fits(replay_capacity),
        ensures
            stream.wf(),
            stream.published() == Seq::<LogLine>::empty(),
            !stream.replay_lost(),
            stream.replay_limit() == replay_capacity,
            channel::rounded_up(broadcast_capacity as nat, stream.lag_limit()),
    {
        let recent: VecDeque<Arc<LogLine>> = VecDeque::with_capacity(replay_capacity);
        assert(lines_of(recent@) =~= Seq::empty());
        LogStream {
            tx: channel::open_channel(broadcast_capacity),
            recent: Some(recent),
            replay_capacity,
        }
    }

    /// Subscribe to lines published from this point forward.
    pub fn subscribe(&self) -> (rx: broadcast::Receiver<Arc<LogLine>>)
        ensures
            self.feeds(rx),
            channel::lines_before(rx) == self.published(),
            channel::lines_past(rx) == self.published().len(),
    {
        channel::subscribe(&self.tx)
    }

    /// What a subscriber of this stream finds when it looks for the next line, without
    /// waiting for one.
    pub fn try_recv(&self, rx: &mut broadcast::Receiver<Arc<LogLine>>) -> (taken: Taken)
        requires
            self.feeds(*old(rx)),
        ensures
            self.feeds(*final(rx)),
            channel::lines_before(*final(rx)) == channel::lines_before(*old(rx)),
            ({
                let past = channel::lines_past(*old(rx));
                let now_past = channel::lines_past(*final(rx));
                let next = channel::next_yield(self.published(), past, self.lag_limit());
                match taken {
                    Taken::Line(line) => next == Some((Yield::Line(*line), now_past)),
                    Taken::Lagged(missed) => next == Some((Yield::Lagged(missed as nat), now_past)),
                    Taken::Empty => next is None && now_past == past,
                    Taken::Closed => false,
                }
            }),
            ({
                let past = channel::lines_past(*old(rx));
                let now_past = channel::lines_past(*final(rx));
                let behind = self.published().len() - past;
                match taken {
                    Taken::Line(line) => {
                        &&& 0 < behind <= self.lag_limit()
                        &&& *line == self.published()[past as int]
                        &&& now_past == past + 1
                    },
                    Taken::Lagged(missed) => {
                        &&& 0 < behind
                        &&& missed == behind - self.lag_limit()
                        &&& missed > 0
                        &&& now_past == past + missed
                    },
                    Taken::Empty => behind <= 0 && now_past == past,
                    Taken::Closed => false,
                }
            }),
    {
        channel::take(&self.tx, rx)
    }

    /// Snapshot of recent lines, oldest first, for replay when a viewer connects.
    pub fn recent(&self) -> (lines: Vec<Arc<LogLine>>)
        requires
            self.wf(),
        ensures
            lines_of(lines@) == self.replay(),
            lines@.len() == if self.replay_lost() {
                0
            } else if self.published().len() < self.replay_limit() {
                self.published().len()
            } else {
                self.replay_limit()
            },
            forall|i: int|
                0 <= i < lines@.len() ==> *#[trigger] lines@[i]
                    == self.published()[self.published().len() - lines@.len() + i],
    {
        let mut lines: Vec<Arc<LogLine>> = Vec::new();
        assert(lines_of(lines@) =~= Seq::empty());
        if let Some(recent) = &self.recent {
            let mut i: usize = 0;
            while i < recent.len()
                invariant
                    i <= recent@.len(),
                    lines_of(lines@) == lines_of(recent@).take(i as int),
                decreases recent@.len() - i,
            {
                let ghost before = lines@;
                lines.push(share(&recent[i]));
                i += 1;
                assert(lines_of(lines@) =~= lines_of(before).push(*recent@[i - 1]));
                assert(lines_of(lines@) =~= lines_of(recent@).take(i as int));
            }
            assert(lines_of(lines@) =~= lines_of(recent@));
        }
        proof {
            assert(lines_of(lines@).len() == lines@.len());
            assert forall|i: int| 0 <= i < lines@.len() implies *#[trigger] lines@[i]
                == self.published()[self.published().len() - lines@.len() + i] by {
                assert(*lines@[i] == lines_of(lines@)[i]);
            }
        }
        lines
    }

    /// Record a line by appending to the ring buffer (dropping the oldest if
    /// full), and broadcast to live subscribers.
    pub fn publish(&mut self, line: LogLine)
        requires
            old(self).takes_lines(),
        ensures
            final(self).takes_lines(),
            final(self).published() == old(self).published().push(line),
            final(self).replay_lost() == old(self).replay_lost(),
            final(self).replay_limit() == old(self).replay_limit(),
            final(self).lag_limit() == old(self).lag_limit(),
            forall|rx: broadcast::Receiver<Arc<LogLine>>|
                #[trigger] final(self).feeds(rx) == old(self).feeds(rx),
    {
        let line = Arc::new(line);
        if let Some(recent) = &mut self.recent {
            retain(recent, self.replay_capacity, share(&line));
        }
        // A send fails where nobody listens, and there is nothing to be done then.
        let _ = channel::send(&mut self.tx, line);
        proof {
            let limit = self.replay_limit();
            let before = old(self).published();
            assert(keep_last(keep_last(before, limit).push(*line), limit) =~= keep_last(
                before.push(*line),
                limit,
            ));
        }
    }

    /// Gives up the ring buffer, for a stream whose buffer may have been left half
    /// changed. From then on lines are broadcast only.
    pub fn lose_replay(&mut self)
        ensures
            final(self).takes_lines(),
            final(self).replay_lost(),
            final(self).published() == old(self).published(),
            final(self).replay_limit() == old(self).replay_limit(),
            final(self).lag_limit() == old(self).lag_limit(),
            forall|rx: broadcast::Receiver<Arc<LogLine>>|
                #[trigger] final(self).feeds(rx) == old(self).feeds(rx),
    {
        self.recent = None;
    }
}

impl Default for LogStream {
    fn default() -> (stream: LogStream)
        ensures
            stream.takes_lines(),
            stream.published() == Seq::<LogLine>::empty(),
            !stream.replay_lost(),
            stream.replay_limit() == REPLAY_CAPACITY,
            stream.lag_limit() == BROADCAST_CAPACITY,
            stream.replay_limit() == 500,
            stream.lag_limit() == 1024,
    {
        let stream = LogStream::new(BROADCAST_CAPACITY, REPLAY_CAPACITY);
        proof {
            vstd::arithmetic::power2::lemma2_to64();
            channel::power_of_two_is_kept(10, stream.lag_limit());
        }
        stream
    }
}

/// What is replayed is the end of what was published, oldest first, and as much of it as
/// the limit allows.
pub proof fn replay_is_the_latest(stream: LogStream)
    requires
        !stream.replay_lost(),
    ensures
        stream.replay().len() <= stream.replay_limit(),
        stream.published().len() <= stream.replay_limit() ==> stream.replay()
            == stream.published(),
        stream.published().len() >= stream.replay_limit() ==> stream.replay().len()
            == stream.replay_limit(),
        forall|i: int|
            0 <= i < stream.replay().len() ==> #[trigger] stream.replay()[i]
                == stream.published()[stream.published().len() - stream.replay().len() + i],
{
}

/// What is kept of a run of items is its end: as many as allowed, or all where there are
/// fewer, in the order in which they were.
pub proof fn end_is_kept<T>(s: Seq<T>, n: nat)
    ensures
        keep_last(s, n).len() == if s.len() < n {
            s.len()
        } else {
            n
        },
        forall|i: int|
            0 <= i < keep_last(s, n).len() ==> #[trigger] keep_last(s, n)[i] == s[s.len()
                - keep_last(s, n).len() + i],
{
}

/// Each pointer stands for the line behind it, at the same place.
pub proof fn pointers_stand_for_their_lines(shared: Seq<Arc<LogLine>>)
    ensures
        lines_of(shared).len() == shared.len(),
        forall|i: int| 0 <= i < shared.len() ==> #[trigger] lines_of(shared)[i] == *shared[i],
{
}

/// A stream whose ring buffer was given up replays nothing.
pub proof fn nothing_is_replayed_once_lost(stream: LogStream)
    requires
        stream.replay_lost(),
    ensures
        stream.replay().len() == 0,
{
}

/// What [`LogStream::recent`] gives is the end of what was published, oldest first: as many
/// lines as the stream retains, or all where there are fewer, and none once the ring buffer
/// was given up.
pub proof fn recent_lines_are_the_latest(stream: &LogStream, lines: Vec<Arc<LogLine>>)
    requires
        call_ensures(LogStream::recent, (stream,), lines),
    ensures
        stream.replay_lost() ==> lines@.len() == 0,
        !stream.replay_lost() && stream.published().len() <= stream.replay_limit() ==> lines@.len()
            == stream.published().len(),
        !stream.replay_lost() && stream.published().len() >= stream.replay_limit() ==> lines@.len()
            == stream.replay_limit(),
        forall|i: int|
            0 <= i < lines@.len() ==> *#[trigger] lines@[i]
                == stream.published()[stream.published().len() - lines@.len() + i],
{
}

/// A line that is published is the last one to be replayed, and the oldest makes room for
/// it where the limit is reached.
pub proof fn publishing_drops_the_oldest(published: Seq<LogLine>, line: LogLine, limit: nat)
    requires
        limit > 0,
    ensures
        keep_last(published.push(line), limit) == if keep_last(published, limit).len() < limit {
            keep_last(published, limit).push(line)
        } else {
            keep_last(published, limit).drop_first().push(line)
        },
{
}

/// After a run of lines, the replay ends with them; lines from before the run are left
/// only where the run did not fill the replay.
pub proof fn replay_after_a_run(published: Seq<LogLine>, run: Seq<LogLine>, limit: nat)
    ensures
        keep_last(published + run, limit) == if run.len() >= limit {
            keep_last(run, limit)
        } else {
            keep_last(published, (limit - run.len()) as nat) + run
        },
{
}

/// All that a receiver which is past the first `past` lines of `history` is given, up to the
/// point where no line is pending.
pub open spec fn yields(history: Seq<LogLine>, past: nat, kept: nat) -> Seq<Yield>
    decreases history.len() - past,
{
    match channel::next_yield(history, past, kept) {
        Some((given, now_past)) => seq![given] + yields(history, now_past, kept),
        None => Seq::empty(),
    }
}

/// The lines of `history` from place `from` on, each as a receiver is given it.
pub open spec fn lines_from(history: Seq<LogLine>, from: int) -> Seq<Yield> {
    history.skip(from).map_values(|line: LogLine| Yield::Line(line))
}

/// A receiver that is behind by no more lines than the channel keeps is given just those
/// lines, in the order in which they were published.
pub proof fn kept_lines_are_given_in_order(history: Seq<LogLine>, past: nat, kept: nat)
    requires
        past <= history.len() <= past + kept,
    ensures
        yields(history, past, kept) == lines_from(history, past as int),
    decreases history.len() - past,
{
    if past < history.len() {
        kept_lines_are_given_in_order(history, past + 1, kept);
        assert(lines_from(history, past as int) =~= seq![Yield::Line(history[past as int])]
            + lines_from(history, (past + 1) as int));
    } else {
        assert(lines_from(history, past as int) =~= Seq::empty());
    }
}

/// A receiver that is behind by more lines than the channel keeps is told how many it
/// missed, and is then given the lines that are kept.
pub proof fn missed_lines_are_counted(history: Seq<LogLine>, past: nat, kept: nat)
    requires
        past + kept < history.len(),
    ensures
        yields(history, past, kept) == seq![Yield::Lagged((history.len() - kept - past) as nat)]
            + lines_from(history, history.len() - kept),
{
    kept_lines_are_given_in_order(history, (history.len() - kept) as nat, kept);
}

/// A subscriber is given every line that is published after it subscribed, in the order of
/// publication, and none from before, as long as there are no more of them than the
/// capacity that the stream was made with.
pub proof fn subscriber_is_given_what_follows(
    stream: LogStream,
    rx: broadcast::Receiver<Arc<LogLine>>,
    broadcast_capacity: nat,
)
    requires
        stream.feeds(rx),
        channel::lines_past(rx) == channel::lines_before(rx).len(),
        channel::lines_before(rx).is_prefix_of(stream.published()),
        channel::rounded_up(broadcast_capacity, stream.lag_limit()),
        stream.published().len() - channel::lines_before(rx).len() <= broadcast_capacity,
    ensures
        yields(stream.published(), channel::lines_past(rx), stream.lag_limit()) == lines_from(
            stream.published(),
            channel::lines_before(rx).len() as int,
        ),
{
    kept_lines_are_given_in_order(
        stream.published(),
        channel::lines_past(rx),
        stream.lag_limit(),
    );
}

/// How many published lines a receiver accounts for with what it was given.
pub open spec fn weight(given: Yield) -> nat {
    match given {
        Yield::Line(_) => 1,
        Yield::Lagged(missed) => missed,
    }
}

/// How many published lines a receiver accounts for with all that it was given.
pub open spec fn total_weight(given: Seq<Yield>) -> nat
    decreases given.len(),
{
    if given.len() == 0 {
        0
    } else {
        total_weight(given.drop_last()) + weight(given.last())
    }
}

/// What a receiver was given accounts for a stretch of `history`: each line that it was
/// given is the one at the place where the stretch before it ends.
pub open spec fn accounts_for(history: Seq<LogLine>, start: nat, given: Seq<Yield>) -> bool {
    &&& start + total_weight(given) <= history.len()
    &&& forall|i: int|
        0 <= i < given.len() ==> (#[trigger] given[i] matches Yield::Line(line) ==> {
            let at = start + total_weight(given.take(i));
            at < history.len() && line == history[at as int]
        })
}

/// Lines are dropped only when counted. Whatever a receiver was given so far, however much
/// was published meanwhile: if that accounts for the lines that it is past, then so it does
/// with what it is given next. A receiver that has just subscribed was given nothing.
pub proof fn every_line_is_accounted_for(
    published_then: Seq<LogLine>,
    history: Seq<LogLine>,
    start: nat,
    given: Seq<Yield>,
    kept: nat,
)
    requires
        published_then.is_prefix_of(history),
        accounts_for(history, start, given),
        channel::next_yield(published_then, start + total_weight(given), kept) is Some,
    ensures
        ({
            let past = start + total_weight(given);
            let (next, now_past) = channel::next_yield(published_then, past, kept)->0;
            &&& accounts_for(history, start, given.push(next))
            &&& now_past == start + total_weight(given.push(next))
        }),
{
    let past = start + total_weight(given);
    let (next, now_past) = channel::next_yield(published_then, past, kept)->0;
    let longer = given.push(next);
    assert(longer.drop_last() =~= given);
    assert(published_then =~= history.take(published_then.len() as int));
    assert forall|i: int| 0 <= i < longer.len() implies (#[trigger] longer[i] matches Yield::Line(
        line,
    ) ==> {
        let at = start + total_weight(longer.take(i));
        at < history.len() && line == history[at as int]
    }) by {
        if i < given.len() {
            assert(longer.take(i) =~= given.take(i));
            assert(longer[i] == given[i]);
        } else {
            assert(longer.take(i) =~= given);
        }
    }
}

/// A receiver for which no line is pending has accounted for all that was published since
/// it subscribed: the lines that it was given and those that it was told it missed are as
/// many as were published.
pub proof fn nothing_is_lost_uncounted(
    history: Seq<LogLine>,
    start: nat,
    given: Seq<Yield>,
    kept: nat,
)
    requires
        accounts_for(history, start, given),
        channel::next_yield(history, start + total_weight(given), kept) is None,
    ensures
        total_weight(given) == history.len() - start,
{
}

} // verus!
