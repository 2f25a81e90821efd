//! The broadcast channel that carries log lines to live subscribers, as `tokio`
//! provides it.

use crate::line::LogLine;
use std::sync::Arc;
use tokio::sync::broadcast;
use tokio::sync::broadcast::error::TryRecvError;
use vstd::prelude::*;

verus! {

/// The sending half of a broadcast channel of `tokio`.
#[verifier::external_type_specification]
#[verifier::external_body]
#[verifier::reject_recursive_types(T)]
pub struct ExSender<T>(broadcast::Sender<T>);

/// The receiving half of a broadcast channel of `tokio`.
#[verifier::external_type_specification]
#[verifier::external_body]
#[verifier::reject_recursive_types(T)]
pub struct ExReceiver<T>(broadcast::Receiver<T>);

/// The lines that were handed to the channel of `tx`, oldest first, whether or not anybody
/// received them.
pub uninterp spec fn sent_lines(tx: broadcast::Sender<Arc<LogLine>>) -> Seq<LogLine>;

/// How many lines the channel of `tx` keeps for a subscriber that is behind.
pub uninterp spec fn kept_lines(tx: broadcast::Sender<Arc<LogLine>>) -> nat;

/// The lines that had been handed to the channel of `rx` when `rx` subscribed, and
/// that `rx` therefore never receives.
pub uninterp spec fn lines_before(rx: broadcast::Receiver<Arc<LogLine>>) -> Seq<LogLine>;

/// `rx` is subscribed to the channel of `tx`.
pub uninterp spec fn feeds(
    tx: broadcast::Sender<Arc<LogLine>>,
    rx: broadcast::Receiver<Arc<LogLine>>,
) -> bool;

/// How many of the lines that were handed to its channel `rx` is past: those from before
/// it subscribed, those that it received, and those that it missed.
pub uninterp spec fn lines_past(rx: broadcast::Receiver<Arc<LogLine>>) -> nat;

/// What a receiver finds when it looks for the next line.
#[derive(Debug)]
pub enum Taken {
    /// The next line.
    Line(Arc<LogLine>),
    /// The receiver fell behind, and missed as many lines.
    Lagged(u64),
    /// No line is pending.
    Empty,
    /// No line is pending, and none will follow.
    Closed,
}

/// What a receiver is given: a line, or the number of lines that it missed.
pub enum Yield {
    Line(LogLine),
    Lagged(nat),
}

/// What a receiver that is past the first `past` lines of `history` is given next by a
/// channel that keeps `kept` lines, and how many lines it is past then. It is given nothing
/// where it is past all of them, the next line where that is kept, and otherwise the number
/// of lines that are no longer kept.
pub open spec fn next_yield(history: Seq<LogLine>, past: nat, kept: nat) -> Option<(Yield, nat)> {
    if past >= history.len() {
        None
    } else if history.len() - past <= kept {
        Some((Yield::Line(history[past as int]), past + 1))
    } else {
        Some((Yield::Lagged((history.len() - kept - past) as nat), (history.len() - kept) as nat))
    }
}

/// A receiver is given the very next line, unless the channel no longer keeps it; then it is
/// told how many lines it missed, and stands before the oldest that is kept. It never goes
/// back, and never past what was sent.
pub proof fn next_line_or_number_missed(history: Seq<LogLine>, past: nat, kept: nat)
    requires
        kept > 0,
    ensures
        next_yield(history, past, kept) is None <==> history.len() <= past,
        next_yield(history, past, kept) matches Some((given, now_past)) ==> {
            &&& past < now_past <= history.len()
            &&& given is Line <==> history.len() <= past + kept
            &&& given matches Yield::Line(line) ==> now_past == past + 1 && line
                == history[past as int]
            &&& given matches Yield::Lagged(missed) ==> now_past == past + missed && now_past
                + kept == history.len()
        },
{
}

/// `kept` is the smallest power of two that is not below `asked`.
pub open spec fn rounded_up(asked: nat, kept: nat) -> bool {
    &&& exists|e: nat| kept == vstd::arithmetic::power2::pow2(e)
    &&& asked <= kept < 2 * asked
}

/// A channel that is asked to keep a power of two of lines keeps just as many.
pub proof fn power_of_two_is_kept(e: nat, kept: nat)
    requires
        rounded_up(vstd::arithmetic::power2::pow2(e), kept),
    ensures
        kept == vstd::arithmetic::power2::pow2(e),
{
    let f = choose|f: nat| kept == vstd::arithmetic::power2::pow2(f);
    vstd::arithmetic::power2::lemma_pow2_unfold(e + 1);
    if f < e {
        vstd::arithmetic::power2::lemma_pow2_strictly_increases(f, e);
    } else if e + 1 < f {
        vstd::arithmetic::power2::lemma_pow2_strictly_increases(e + 1, f);
    }
}

/// A channel of `capacity` lines can be allocated: `tokio` wants at least one, and
/// its slots, which take less than 64 bytes each and are rounded up to a power of
/// two in number, must fit in one allocation.
pub open spec fn channel_fits(capacity: usize) -> bool {
    0 < capacity && 128 * capacity <= isize::MAX
}

/// `broadcast::channel`, of which the first receiver is dropped at once. Claims that
/// nothing has been sent on a new channel, and that `tokio` rounds the capacity up to a
/// power of two.
#[verifier::external_body]
pub(crate) fn open_channel(capacity: usize) -> (tx: broadcast::Sender<Arc<LogLine>>)
    requires
        channel_fits(capacity),
    ensures
        sent_lines(tx) == Seq::<LogLine>::empty(),
        rounded_up(capacity as nat, kept_lines(tx)),
{
    let (tx, _rx) = broadcast::channel(capacity);
    tx
}

/// `Sender::subscribe`. Claims that the receiver is given what is sent after the call, so
/// that what was sent before is lost on it. `tokio` panics at `usize::MAX / 4` receivers
/// of one channel, more than fit in memory.
#[verifier::external_body]
pub(crate) fn subscribe(tx: &broadcast::Sender<Arc<LogLine>>) -> (rx: broadcast::Receiver<
    Arc<LogLine>,
>)
    ensures
        feeds(*tx, rx),
        lines_before(rx) == sent_lines(*tx),
        lines_past(rx) == sent_lines(*tx).len(),
{
    tx.subscribe()
}

/// `Sender::send`. Claims that `line` is the next one on the channel, that the call
/// returns the number of receivers, and that it hands `line` back where there are none.
/// How many there are is not claimed: receivers come and go on their own. The sender is
/// borrowed mutably so that what was sent can be told before and after.
#[verifier::external_body]
pub(crate) fn send(tx: &mut broadcast::Sender<Arc<LogLine>>, line: Arc<LogLine>) -> (sent: Result<
    usize,
    Arc<LogLine>,
>)
    ensures
        sent_lines(*final(tx)) == sent_lines(*old(tx)).push(*line),
        kept_lines(*final(tx)) == kept_lines(*old(tx)),
        forall|rx: broadcast::Receiver<Arc<LogLine>>|
            #[trigger] feeds(*final(tx), rx) == feeds(*old(tx), rx),
        match sent {
            Ok(receivers) => receivers > 0,
            Err(back) => back == line,
        },
{
    tx.send(line).map_err(|error| error.0)
}

/// `Receiver::try_recv`, on a receiver of the channel of `_tx`. Claims that a receiver is
/// given the lines in the order in which they were sent, that one which is behind by more
/// lines than the channel keeps is told how many it missed and goes on with the oldest that
/// is kept, and that the channel is not closed as long as its sender lives. The sender is
/// there for the contract to tell which lines were sent.
#[verifier::external_body]
pub(crate) fn take(
    _tx: &broadcast::Sender<Arc<LogLine>>,
    rx: &mut broadcast::Receiver<Arc<LogLine>>,
) -> (taken: Taken)
    requires
        feeds(*_tx, *old(rx)),
    ensures
        feeds(*_tx, *final(rx)),
        lines_before(*final(rx)) == lines_before(*old(rx)),
        ({
            let next = next_yield(sent_lines(*_tx), lines_past(*old(rx)), kept_lines(*_tx));
            match taken {
                Taken::Line(line) => next == Some((Yield::Line(*line), lines_past(*final(rx)))),
                Taken::Lagged(missed) => next == Some(
                    (Yield::Lagged(missed as nat), lines_past(*final(rx))),
                ),
                Taken::Empty => next is None && lines_past(*final(rx)) == lines_past(*old(rx)),
                Taken::Closed => false,
            }
        }),
{
    match rx.try_recv() {
        Ok(line) => Taken::Line(line),
        Err(TryRecvError::Lagged(missed)) => Taken::Lagged(missed),
        Err(TryRecvError::Empty) => Taken::Empty,
        Err(TryRecvError::Closed) => Taken::Closed,
    }
}

} // verus!
