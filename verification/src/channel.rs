//! An unbounded first-in, first-out channel with any number of senders and
//! one receiver, and runs of producers and a consumer over it.

use crate::schedule::{interleave, is_interleaving, lemma_interleave_is_interleaving,
    lemma_interleave_with_nothing, Poll, ThreadId, FIRST, MAIN, SECOND};
use std::collections::VecDeque;
use vstd::pervasive::unreached;
use vstd::prelude::*;

verus! {

/// A receive found the channel empty with no sender left.
#[derive(Debug, Clone, Copy, PartialEq, Eq, Structural)]
pub struct ChannelClosed;

/// The state that the sender handles and the receiver of one channel share:
/// the values under way, oldest first, and the number of sender handles that
/// exist.
///
/// Once the last sender handle is gone no value can arrive any more. The
/// values already under way are still delivered; after them the channel is
/// closed for receiving.
#[derive(Debug)]
pub struct Channel<T> {
    queue: VecDeque<T>,
    senders: usize,
}

impl<T> Channel<T> {
    /// The values sent and not yet received, oldest first.
    pub closed spec fn queued(&self) -> Seq<T> {
        self.queue@
    }

    /// The number of sender handles.
    pub closed spec fn senders(&self) -> nat {
        self.senders as nat
    }

    /// What one attempt to receive yields on a channel in this state: the
    /// oldest value under way if there is one; else the end, if no sender is
    /// left; else nothing yet.
    pub open spec fn next_spec(&self) -> Poll<Option<T>> {
        if self.queued().len() > 0 {
            Poll::Ready(Some(self.queued()[0]))
        } else if self.senders() == 0 {
            Poll::Ready(None)
        } else {
            Poll::Pending
        }
    }

    /// The channel after one attempt to receive: without its oldest value,
    /// or as it was if it had none.
    pub open spec fn after_receive(before: Self, after: Self) -> bool {
        &&& after.senders() == before.senders()
        &&& after.queued() == if before.queued().len() > 0 {
            before.queued().skip(1)
        } else {
            before.queued()
        }
    }

    /// A new channel: nothing under way, and the one sender handle that
    /// comes with it.
    pub fn new() -> (channel: Self)
        ensures
            channel.queued() == Seq::<T>::empty(),
            channel.senders() == 1,
    {
        Channel { queue: VecDeque::new(), senders: 1 }
    }

    /// How many sender handles there are.
    pub fn sender_count(&self) -> (count: usize)
        ensures
            count == self.senders(),
    {
        self.senders
    }

    /// A sender handle is cloned: there is one more.
    pub fn clone_sender(&mut self)
        requires
            0 < old(self).senders() < usize::MAX,
        ensures
            final(self).senders() == old(self).senders() + 1,
            final(self).queued() == old(self).queued(),
    {
        self.senders = self.senders + 1;
    }

    /// A sender handle is dropped: there is one fewer.
    pub fn drop_sender(&mut self)
        requires
            old(self).senders() > 0,
        ensures
            final(self).senders() == old(self).senders() - 1,
            final(self).queued() == old(self).queued(),
    {
        self.senders = self.senders - 1;
    }

    /// Sends `value` through one of the sender handles: it goes behind
    /// everything already under way. The queue is unbounded, so a send never
    /// waits.
    pub fn send(&mut self, value: T)
        requires
            old(self).senders() > 0,
        ensures
            final(self).queued() == old(self).queued().push(value),
            final(self).senders() == old(self).senders(),
    {
        self.queue.push_back(value);
    }

    /// One attempt of the iterating receive. It yields the oldest value
    /// under way; with none under way it ends the iteration (`None`, which is
    /// no failure) if no sender is left, and has to wait otherwise.
    pub fn next(&mut self) -> (attempt: Poll<Option<T>>)
        ensures
            attempt == old(self).next_spec(),
            Self::after_receive(*old(self), *final(self)),
    {
        match self.queue.pop_front() {
            Some(value) => {
                assert(self.queue@ =~= old(self).queue@.skip(1));
                Poll::Ready(Some(value))
            },
            None => {
                if self.senders == 0 {
                    Poll::Ready(None)
                } else {
                    Poll::Pending
                }
            },
        }
    }

    /// One attempt of the single blocking receive. It yields the oldest
    /// value under way; with none under way it fails with [`ChannelClosed`]
    /// if no sender is left, and has to wait otherwise.
    pub fn recv(&mut self) -> (attempt: Poll<Result<T, ChannelClosed>>)
        ensures
            attempt == (match old(self).next_spec() {
                Poll::Ready(Some(value)) => Poll::Ready(Ok(value)),
                Poll::Ready(None) => Poll::Ready(Err(ChannelClosed)),
                Poll::Pending => Poll::Pending,
            }),
            Self::after_receive(*old(self), *final(self)),
    {
        match self.next() {
            Poll::Ready(Some(value)) => Poll::Ready(Ok(value)),
            Poll::Ready(None) => Poll::Ready(Err(ChannelClosed)),
            Poll::Pending => Poll::Pending,
        }
    }
}

/// One turn of a producer that still holds its sender handle: it sends the
/// next of its values, or, with none left, ends and drops the handle.
fn producer_turn<T>(channel: &mut Channel<T>, pending: &mut Vec<T>) -> (alive: bool)
    requires
        old(channel).senders() > 0,
    ensures
        alive == (old(pending)@.len() > 0),
        alive ==> {
            &&& final(channel).queued() == old(channel).queued().push(old(pending)@[0])
            &&& final(channel).senders() == old(channel).senders()
            &&& final(pending)@ == old(pending)@.skip(1)
        },
        !alive ==> {
            &&& final(channel).queued() == old(channel).queued()
            &&& final(channel).senders() == old(channel).senders() - 1
            &&& final(pending)@ == old(pending)@
        },
{
    if pending.len() > 0 {
        let value = pending.remove(0);
        channel.send(value);
        assert(pending@ =~= old(pending)@.skip(1));
        true
    } else {
        channel.drop_sender();
        false
    }
}

/// A producer that still holds its sender handle sends all the values it
/// has left, ends and drops the handle.
fn producer_runs_out<T>(channel: &mut Channel<T>, pending: &mut Vec<T>)
    requires
        old(channel).senders() > 0,
    ensures
        final(channel).queued() == old(channel).queued() + old(pending)@,
        final(channel).senders() == old(channel).senders() - 1,
        final(pending)@.len() == 0,
{
    assert(channel.queued() + pending@ =~= old(channel).queued() + old(pending)@);
    while pending.len() > 0
        invariant
            channel.senders() == old(channel).senders(),
            channel.senders() > 0,
            channel.queued() + pending@ == old(channel).queued() + old(pending)@,
        decreases pending@.len(),
    {
        let ghost before = (channel.queued(), pending@);
        let value = pending.remove(0);
        channel.send(value);
        assert(channel.queued() + pending@ =~= before.0 + before.1);
    }
    assert(channel.queued() + pending@ =~= channel.queued());
    channel.drop_sender();
}

/// With every sender gone, the consumer receives what is still under way
/// and its iteration ends.
fn consumer_runs_out<T>(channel: &mut Channel<T>, received: &mut Vec<T>)
    requires
        old(channel).senders() == 0,
    ensures
        final(received)@ == old(received)@ + old(channel).queued(),
        final(channel).queued().len() == 0,
        final(channel).senders() == 0,
{
    assert(received@ + channel.queued() =~= old(received)@ + old(channel).queued());
    loop
        invariant
            channel.senders() == 0,
            received@ + channel.queued() == old(received)@ + old(channel).queued(),
        ensures
            channel.senders() == 0,
            channel.queued().len() == 0,
            received@ == old(received)@ + old(channel).queued(),
        decreases channel.queued().len(),
    {
        let ghost before = (received@, channel.queued());
        match channel.next() {
            Poll::Ready(Some(value)) => {
                received.push(value);
                assert(received@ + channel.queued() =~= before.0 + before.1);
            },
            Poll::Ready(None) => {
                assert(received@ + channel.queued() =~= received@);
                break ;
            },
            Poll::Pending => {
                unreached::<()>();
            },
        }
    }
}

/// The values of a producer that may not exist.
spec fn values_of<T>(producer: Option<Vec<T>>) -> Seq<T> {
    match producer {
        Some(values) => values@,
        None => Seq::empty(),
    }
}

/// Runs one or two producers and the consumer under a schedule and returns
/// what the consumer's iteration yielded.
fn deliver<T>(first: Vec<T>, second: Option<Vec<T>>, schedule: &Vec<ThreadId>) -> (received: Vec<
    T,
>)
    ensures
        received@ == interleave(first@, values_of(second), FIRST, SECOND, schedule@),
{
    let ghost whole = interleave(first@, values_of(second), FIRST, SECOND, schedule@);
    let mut channel: Channel<T> = Channel::new();
    let mut first_alive = true;
    let mut first_pending = first;
    let mut second_alive = false;
    let mut second_pending: Vec<T> = Vec::new();
    if let Some(values) = second {
        channel.clone_sender();
        second_alive = true;
        second_pending = values;
    }
    let mut received: Vec<T> = Vec::new();
    let mut tick: usize = 0;
    proof {
        assert(schedule@.skip(0) =~= schedule@);
        assert(received@ + channel.queued() + whole =~= whole);
    }
    while tick < schedule.len()
        invariant
            tick <= schedule.len(),
            whole == interleave(first@, values_of(second), FIRST, SECOND, schedule@),
            received@ + channel.queued() + interleave(
                first_pending@,
                second_pending@,
                FIRST,
                SECOND,
                schedule@.skip(tick as int),
            ) == whole,
            channel.senders() == (if first_alive {
                1nat
            } else {
                0nat
            }) + (if second_alive {
                1nat
            } else {
                0nat
            }),
            !first_alive ==> first_pending@.len() == 0,
            !second_alive ==> second_pending@.len() == 0,
        decreases schedule.len() - tick,
    {
        let turn = schedule[tick];
        let ghost ahead = schedule@.skip(tick as int);
        let ghost before = (received@, channel.queued(), first_pending@, second_pending@);
        assert(ahead[0] == turn);
        assert(ahead.skip(1) =~= schedule@.skip(tick + 1));
        if turn == FIRST {
            if first_alive {
                first_alive = producer_turn(&mut channel, &mut first_pending);
            }
        } else if turn == SECOND {
            if second_alive {
                second_alive = producer_turn(&mut channel, &mut second_pending);
            }
        } else if turn == MAIN {
            match channel.next() {
                Poll::Ready(Some(value)) => {
                    received.push(value);
                },
                Poll::Ready(None) => {
                    proof {
                        lemma_interleave_with_nothing(Seq::<T>::empty(), FIRST, SECOND, ahead);
                        assert(first_pending@ =~= Seq::empty());
                        assert(second_pending@ =~= Seq::empty());
                        assert(received@ + channel.queued() + Seq::<T>::empty() =~= received@);
                    }
                    return received;
                },
                Poll::Pending => {},
            }
        }
        assert(received@ + channel.queued() + interleave(
            first_pending@,
            second_pending@,
            FIRST,
            SECOND,
            ahead.skip(1),
        ) =~= before.0 + before.1 + interleave(before.2, before.3, FIRST, SECOND, ahead));
        tick += 1;
    }
    let ghost sent = (channel.queued(), first_pending@, second_pending@);
    if first_alive {
        producer_runs_out(&mut channel, &mut first_pending);
    }
    if second_alive {
        producer_runs_out(&mut channel, &mut second_pending);
    }
    assert(channel.queued() =~= sent.0 + (sent.1 + sent.2));
    let ghost read = received@;
    consumer_runs_out(&mut channel, &mut received);
    assert(received@ =~= read + sent.0 + (sent.1 + sent.2));
    received
}

/// One producer sends `messages` in order and ends; the consumer iterates
/// over what arrives until the channel is closed. Returns what the iteration
/// yielded, in order.
///
/// The producer runs on the turns of [`FIRST`], the consumer on those of
/// [`MAIN`]. Whatever the schedule, the consumer gets exactly what was sent,
/// in the order it was sent, and then its iteration ends.
pub fn stream<T>(messages: Vec<T>, schedule: &Vec<ThreadId>) -> (received: Vec<T>)
    ensures
        received@ == messages@,
{
    proof {
        lemma_interleave_with_nothing(messages@, FIRST, SECOND, schedule@);
    }
    deliver(messages, None, schedule)
}

/// Two producers, each with a sender handle of its own, send `first` and
/// `second` and end; the consumer iterates over what arrives until the
/// channel is closed. Returns what the iteration yielded, in order.
///
/// The producers run on the turns of [`FIRST`] and [`SECOND`], the consumer
/// on those of [`MAIN`]. The values arrive in the order in which the
/// schedule has them sent: some interleaving of the two sequences that keeps
/// each producer's own order and loses nothing.
pub fn fan_in<T>(first: Vec<T>, second: Vec<T>, schedule: &Vec<ThreadId>) -> (received: Vec<T>)
    ensures
        received@ == interleave(first@, second@, FIRST, SECOND, schedule@),
        is_interleaving(received@, first@, second@),
        received@.len() == first@.len() + second@.len(),
{
    proof {
        lemma_interleave_is_interleaving(first@, second@, FIRST, SECOND, schedule@);
    }
    deliver(first, Some(second), schedule)
}

/// A producer sends `message`, if it has one, and ends; the invoking thread
/// makes a single blocking receive. Returns what the receive gave.
///
/// The producer runs on the turns of [`FIRST`], the invoking thread on those
/// of [`MAIN`]. Whatever the schedule, the receive yields the message if one
/// was sent, and fails with [`ChannelClosed`] if the producer ended without
/// sending: it does not wait for ever.
pub fn receive_one<T>(message: Option<T>, schedule: &Vec<ThreadId>) -> (received: Result<
    T,
    ChannelClosed,
>)
    ensures
        received == (match message {
            Some(value) => Ok(value),
            None => Err(ChannelClosed),
        }),
{
    let mut channel: Channel<T> = Channel::new();
    let mut alive = true;
    let mut pending: Vec<T> = Vec::new();
    if let Some(value) = message {
        pending.push(value);
    }
    let ghost sent: Seq<T> = pending@;
    let mut tick: usize = 0;
    assert(channel.queued() + pending@ =~= sent);
    while tick < schedule.len()
        invariant
            tick <= schedule.len(),
            sent == (match message {
                Some(value) => seq![value],
                None => Seq::empty(),
            }),
            channel.queued() + pending@ == sent,
            channel.senders() == (if alive {
                1nat
            } else {
                0nat
            }),
            !alive ==> pending@.len() == 0,
        decreases schedule.len() - tick,
    {
        let turn = schedule[tick];
        let ghost before = (channel.queued(), pending@);
        if turn == FIRST {
            if alive {
                alive = producer_turn(&mut channel, &mut pending);
                assert(channel.queued() + pending@ =~= before.0 + before.1);
            }
        } else if turn == MAIN {
            match channel.recv() {
                Poll::Ready(outcome) => {
                    assert(before.0 + before.1 =~= before.0);
                    return outcome;
                },
                Poll::Pending => {},
            }
        }
        tick += 1;
    }
    if alive {
        producer_runs_out(&mut channel, &mut pending);
    } else {
        assert(channel.queued() + pending@ =~= channel.queued());
    }
    match channel.recv() {
        Poll::Ready(outcome) => outcome,
        Poll::Pending => unreached(),
    }
}

} // verus!
