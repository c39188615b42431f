//! A queue whose consumer can also be waited on.
//!
//! Any number of producers put items into a pollable channel; its one
//! consumer takes them out without blocking, oldest first. Besides, the
//! consumer has a readiness signal to wait on together with other sources.
//! The signal is up for as long as a receive would find something: an item,
//! or the news that the last producer is gone.

use crossbeam::channel::Receiver;
use crossbeam::channel::TryRecvError;
use std::collections::VecDeque;
use vstd::prelude::*;

verus! {

/// What a non-blocking receive found.
#[derive(Debug, Clone, PartialEq, Eq)]
pub enum TryRecv<T> {
    /// The oldest queued item.
    Item(T),
    /// Nothing is queued, but a producer is still alive.
    Empty,
    /// Nothing is queued and every producer is gone.
    Disconnected,
}


/// The receiving side of a crossbeam channel. What it holds is in the hands
/// of the threads that send into it, so nothing is known of it here.
#[verifier::external_type_specification]
#[verifier::external_body]
#[verifier::reject_recursive_types(T)]
pub struct ExReceiver<T>(Receiver<T>);

/// Receives from a crossbeam channel without blocking, by its
/// `Receiver::try_recv`, and tells the three outcomes apart. Nothing is
/// claimed of the outcome: it depends on what other threads have sent.
#[verifier::external_body]
pub(crate) fn try_recv_from<T>(rx: &Receiver<T>) -> (r: TryRecv<T>) {
    match rx.try_recv() {
        Ok(item) => TryRecv::Item(item),
        Err(TryRecvError::Empty) => TryRecv::Empty,
        Err(TryRecvError::Disconnected) => TryRecv::Disconnected,
    }
}

/// The mathematical content of a [`PollableChannel`].
pub struct ChannelView<T> {
    /// The queued items, oldest first.
    pub queue: Seq<T>,
    /// The number of producers that are alive.
    pub senders: nat,
}

/// A channel after one operation, with what the operation returned.
pub struct ChannelStep<T, R> {
    pub state: ChannelView<T>,
    pub output: R,
}

impl<T> ChannelView<T> {
    /// An empty channel with one producer.
    pub open spec fn initial() -> Self {
        ChannelView { queue: Seq::empty(), senders: 1 }
    }

    /// Whether the readiness signal is up: an item is queued, or no producer
    /// is left.
    pub open spec fn ready(self) -> bool {
        self.queue.len() > 0 || self.senders == 0
    }

    /// A producer sends `item`. Without a producer nothing can be sent, and
    /// the item comes back.
    pub open spec fn send(self, item: T) -> ChannelStep<T, Result<(), T>> {
        if self.senders == 0 {
            ChannelStep { state: self, output: Err(item) }
        } else {
            ChannelStep {
                state: ChannelView { queue: self.queue.push(item), ..self },
                output: Ok(()),
            }
        }
    }

    /// The consumer receives without blocking.
    pub open spec fn try_recv(self) -> ChannelStep<T, TryRecv<T>> {
        if self.queue.len() > 0 {
            ChannelStep {
                state: ChannelView { queue: self.queue.skip(1), ..self },
                output: TryRecv::Item(self.queue[0]),
            }
        } else if self.senders == 0 {
            ChannelStep { state: self, output: TryRecv::Disconnected }
        } else {
            ChannelStep { state: self, output: TryRecv::Empty }
        }
    }

    /// The channel after sending each of `items` in turn.
    pub open spec fn send_all(self, items: Seq<T>) -> Self
        decreases items.len(),
    {
        if items.len() == 0 {
            self
        } else {
            self.send(items[0]).state.send_all(items.skip(1))
        }
    }
}

/// A queue from many producers to one consumer, with a readiness signal.
pub struct PollableChannel<T> {
    queue: VecDeque<T>,
    senders: usize,
}

impl<T> View for PollableChannel<T> {
    type V = ChannelView<T>;

    closed spec fn view(&self) -> ChannelView<T> {
        ChannelView { queue: self.queue@, senders: self.senders as nat }
    }
}

/// A new channel: empty, with one producer.
pub fn pollable_channel<T>() -> (c: PollableChannel<T>)
    ensures
        c@ == ChannelView::<T>::initial(),
{
    PollableChannel { queue: VecDeque::new(), senders: 1 }
}

impl<T> PollableChannel<T> {
    /// The number of items queued.
    pub fn len(&self) -> (n: usize)
        ensures
            n == self@.queue.len(),
    {
        self.queue.len()
    }

    /// The number of producers that are alive.
    pub fn senders(&self) -> (n: usize)
        ensures
            n == self@.senders,
    {
        self.senders
    }

    /// Whether the readiness signal is up, that is, whether a receive would
    /// find an item or find the channel disconnected.
    pub fn is_ready(&self) -> (r: bool)
        ensures
            r == self@.ready(),
    {
        self.queue.len() > 0 || self.senders == 0
    }

    /// Counts one more producer. Returns `false`, and counts nothing, when
    /// the count cannot grow.
    pub fn add_sender(&mut self) -> (added: bool)
        ensures
            added == (old(self)@.senders < usize::MAX),
            final(self)@.queue == old(self)@.queue,
            final(self)@.senders == if added {
                old(self)@.senders + 1
            } else {
                old(self)@.senders
            },
    {
        if self.senders < usize::MAX {
            self.senders = self.senders + 1;
            true
        } else {
            false
        }
    }

    /// Counts one producer less. When the last one is gone, the channel is
    /// disconnected once it is drained.
    pub fn drop_sender(&mut self)
        ensures
            final(self)@.queue == old(self)@.queue,
            final(self)@.senders == if old(self)@.senders > 0 {
                old(self)@.senders - 1
            } else {
                0
            },
    {
        if self.senders > 0 {
            self.senders = self.senders - 1;
        }
    }

    /// Queues `item` behind all that is queued and leaves the readiness
    /// signal up. Without a producer the item is handed back.
    pub fn send(&mut self, item: T) -> (r: Result<(), T>)
        ensures
            final(self)@ == old(self)@.send(item).state,
            r == old(self)@.send(item).output,
            r is Ok ==> final(self)@.ready(),
    {
        if self.senders == 0 {
            return Err(item);
        }
        self.queue.push_back(item);
        Ok(())
    }

    /// Takes the oldest item, if there is one; tells otherwise whether a
    /// producer is still alive.
    pub fn try_recv(&mut self) -> (r: TryRecv<T>)
        ensures
            final(self)@ == old(self)@.try_recv().state,
            r == old(self)@.try_recv().output,
    {
        match self.queue.pop_front() {
            Some(item) => {
                assert(self.queue@ =~= old(self)@.queue.skip(1));
                TryRecv::Item(item)
            },
            None => {
                if self.senders == 0 {
                    TryRecv::Disconnected
                } else {
                    TryRecv::Empty
                }
            },
        }
    }
}

/// The signal tells the truth: it is up exactly when a receive finds
/// something other than an empty channel, and a send leaves it up until the
/// queue is drained.
pub proof fn lemma_ready_iff_receivable<T>(c: ChannelView<T>, item: T)
    ensures
        c.ready() <==> !(c.try_recv().output is Empty),
        c.send(item).output is Ok ==> c.send(item).state.ready(),
        c.queue.len() > 1 ==> c.try_recv().state.ready(),
{
}

/// What is sent is received in the order of sending, behind what was queued
/// before.
pub proof fn lemma_fifo<T>(c: ChannelView<T>, items: Seq<T>)
    requires
        c.senders > 0,
    ensures
        c.send_all(items) == (ChannelView { queue: c.queue + items, ..c }),
    decreases items.len(),
{
    if items.len() == 0 {
        assert(c.queue + items =~= c.queue);
    } else {
        lemma_fifo(c.send(items[0]).state, items.skip(1));
        assert(c.queue.push(items[0]) + items.skip(1) =~= c.queue + items);
    }
}

/// A channel is reported disconnected only when it is drained: the items
/// sent before the last producer went are still received, each in its turn.
pub proof fn lemma_disconnect_after_drain<T>(c: ChannelView<T>)
    requires
        c.senders == 0,
    ensures
        c.queue.len() > 0 ==> c.try_recv().output == TryRecv::Item(c.queue[0]),
        c.queue.len() == 0 ==> c.try_recv().output == TryRecv::<T>::Disconnected,
        c.try_recv().state.senders == 0,
{
}

} // verus!
