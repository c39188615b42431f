//! The completion bridge: how a worker thread hands its one result to the
//! poller that waits for it.
//!
//! The bridge is a result slot and a waker slot behind one lock. The worker
//! stores its result and then takes the waker out to invoke it; the poller
//! looks for the result and, finding none, leaves its waker. Because each of
//! the two is one step under the lock, whichever comes first, the poller
//! either finds the result or is woken for it. The lock, the thread and the
//! waking itself belong to the owner of the bridge.

use vstd::prelude::*;

verus! {

/// What has become of the worker.
#[derive(Debug, Clone, Copy, PartialEq, Eq, Structural)]
pub enum Producer {
    /// Still at work.
    Running,
    /// Finished, and its result was stored.
    Delivered,
    /// Gone without a result.
    Vanished,
}

/// The failure that a bridge reports in place of a result.
#[derive(Debug, Clone, Copy, PartialEq, Eq, Structural)]
pub enum BridgeError {
    /// The worker terminated without providing a result.
    Terminated,
}

impl BridgeError {
    /// The failure in words.
    pub open spec fn text(self) -> Seq<char> {
        "thread terminated without providing a result"@
    }

    /// The failure in words.
    pub fn message(&self) -> (m: &'static str)
        ensures
            m@ == self.text(),
    {
        "thread terminated without providing a result"
    }
}

/// What a poll of the bridge found.
#[derive(Debug, PartialEq, Eq)]
pub enum BridgePoll<T> {
    /// The outcome of the work, handed over once.
    Ready(Result<T, BridgeError>),
    /// The worker is still at work; the waker was left for it.
    Pending,
    /// The outcome was handed over by an earlier poll.
    Spent,
}

/// The mathematical content of a [`CompletionBridge`].
pub struct BridgeView<T, W> {
    /// The result, from its delivery until a poll takes it.
    pub slot: Option<T>,
    pub producer: Producer,
    /// The waker of the poller that found no result yet.
    pub waker: Option<W>,
    /// Whether a poll has handed the outcome over.
    pub resolved: bool,
}

/// A bridge after one operation, with what the operation returned.
pub struct BridgeStep<T, W, R> {
    pub state: BridgeView<T, W>,
    pub output: R,
}

impl<T, W> BridgeView<T, W> {
    /// A bridge whose worker has just started.
    pub open spec fn initial() -> Self {
        BridgeView { slot: None, producer: Producer::Running, waker: None, resolved: false }
    }

    /// What holds of every bridge: a result waits only between its delivery
    /// and the poll that takes it; nothing is resolved while the worker
    /// runs; and a waker waits only for a running worker.
    pub open spec fn wf(self) -> bool {
        &&& self.producer is Running ==> self.slot is None && !self.resolved
        &&& self.producer is Delivered ==> (self.slot is Some <==> !self.resolved)
        &&& self.producer is Vanished ==> self.slot is None
        &&& self.waker is Some ==> self.producer is Running
    }

    /// The worker delivers `value`: the value is stored first, then the
    /// waker is taken out, to be invoked. A bridge whose worker is no longer
    /// running takes no value and gives it back.
    pub open spec fn complete(self, value: T) -> BridgeStep<T, W, Result<Option<W>, T>> {
        if self.producer is Running {
            BridgeStep {
                state: BridgeView {
                    slot: Some(value),
                    producer: Producer::Delivered,
                    waker: None,
                    resolved: self.resolved,
                },
                output: Ok(self.waker),
            }
        } else {
            BridgeStep { state: self, output: Err(value) }
        }
    }

    /// The worker is gone without a result: the waker is taken out, to be
    /// invoked. Nothing changes once the worker has delivered or is gone.
    pub open spec fn abandon(self) -> BridgeStep<T, W, Option<W>> {
        if self.producer is Running {
            BridgeStep {
                state: BridgeView { producer: Producer::Vanished, waker: None, ..self },
                output: self.waker,
            }
        } else {
            BridgeStep { state: self, output: None }
        }
    }

    /// The poller looks for the outcome, and leaves `waker` if there is none
    /// yet, in place of any waker left before.
    pub open spec fn poll(self, waker: W) -> BridgeStep<T, W, BridgePoll<T>> {
        if self.resolved {
            BridgeStep { state: self, output: BridgePoll::Spent }
        } else if self.slot is Some {
            BridgeStep {
                state: BridgeView { slot: None, resolved: true, ..self },
                output: BridgePoll::Ready(Ok(self.slot->Some_0)),
            }
        } else if self.producer is Running {
            BridgeStep {
                state: BridgeView { waker: Some(waker), ..self },
                output: BridgePoll::Pending,
            }
        } else {
            BridgeStep {
                state: BridgeView { resolved: true, ..self },
                output: BridgePoll::Ready(Err(BridgeError::Terminated)),
            }
        }
    }
}

/// The handoff between one worker and one poller.
pub struct CompletionBridge<T, W> {
    slot: Option<T>,
    producer: Producer,
    waker: Option<W>,
    resolved: bool,
}

impl<T, W> View for CompletionBridge<T, W> {
    type V = BridgeView<T, W>;

    closed spec fn view(&self) -> BridgeView<T, W> {
        BridgeView {
            slot: self.slot,
            producer: self.producer,
            waker: self.waker,
            resolved: self.resolved,
        }
    }
}

impl<T, W> CompletionBridge<T, W> {
    /// A bridge for a worker that has just started.
    pub fn new() -> (b: Self)
        ensures
            b@ == BridgeView::<T, W>::initial(),
            b@.wf(),
    {
        CompletionBridge { slot: None, producer: Producer::Running, waker: None, resolved: false }
    }

    /// What has become of the worker.
    pub fn producer(&self) -> (p: Producer)
        ensures
            p == self@.producer,
    {
        self.producer
    }

    /// Whether a poll has handed the outcome over.
    pub fn is_resolved(&self) -> (r: bool)
        ensures
            r == self@.resolved,
    {
        self.resolved
    }

    /// Called by the worker with its result. Stores the result and returns
    /// the waker that the poller left, if any: the caller invokes it, after
    /// this call. A second delivery, or one after the worker was given up,
    /// is refused and the value handed back.
    pub fn complete(&mut self, value: T) -> (r: Result<Option<W>, T>)
        requires
            old(self)@.wf(),
        ensures
            final(self)@ == old(self)@.complete(value).state,
            r == old(self)@.complete(value).output,
            final(self)@.wf(),
    {
        match self.producer {
            Producer::Running => {
                self.slot = Some(value);
                self.producer = Producer::Delivered;
                Ok(self.waker.take())
            },
            _ => Err(value),
        }
    }

    /// Called when the worker is gone without a result. Returns the waker
    /// that the poller left, if any, for the caller to invoke.
    pub fn abandon(&mut self) -> (w: Option<W>)
        requires
            old(self)@.wf(),
        ensures
            final(self)@ == old(self)@.abandon().state,
            w == old(self)@.abandon().output,
            final(self)@.wf(),
    {
        match self.producer {
            Producer::Running => {
                self.producer = Producer::Vanished;
                self.waker.take()
            },
            _ => None,
        }
    }

    /// Called by the poller. Hands over the result if it is there, reports
    /// the failure if the worker is gone without one, and otherwise leaves
    /// `waker` in the bridge and reports that the outcome is pending.
    pub fn poll(&mut self, waker: W) -> (p: BridgePoll<T>)
        requires
            old(self)@.wf(),
        ensures
            final(self)@ == old(self)@.poll(waker).state,
            p == old(self)@.poll(waker).output,
            final(self)@.wf(),
    {
        if self.resolved {
            return BridgePoll::Spent;
        }
        match self.slot.take() {
            Some(value) => {
                self.resolved = true;
                BridgePoll::Ready(Ok(value))
            },
            None => match self.producer {
                Producer::Running => {
                    self.waker = Some(waker);
                    BridgePoll::Pending
                },
                _ => {
                    self.resolved = true;
                    BridgePoll::Ready(Err(BridgeError::Terminated))
                },
            },
        }
    }
}

/// Every operation leads from a well-formed bridge to a well-formed bridge.
pub proof fn lemma_bridge_wf<T, W>(b: BridgeView<T, W>, value: T, waker: W)
    requires
        b.wf(),
    ensures
        b.complete(value).state.wf(),
        b.abandon().state.wf(),
        b.poll(waker).state.wf(),
{
}

/// What a poll finds is decided by what became of the worker: it is pending
/// exactly while the worker runs, it is the result exactly when one waits,
/// it is the failure exactly when the worker is gone with no result and
/// nothing was handed over yet, and it is spent exactly after a handover.
pub proof fn lemma_poll_outcome<T, W>(b: BridgeView<T, W>, waker: W)
    requires
        b.wf(),
    ensures
        b.poll(waker).output is Pending <==> b.producer is Running,
        b.poll(waker).output == BridgePoll::Ready(Ok::<T, BridgeError>(b.slot->Some_0))
            <==> b.slot is Some,
        b.poll(waker).output == BridgePoll::Ready(Err::<T, BridgeError>(BridgeError::Terminated))
            <==> b.producer is Vanished && !b.resolved,
        b.poll(waker).output is Spent <==> b.resolved,
        b.poll(waker).output is Ready ==> b.poll(waker).state.resolved,
{
}

/// An outcome is handed over once: after a poll that was ready, whatever
/// the worker or the poller does next, every poll is spent and nothing
/// waits in the slot.
pub proof fn lemma_single_outcome<T, W>(b: BridgeView<T, W>, value: T, waker: W)
    requires
        b.wf(),
        b.resolved,
    ensures
        b.poll(waker).output is Spent,
        b.poll(waker).state == b,
        b.complete(value).state == b,
        b.complete(value).output == Err::<Option<W>, T>(value),
        b.abandon().state == b,
        b.slot is None,
{
}

/// No wakeup is lost, whichever of worker and poller comes first. If the
/// poller comes first, it is pending, and the delivery that follows returns
/// its waker to be invoked; if the worker comes first, no waker is needed.
/// Either way the next poll hands over the value that was delivered.
pub proof fn lemma_no_lost_wakeup<T, W>(b: BridgeView<T, W>, value: T, waker: W, next: W)
    requires
        b.wf(),
        b.producer is Running,
    ensures
        b.poll(waker).output is Pending,
        b.poll(waker).state.complete(value).output == Ok::<Option<W>, T>(Some(waker)),
        b.poll(waker).state.complete(value).state.poll(next).output == BridgePoll::Ready(
            Ok::<T, BridgeError>(value),
        ),
        b.complete(value).output == Ok::<Option<W>, T>(b.waker),
        b.complete(value).state.poll(next).output == BridgePoll::Ready(
            Ok::<T, BridgeError>(value),
        ),
{
}

/// A worker that is gone without a result is noticed like one that
/// delivered: a waker left before is returned to be invoked, and the next
/// poll reports the failure instead of staying pending.
pub proof fn lemma_vanished_worker_is_reported<T, W>(b: BridgeView<T, W>, waker: W, next: W)
    requires
        b.wf(),
        b.producer is Running,
    ensures
        b.poll(waker).state.abandon().output == Some(waker),
        b.poll(waker).state.abandon().state.poll(next).output == BridgePoll::Ready(
            Err::<T, BridgeError>(BridgeError::Terminated),
        ),
        b.abandon().state.poll(next).output == BridgePoll::Ready(
            Err::<T, BridgeError>(BridgeError::Terminated),
        ),
{
}

} // verus!
