//! Scheduling onto the main thread: two ordered lanes and the rules of
//! their use.
//!
//! Tasks that must run on the main thread are queued in one of two lanes.
//! The host's main loop takes them out again, one at a time, and polls them:
//! a task of the low-priority lane is taken only when the normal lane is
//! empty. Until the host has configured the scheduler, every attempt to
//! queue a task is refused, so that no task is ever queued that nothing
//! will run.

use std::collections::VecDeque;
use vstd::prelude::*;

verus! {

/// The lane that a task is queued in.
#[derive(Debug, Clone, Copy, PartialEq, Eq, Structural)]
pub enum Priority {
    Normal,
    Low,
}

/// Why a task was not queued.
#[derive(Debug, Clone, Copy, PartialEq, Eq, Structural)]
pub enum SpawnError {
    /// No scheduler has been configured. The host treats this as fatal.
    NoSchedulerConfigured,
}

impl SpawnError {
    /// The reason in words.
    pub open spec fn text(self) -> Seq<char> {
        "no scheduler has been configured"@
    }

    /// The reason in words.
    pub fn message(&self) -> (m: &'static str)
        ensures
            m@ == self.text(),
    {
        "no scheduler has been configured"
    }
}

/// How the wait for a task's result ended without one.
#[derive(Debug, Clone, PartialEq, Eq)]
pub enum JoinError<E> {
    /// The task was cancelled or panicked before it produced a result.
    Cancelled,
    /// The task ran to its end and failed.
    Failed(E),
}

/// The mathematical content of a [`Scheduler`].
pub struct SchedulerView<K> {
    pub configured: bool,
    /// The tasks of the normal lane, oldest first.
    pub normal: Seq<K>,
    /// The tasks of the low-priority lane, oldest first.
    pub low: Seq<K>,
}

impl<K> SchedulerView<K> {
    /// A scheduler that the host has not configured yet.
    pub open spec fn unconfigured() -> Self {
        SchedulerView { configured: false, normal: Seq::empty(), low: Seq::empty() }
    }

    /// What holds of every scheduler: nothing is queued before it is
    /// configured.
    pub open spec fn wf(self) -> bool {
        !self.configured ==> self.normal.len() == 0 && self.low.len() == 0
    }

    /// The scheduler once the host has configured it.
    pub open spec fn configure(self) -> Self {
        SchedulerView { configured: true, ..self }
    }

    /// The scheduler after `task` was queued in `lane`; an unconfigured
    /// scheduler stays as it is.
    pub open spec fn schedule(self, lane: Priority, task: K) -> Self {
        if !self.configured {
            self
        } else {
            match lane {
                Priority::Normal => SchedulerView { normal: self.normal.push(task), ..self },
                Priority::Low => SchedulerView { low: self.low.push(task), ..self },
            }
        }
    }

    /// The order in which the queued tasks are taken out if none is added:
    /// the whole normal lane, then the low-priority lane.
    pub open spec fn run_order(self) -> Seq<K> {
        self.normal + self.low
    }

    /// The task that the main loop takes next, with its lane.
    pub open spec fn next(self) -> Option<(Priority, K)> {
        if self.normal.len() > 0 {
            Some((Priority::Normal, self.normal[0]))
        } else if self.low.len() > 0 {
            Some((Priority::Low, self.low[0]))
        } else {
            None
        }
    }

    /// The scheduler after the main loop took its next task.
    pub open spec fn after_next(self) -> Self {
        if self.normal.len() > 0 {
            SchedulerView { normal: self.normal.skip(1), ..self }
        } else if self.low.len() > 0 {
            SchedulerView { low: self.low.skip(1), ..self }
        } else {
            self
        }
    }
}

/// The two lanes of the main thread.
pub struct Scheduler<K> {
    configured: bool,
    normal: VecDeque<K>,
    low: VecDeque<K>,
}

impl<K> View for Scheduler<K> {
    type V = SchedulerView<K>;

    closed spec fn view(&self) -> SchedulerView<K> {
        SchedulerView { configured: self.configured, normal: self.normal@, low: self.low@ }
    }
}

impl<K> Scheduler<K> {
    /// A scheduler that refuses every task until it is configured.
    pub fn new() -> (s: Self)
        ensures
            s@ == SchedulerView::<K>::unconfigured(),
            s@.wf(),
    {
        Scheduler { configured: false, normal: VecDeque::new(), low: VecDeque::new() }
    }

    /// Whether the host has configured the scheduler.
    pub fn is_configured(&self) -> (c: bool)
        ensures
            c == self@.configured,
    {
        self.configured
    }

    /// The number of tasks queued in `lane`.
    pub fn queued(&self, lane: Priority) -> (n: usize)
        ensures
            n == match lane {
                Priority::Normal => self@.normal.len(),
                Priority::Low => self@.low.len(),
            },
    {
        match lane {
            Priority::Normal => self.normal.len(),
            Priority::Low => self.low.len(),
        }
    }

    /// Queues `task` at the back of `lane`. Before the scheduler is
    /// configured the task is refused and nothing is queued.
    pub fn schedule(&mut self, lane: Priority, task: K) -> (r: Result<(), SpawnError>)
        requires
            old(self)@.wf(),
        ensures
            final(self)@ == old(self)@.schedule(lane, task),
            r == if old(self)@.configured {
                Ok::<(), SpawnError>(())
            } else {
                Err::<(), SpawnError>(SpawnError::NoSchedulerConfigured)
            },
            final(self)@.wf(),
    {
        if !self.configured {
            return Err(SpawnError::NoSchedulerConfigured);
        }
        match lane {
            Priority::Normal => self.normal.push_back(task),
            Priority::Low => self.low.push_back(task),
        }
        Ok(())
    }

    /// Takes out the task that the main loop is to poll next: the oldest of
    /// the normal lane, and only when that lane is empty the oldest of the
    /// low-priority lane.
    pub fn next_task(&mut self) -> (t: Option<(Priority, K)>)
        requires
            old(self)@.wf(),
        ensures
            t == old(self)@.next(),
            final(self)@ == old(self)@.after_next(),
            final(self)@.wf(),
    {
        match self.normal.pop_front() {
            Some(task) => {
                assert(self.normal@ =~= old(self)@.normal.skip(1));
                Some((Priority::Normal, task))
            },
            None => match self.low.pop_front() {
                Some(task) => {
                    assert(self.low@ =~= old(self)@.low.skip(1));
                    Some((Priority::Low, task))
                },
                None => None,
            },
        }
    }
}

/// Configures the scheduler: from now on tasks are queued. What is queued
/// already stays queued.
pub fn set_schedulers<K>(scheduler: &mut Scheduler<K>)
    requires
        old(scheduler)@.wf(),
    ensures
        final(scheduler)@ == old(scheduler)@.configure(),
        final(scheduler)@.wf(),
{
    scheduler.configured = true;
}

/// Queues a task for the main thread with normal priority. The task may
/// hold state that must not leave the main thread.
pub fn spawn<K>(scheduler: &mut Scheduler<K>, task: K) -> (r: Result<(), SpawnError>)
    requires
        old(scheduler)@.wf(),
    ensures
        final(scheduler)@ == old(scheduler)@.schedule(Priority::Normal, task),
        r is Ok <==> old(scheduler)@.configured,
        r is Err ==> r == Err::<(), SpawnError>(SpawnError::NoSchedulerConfigured),
        final(scheduler)@.wf(),
{
    scheduler.schedule(Priority::Normal, task)
}

/// Queues a task for the main thread with low priority: it is polled only
/// after all tasks of normal priority. The task may hold state that must not
/// leave the main thread.
pub fn spawn_with_low_priority<K>(scheduler: &mut Scheduler<K>, task: K) -> (r: Result<
    (),
    SpawnError,
>)
    requires
        old(scheduler)@.wf(),
    ensures
        final(scheduler)@ == old(scheduler)@.schedule(Priority::Low, task),
        r is Ok <==> old(scheduler)@.configured,
        r is Err ==> r == Err::<(), SpawnError>(SpawnError::NoSchedulerConfigured),
        final(scheduler)@.wf(),
{
    scheduler.schedule(Priority::Low, task)
}

/// Queues a task for the main thread with normal priority, from any thread:
/// the task must be fit to cross threads.
pub fn spawn_into_main_thread<K: Send>(scheduler: &mut Scheduler<K>, task: K) -> (r: Result<
    (),
    SpawnError,
>)
    requires
        old(scheduler)@.wf(),
    ensures
        final(scheduler)@ == old(scheduler)@.schedule(Priority::Normal, task),
        r is Ok <==> old(scheduler)@.configured,
        r is Err ==> r == Err::<(), SpawnError>(SpawnError::NoSchedulerConfigured),
        final(scheduler)@.wf(),
{
    scheduler.schedule(Priority::Normal, task)
}

/// Queues a task for the main thread with low priority, from any thread:
/// the task must be fit to cross threads. It is polled only after all tasks
/// of normal priority.
pub fn spawn_into_main_thread_with_low_priority<K: Send>(
    scheduler: &mut Scheduler<K>,
    task: K,
) -> (r: Result<(), SpawnError>)
    requires
        old(scheduler)@.wf(),
    ensures
        final(scheduler)@ == old(scheduler)@.schedule(Priority::Low, task),
        r is Ok <==> old(scheduler)@.configured,
        r is Err ==> r == Err::<(), SpawnError>(SpawnError::NoSchedulerConfigured),
        final(scheduler)@.wf(),
{
    scheduler.schedule(Priority::Low, task)
}

/// What the wait for a task's result amounts to: the result itself, or the
/// reason why there is none. `outcome` is what the task's handle resolved
/// to, `None` if the task was cancelled or panicked.
pub fn join_handle_result<T, E>(outcome: Option<Result<T, E>>) -> (r: Result<T, JoinError<E>>)
    ensures
        r == match outcome {
            Some(Ok(value)) => Ok::<T, JoinError<E>>(value),
            Some(Err(e)) => Err::<T, JoinError<E>>(JoinError::Failed(e)),
            None => Err::<T, JoinError<E>>(JoinError::Cancelled),
        },
{
    match outcome {
        Some(Ok(value)) => Ok(value),
        Some(Err(e)) => Err(JoinError::Failed(e)),
        None => Err(JoinError::Cancelled),
    }
}

/// Before the scheduler is configured nothing is ever queued: whatever the
/// lane and the task, the scheduler stays unconfigured and empty, so the
/// main loop finds nothing to take.
pub proof fn lemma_unconfigured_queues_nothing<K>(s: SchedulerView<K>, lane: Priority, task: K)
    requires
        s.wf(),
        !s.configured,
    ensures
        s.schedule(lane, task) == s,
        s.schedule(lane, task).next() == None::<(Priority, K)>,
        s.run_order() == Seq::<K>::empty(),
{
    assert(s.normal + s.low =~= Seq::<K>::empty());
}

/// Normal priority goes first: the main loop takes a low-priority task only
/// when no normal task is queued, and a task queued with normal priority
/// is taken before every task that waits in the low-priority lane.
pub proof fn lemma_normal_before_low<K>(s: SchedulerView<K>, task: K)
    requires
        s.wf(),
        s.configured,
    ensures
        s.next() is Some && s.next()->Some_0.0 is Low ==> s.normal.len() == 0,
        s.schedule(Priority::Normal, task).run_order() == s.normal.push(task) + s.low,
        s.schedule(Priority::Low, task).run_order() == s.run_order().push(task),
{
    assert(s.normal + s.low.push(task) =~= (s.normal + s.low).push(task));
}

/// The main loop takes the queued tasks in their run order: what it takes
/// next is the first of that order, and what stays is the rest of it.
pub proof fn lemma_next_follows_run_order<K>(s: SchedulerView<K>)
    requires
        s.run_order().len() > 0,
    ensures
        s.next() is Some,
        s.next()->Some_0.1 == s.run_order()[0],
        s.after_next().run_order() == s.run_order().skip(1),
{
    assert(s.after_next().run_order() =~= s.run_order().skip(1));
}

} // verus!
