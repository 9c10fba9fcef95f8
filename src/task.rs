//! Hand-off of tasks to the owner thread: a FIFO queue drained by a `Handler`, which passes each
//! task to its callback in the order the tasks were sent and stops for good at the first failure.
use vstd::prelude::*;
use std::collections::VecDeque;

verus! {

/// What the owner of a `Handler` does with each task. It runs on the thread that owns the
/// handler; once it fails, the handler never calls it again.
pub trait HandlerCallback<T> {
    type Error;

    fn handle_task(&mut self, task: T) -> Result<(), Self::Error>;
}

/// Drains queued tasks into a callback, one at a time, in the order they were sent.
pub struct Handler<T, C: HandlerCallback<T>> {
    callback: C,
    queue: VecDeque<T>,
    active: bool,
    dispatched: Ghost<Seq<T>>,
}

impl<T, C: HandlerCallback<T>> Handler<T, C> {
    /// The tasks sent and not yet handed to the callback, oldest first.
    pub closed spec fn pending(&self) -> Seq<T> {
        self.queue@
    }

    /// The tasks handed to the callback so far, in the order it received them.
    pub closed spec fn dispatched(&self) -> Seq<T> {
        self.dispatched@
    }

    /// Whether the handler still hands tasks to its callback.
    pub closed spec fn spec_active(&self) -> bool {
        self.active
    }

    pub closed spec fn spec_callback(&self) -> C {
        self.callback
    }

    pub fn new(callback: C) -> (r: Self)
        ensures
            r.pending() == Seq::<T>::empty(),
            r.dispatched() == Seq::<T>::empty(),
            r.spec_active(),
            r.spec_callback() == callback,
    {
        Handler { callback, queue: VecDeque::new(), active: true, dispatched: Ghost(Seq::empty()) }
    }

    pub fn is_active(&self) -> (r: bool)
        ensures
            r == self.spec_active(),
    {
        self.active
    }

    pub fn callback(&self) -> (r: &C)
        ensures
            *r == self.spec_callback(),
    {
        &self.callback
    }

    /// The number of tasks waiting.
    pub fn pending_count(&self) -> (r: usize)
        ensures
            r == self.pending().len(),
    {
        self.queue.len()
    }

    /// Queues a task behind the ones already sent.
    pub fn send(&mut self, task: T)
        ensures
            final(self).pending() == old(self).pending().push(task),
            final(self).dispatched() == old(self).dispatched(),
            final(self).spec_active() == old(self).spec_active(),
            final(self).spec_callback() == old(self).spec_callback(),
    {
        self.queue.push_back(task);
    }

    /// Hands the waiting tasks to the callback, oldest first, until none is left or the callback
    /// fails. A failure deactivates the handler; an inactive handler hands out nothing.
    /// Whatever happens, the tasks handed out followed by those still waiting are the tasks
    /// sent, in the order they were sent.
    pub fn handle_tasks(&mut self) -> (r: Result<(), C::Error>)
        ensures
            final(self).dispatched() + final(self).pending() == old(self).dispatched() + old(
                self,
            ).pending(),
            !old(self).spec_active() ==> {
                &&& r is Ok
                &&& final(self).pending() == old(self).pending()
                &&& final(self).dispatched() == old(self).dispatched()
                &&& !final(self).spec_active()
            },
            old(self).spec_active() && r is Ok ==> {
                &&& final(self).pending() == Seq::<T>::empty()
                &&& final(self).dispatched() == old(self).dispatched() + old(self).pending()
                &&& final(self).spec_active()
            },
            r is Err ==> {
                &&& old(self).spec_active()
                &&& !final(self).spec_active()
                &&& exists|n: int|
                    0 < n <= old(self).pending().len() && final(self).dispatched() == old(
                        self,
                    ).dispatched() + old(self).pending().take(n) && final(self).pending() == old(
                        self,
                    ).pending().skip(n)
            },
    {
        if !self.active {
            return Ok(());
        }
        let ghost start_log = self.dispatched@;
        let ghost start_queue = self.queue@;
        while self.queue.len() > 0
            invariant
                self.active,
                old(self).active,
                start_log == old(self).dispatched@,
                start_queue == old(self).queue@,
                self.dispatched@ + self.queue@ == start_log + start_queue,
                self.queue@ == start_queue.skip(self.dispatched@.len() - start_log.len()),
                self.dispatched@ == start_log + start_queue.take(
                    self.dispatched@.len() - start_log.len(),
                ),
                start_log.len() <= self.dispatched@.len() <= start_log.len() + start_queue.len(),
            decreases self.queue@.len(),
        {
            let ghost before = self.queue@;
            let task = match self.queue.pop_front() {
                Some(t) => t,
                None => {
                    return Ok(());
                },
            };
            proof {
                let k = self.dispatched@.len() - start_log.len();
                assert(start_queue[k] == task);
                self.dispatched@ = self.dispatched@.push(task);
                assert(self.queue@ =~= start_queue.skip(k + 1));
                assert(start_queue.take(k + 1) =~= start_queue.take(k).push(task));
                assert(self.dispatched@ =~= start_log + start_queue.take(k + 1));
                assert(self.dispatched@ + self.queue@ =~= start_log + start_queue.take(k + 1)
                    + start_queue.skip(k + 1));
                assert(start_queue.take(k + 1) + start_queue.skip(k + 1) =~= start_queue);
                assert(start_log + start_queue.take(k + 1) + start_queue.skip(k + 1) =~= start_log
                    + start_queue);
            }
            match self.callback.handle_task(task) {
                Ok(()) => {},
                Err(e) => {
                    proof {
                        let n = self.dispatched@.len() - start_log.len();
                        assert(0 < n <= start_queue.len());
                        assert(self.dispatched@ == old(self).dispatched@ + old(self).queue@.take(n));
                        assert(self.queue@ == old(self).queue@.skip(n));
                    }
                    self.active = false;
                    return Err(e);
                },
            }
        }
        proof {
            assert(start_queue.take(start_queue.len() as int) =~= start_queue);
        }
        Ok(())
    }
}

/// One operation on a handler: a task sent, or a drain that hands out the `n` oldest waiting
/// tasks (all of them when fewer wait), as a drain does when the callback fails on the `n`-th.
pub enum HandoffStep<T> {
    Send(T),
    Drain(usize),
}

/// The tasks handed out and the tasks waiting after the steps, from an empty handler.
pub open spec fn handoff_after<T>(steps: Seq<HandoffStep<T>>) -> (Seq<T>, Seq<T>)
    decreases steps.len(),
{
    if steps.len() == 0 {
        (Seq::empty(), Seq::empty())
    } else {
        let (out, waiting) = handoff_after(steps.drop_last());
        match steps.last() {
            HandoffStep::Send(t) => (out, waiting.push(t)),
            HandoffStep::Drain(n) => {
                let k = if n <= waiting.len() { n as int } else { waiting.len() as int };
                (out + waiting.take(k), waiting.skip(k))
            },
        }
    }
}

/// The tasks sent by the steps, in the order they were sent.
pub open spec fn sent_tasks<T>(steps: Seq<HandoffStep<T>>) -> Seq<T>
    decreases steps.len(),
{
    if steps.len() == 0 {
        Seq::empty()
    } else {
        match steps.last() {
            HandoffStep::Send(t) => sent_tasks(steps.drop_last()).push(t),
            HandoffStep::Drain(_) => sent_tasks(steps.drop_last()),
        }
    }
}

/// Tasks come out in the order they were sent: after any interleaving of sends and drains, the
/// tasks handed out so far are a prefix of the tasks sent, and the tasks still waiting are the
/// rest, in order.
pub proof fn lemma_fifo<T>(steps: Seq<HandoffStep<T>>)
    ensures
        handoff_after(steps).0 + handoff_after(steps).1 == sent_tasks(steps),
    decreases steps.len(),
{
    if steps.len() > 0 {
        lemma_fifo(steps.drop_last());
        let (out, waiting) = handoff_after(steps.drop_last());
        match steps.last() {
            HandoffStep::Send(t) => {
                assert(out + waiting.push(t) =~= (out + waiting).push(t));
            },
            HandoffStep::Drain(n) => {
                let k = if n <= waiting.len() { n as int } else { waiting.len() as int };
                assert(out + waiting.take(k) + waiting.skip(k) =~= out + waiting);
            },
        }
    }
}

} // verus!
