//! The pool's own bookkeeping: its workers, in the order they were made,
//! each with the handle of its thread until shutdown takes it, and the
//! submitting side of the job queue until shutdown closes it.
//!
//! The pool is generic over the thread handle `H` and the submitting
//! handle `S`, so that threads are spawned and joined by the caller while
//! the decisions stay here.
use vstd::prelude::*;
use crate::error::{PoolCreationError, SubmitError, zero_capacity_text};

verus! {

/// One worker: its ordinal in the pool and, until shutdown, its thread.
struct Worker<H> {
    id: usize,
    thread: Option<H>,
}

/// A fixed-size pool of workers fed through one submitting handle.
pub struct ThreadPool<H, S> {
    workers: Vec<Worker<H>>,
    sender: Option<S>,
}

impl<H, S> ThreadPool<H, S> {
    /// The ordinals of the workers, in the order they were made.
    pub closed spec fn ids(&self) -> Seq<usize> {
        self.workers@.map_values(|w: Worker<H>| w.id)
    }

    /// The thread handle each worker still holds, in the same order.
    pub closed spec fn threads(&self) -> Seq<Option<H>> {
        self.workers@.map_values(|w: Worker<H>| w.thread)
    }

    /// The submitting handle, present until shutdown begins.
    pub closed spec fn sender_view(&self) -> Option<S> {
        self.sender
    }

    /// A pool has at least one worker, the `i`-th worker has ordinal `i`,
    /// and the workers hold their threads exactly as long as the pool
    /// holds its submitting handle: no thread is taken before shutdown.
    pub open spec fn wf(&self) -> bool {
        &&& self.ids().len() >= 1
        &&& self.threads().len() == self.ids().len()
        &&& forall|i: int| 0 <= i < self.ids().len() ==> #[trigger] self.ids()[i] == i
        &&& forall|i: int|
            0 <= i < self.threads().len() ==> (#[trigger] self.threads()[i] is Some
                <==> self.sender_view() is Some)
    }

    /// Makes a pool of `capacity` workers, spawning the thread of each with
    /// its ordinal, in order from `0`.
    pub fn new<F: Fn(usize) -> H>(capacity: usize, sender: S, spawn: F) -> (p: Self)
        requires
            capacity >= 1,
            forall|i: usize| i < capacity ==> #[trigger] spawn.requires((i,)),
        ensures
            p.wf(),
            p.ids().len() == capacity,
            p.sender_view() == Some(sender),
            forall|i: int|
                0 <= i < capacity ==> spawn.ensures(
                    (i as usize,),
                    (#[trigger] p.threads()[i])->Some_0,
                ),
    {
        let mut workers: Vec<Worker<H>> = Vec::with_capacity(capacity);
        let mut id: usize = 0;
        while id < capacity
            invariant
                id <= capacity,
                workers@.len() == id,
                forall|i: usize| i < capacity ==> #[trigger] spawn.requires((i,)),
                forall|i: int| 0 <= i < id ==> (#[trigger] workers@[i]).id == i,
                forall|i: int| 0 <= i < id ==> (#[trigger] workers@[i]).thread is Some,
                forall|i: int|
                    0 <= i < id ==> spawn.ensures((i as usize,), (#[trigger] workers@[i]).thread->Some_0),
            decreases capacity - id,
        {
            let thread = spawn(id);
            workers.push(Worker { id, thread: Some(thread) });
            id = id + 1;
        }
        ThreadPool { workers, sender: Some(sender) }
    }

    /// Makes a pool of `capacity` workers as `new` does, or, for a capacity
    /// of zero, reports the error without spawning anything.
    pub fn build<F: Fn(usize) -> H>(capacity: usize, sender: S, spawn: F) -> (r: Result<
        Self,
        PoolCreationError,
    >)
        requires
            forall|i: usize| i < capacity ==> #[trigger] spawn.requires((i,)),
        ensures
            r is Err <==> capacity == 0,
            r matches Err(e) ==> e.message_view() == zero_capacity_text(),
            r matches Ok(p) ==> p.wf(),
            r matches Ok(p) ==> p.ids().len() == capacity,
            r matches Ok(p) ==> p.sender_view() == Some(sender),
            r matches Ok(p) ==> forall|i: int|
                0 <= i < capacity ==> spawn.ensures(
                    (i as usize,),
                    (#[trigger] p.threads()[i])->Some_0,
                ),
    {
        if capacity == 0 {
            Err(PoolCreationError::zero_capacity())
        } else {
            Ok(Self::new(capacity, sender, spawn))
        }
    }

    /// How many workers the pool holds.
    pub fn capacity(&self) -> (n: usize)
        ensures
            n == self.ids().len(),
    {
        self.workers.len()
    }

    /// The submitting handle, while the pool still accepts jobs: absent
    /// once shutdown has begun.
    pub fn sender(&self) -> (r: Option<&S>)
        ensures
            r is None <==> self.sender_view() is None,
            r matches Some(s) ==> self.sender_view() == Some(*s),
    {
        self.sender.as_ref()
    }

    /// Submits a job through the submitting handle, with `send`. Once
    /// shutdown has begun there is no handle, and the job is refused and
    /// handed back: it never silently succeeds.
    pub fn execute<T, F: FnOnce(&S, T) -> Result<(), SubmitError<T>>>(&self, job: T, send: F) -> (r:
        Result<(), SubmitError<T>>)
        requires
            self.sender_view() matches Some(s) ==> send.requires((&s, job)),
        ensures
            self.sender_view() is None ==> (r matches Err(e) && e.job == job),
            self.sender_view() matches Some(s) ==> send.ensures((&s, job), r),
    {
        match self.sender.as_ref() {
            Some(s) => send(s, job),
            None => Err(SubmitError { job }),
        }
    }

    /// Takes the submitting handle and every thread handle, so that the
    /// caller can close the queue and then join each thread, in the order
    /// the workers were made. A pool already shut down gives nothing more.
    pub fn shutdown(&mut self) -> (r: (Option<S>, Vec<(usize, H)>))
        requires
            old(self).wf(),
        ensures
            final(self).wf(),
            final(self).ids() == old(self).ids(),
            final(self).sender_view() is None,
            r.0 == old(self).sender_view(),
            r.1@.len() == (if old(self).sender_view() is Some {
                old(self).ids().len()
            } else {
                0
            }),
            forall|i: int|
                0 <= i < r.1@.len() ==> #[trigger] r.1@[i] == (i as usize, old(self).threads()[i]->Some_0),
    {
        let sender = self.sender.take();
        let mut joined: Vec<(usize, H)> = Vec::new();
        let n = self.workers.len();
        let mut i: usize = 0;
        while i < n
            invariant
                n == self.workers@.len(),
                n == old(self).workers@.len(),
                i <= n,
                self.sender is None,
                forall|k: int| 0 <= k < n ==> (#[trigger] self.workers@[k]).id == old(self).workers@[k].id,
                forall|k: int| 0 <= k < i ==> (#[trigger] self.workers@[k]).thread is None,
                forall|k: int| i <= k < n ==> (#[trigger] self.workers@[k]).thread == old(self).workers@[k].thread,
                old(self).wf(),
                sender == old(self).sender,
                joined@.len() == (if sender is Some { i as int } else { 0 }),
                forall|k: int| 0 <= k < joined@.len() ==> #[trigger] joined@[k] == (k as usize, old(self).threads()[k]->Some_0),
            decreases n - i,
        {
            proof {
                assert(old(self).threads()[i as int] == old(self).workers@[i as int].thread);
            }
            let thread = self.workers[i].thread.take();
            if let Some(h) = thread {
                joined.push((i, h));
            }
            i = i + 1;
        }
        proof {
            assert(self.ids() =~= old(self).ids());
        }
        (sender, joined)
    }
}

} // verus!
