//! The job queue: an unbounded first-in, first-out hand-off between the
//! submitting side and the workers, which is closed once and for good.
//!
//! Its model remembers, besides the jobs still waiting, every job already
//! handed out, so that the contracts can say where each accepted job went.
use vstd::prelude::*;
use std::collections::VecDeque;
use crate::error::SubmitError;

verus! {

/// What a worker gets when it asks the queue for work.
pub enum Received<T> {
    /// The oldest waiting job, now owned by the one worker that asked.
    Job(T),
    /// Nothing waits, but jobs may still come: ask again later.
    Empty,
    /// Nothing waits and nothing more can come.
    Closed,
}

/// The queue as a mathematical value.
pub struct QueueModel<T> {
    /// Every job handed out so far, in the order it left the queue.
    pub delivered: Seq<T>,
    /// The jobs accepted and not yet handed out, oldest first.
    pub pending: Seq<T>,
    /// Whether the submitting side still accepts jobs.
    pub open: bool,
}

/// The queue after a job is offered: appended while open, else unchanged.
pub open spec fn submit_step<T>(m: QueueModel<T>, job: T) -> QueueModel<T> {
    if m.open {
        QueueModel { pending: m.pending.push(job), ..m }
    } else {
        m
    }
}

/// The queue after its submitting side is closed.
pub open spec fn close_step<T>(m: QueueModel<T>) -> QueueModel<T> {
    QueueModel { open: false, ..m }
}

/// The queue after a worker asks for work: the oldest job moves to the
/// delivered ones, if there is one.
pub open spec fn receive_step<T>(m: QueueModel<T>) -> QueueModel<T> {
    if m.pending.len() > 0 {
        QueueModel {
            delivered: m.delivered.push(m.pending[0]),
            pending: m.pending.drop_first(),
            open: m.open,
        }
    } else {
        m
    }
}

/// What a worker that asks for work is given.
pub open spec fn receive_result<T>(m: QueueModel<T>) -> Received<T> {
    if m.pending.len() > 0 {
        Received::Job(m.pending[0])
    } else if m.open {
        Received::Empty
    } else {
        Received::Closed
    }
}

/// The job queue. Jobs leave in the order they came, each exactly once.
pub struct JobQueue<T> {
    jobs: VecDeque<T>,
    open: bool,
    delivered: Ghost<Seq<T>>,
}

impl<T> View for JobQueue<T> {
    type V = QueueModel<T>;

    closed spec fn view(&self) -> QueueModel<T> {
        QueueModel { delivered: self.delivered@, pending: self.jobs@, open: self.open }
    }
}

impl<T> JobQueue<T> {
    /// An open queue that has seen no job yet.
    pub fn new() -> (q: JobQueue<T>)
        ensures
            q@ == (QueueModel::<T> { delivered: Seq::empty(), pending: Seq::empty(), open: true }),
    {
        JobQueue { jobs: VecDeque::new(), open: true, delivered: Ghost(Seq::empty()) }
    }

    /// Offers a job. An open queue appends it and never blocks; a closed
    /// one hands it back untouched.
    pub fn submit(&mut self, job: T) -> (r: Result<(), SubmitError<T>>)
        ensures
            final(self)@ == submit_step(old(self)@, job),
            r is Ok <==> old(self)@.open,
            r matches Err(e) ==> e.job == job,
    {
        if self.open {
            self.jobs.push_back(job);
            Ok(())
        } else {
            Err(SubmitError { job })
        }
    }

    /// Hands out the oldest waiting job. With none waiting, says whether
    /// more may still come.
    pub fn receive(&mut self) -> (r: Received<T>)
        ensures
            r == receive_result(old(self)@),
            final(self)@ == receive_step(old(self)@),
    {
        match self.jobs.pop_front() {
            Some(job) => {
                proof {
                    self.delivered@ = self.delivered@.push(job);
                }
                Received::Job(job)
            },
            None => {
                if self.open {
                    Received::Empty
                } else {
                    Received::Closed
                }
            },
        }
    }

    /// Closes the submitting side. Jobs already waiting stay and are
    /// still handed out.
    pub fn close(&mut self)
        ensures
            final(self)@ == close_step(old(self)@),
    {
        self.open = false;
    }

    /// Whether the queue still accepts jobs.
    pub fn is_open(&self) -> (b: bool)
        ensures
            b == self@.open,
    {
        self.open
    }

    /// How many jobs wait.
    pub fn len(&self) -> (n: usize)
        ensures
            n == self@.pending.len(),
    {
        self.jobs.len()
    }
}

/// One operation on the queue, as it appears in a history of calls.
pub enum QueueOp<T> {
    Submit(T),
    Receive,
    Close,
}

/// The queue after one operation.
pub open spec fn apply_op<T>(m: QueueModel<T>, op: QueueOp<T>) -> QueueModel<T> {
    match op {
        QueueOp::Submit(job) => submit_step(m, job),
        QueueOp::Receive => receive_step(m),
        QueueOp::Close => close_step(m),
    }
}

/// The queue after a history of operations, applied in order.
pub open spec fn run_ops<T>(m: QueueModel<T>, ops: Seq<QueueOp<T>>) -> QueueModel<T>
    decreases ops.len(),
{
    if ops.len() == 0 {
        m
    } else {
        run_ops(apply_op(m, ops[0]), ops.drop_first())
    }
}

/// The jobs of a history that the queue accepted, in the order offered.
pub open spec fn accepted_jobs<T>(m: QueueModel<T>, ops: Seq<QueueOp<T>>) -> Seq<T>
    decreases ops.len(),
{
    if ops.len() == 0 {
        Seq::empty()
    } else {
        let here = match ops[0] {
            QueueOp::Submit(job) => if m.open {
                seq![job]
            } else {
                Seq::empty()
            },
            _ => Seq::empty(),
        };
        here + accepted_jobs(apply_op(m, ops[0]), ops.drop_first())
    }
}

/// A history of `n` requests for work and nothing else.
pub open spec fn receives<T>(n: nat) -> Seq<QueueOp<T>> {
    Seq::new(n, |i: int| QueueOp::Receive)
}

/// Whatever the history of submissions, requests and closing, each accepted
/// job is handed out at most once and none is lost: the jobs handed out,
/// followed by those still waiting, are exactly the jobs accepted, in the
/// order they were accepted. What was handed out before stays handed out.
pub proof fn lemma_each_job_handed_out_once<T>(m: QueueModel<T>, ops: Seq<QueueOp<T>>)
    ensures
        run_ops(m, ops).delivered + run_ops(m, ops).pending == m.delivered + m.pending
            + accepted_jobs(m, ops),
        m.delivered.len() <= run_ops(m, ops).delivered.len(),
        run_ops(m, ops).delivered.subrange(0, m.delivered.len() as int) == m.delivered,
    decreases ops.len(),
{
    if ops.len() == 0 {
        assert(m.delivered + m.pending + Seq::<T>::empty() =~= m.delivered + m.pending);
        assert(m.delivered.subrange(0, m.delivered.len() as int) =~= m.delivered);
    } else {
        let next = apply_op(m, ops[0]);
        let rest = ops.drop_first();
        lemma_each_job_handed_out_once(next, rest);
        let here = match ops[0] {
            QueueOp::Submit(job) => if m.open {
                seq![job]
            } else {
                Seq::empty()
            },
            _ => Seq::empty(),
        };
        assert(accepted_jobs(m, ops) == here + accepted_jobs(next, rest));
        assert(next.delivered + next.pending =~= m.delivered + m.pending + here) by {
            if m.pending.len() > 0 && ops[0] is Receive {
                assert(m.pending =~= seq![m.pending[0]] + m.pending.drop_first());
            }
        }
        assert(m.delivered.len() <= next.delivered.len());
        assert(next.delivered.subrange(0, m.delivered.len() as int) =~= m.delivered);
        let end = run_ops(next, rest);
        assert(end.delivered.subrange(0, m.delivered.len() as int) =~= next.delivered.subrange(
            0,
            next.delivered.len() as int,
        ).subrange(0, m.delivered.len() as int));
    }
}

/// The queue after `i` requests for work, while jobs still wait.
proof fn lemma_after_receives<T>(m: QueueModel<T>, i: nat)
    requires
        i <= m.pending.len(),
    ensures
        run_ops(m, receives(i)) == (QueueModel {
            delivered: m.delivered + m.pending.take(i as int),
            pending: m.pending.skip(i as int),
            open: m.open,
        }),
    decreases i,
{
    if i == 0 {
        assert(m.delivered + m.pending.take(0) =~= m.delivered);
        assert(m.pending.skip(0) =~= m.pending);
    } else {
        let next = receive_step(m);
        assert(receives::<T>(i).drop_first() =~= receives::<T>((i - 1) as nat));
        lemma_after_receives(next, (i - 1) as nat);
        assert(next.delivered + next.pending.take(i - 1) =~= m.delivered + m.pending.take(
            i as int,
        ));
        assert(next.pending.skip(i - 1) =~= m.pending.skip(i as int));
    }
}

/// Jobs that wait are not lost while workers are busy: as workers come
/// free and ask, the `i`-th request is given the `i`-th waiting job, and
/// once every waiting job is handed out the queue reports that it is empty,
/// or closed if its submitting side is.
pub proof fn lemma_waiting_jobs_are_handed_out<T>(m: QueueModel<T>)
    ensures
        forall|i: int|
            0 <= i < m.pending.len() ==> #[trigger] receive_result(run_ops(m, receives(i as nat)))
                == Received::Job(m.pending[i]),
        run_ops(m, receives(m.pending.len())).delivered == m.delivered + m.pending,
        run_ops(m, receives(m.pending.len())).pending.len() == 0,
        receive_result(run_ops(m, receives(m.pending.len()))) == (if m.open {
            Received::<T>::Empty
        } else {
            Received::<T>::Closed
        }),
{
    assert forall|i: int| 0 <= i < m.pending.len() implies #[trigger] receive_result(
        run_ops(m, receives(i as nat)),
    ) == Received::Job(m.pending[i]) by {
        lemma_after_receives(m, i as nat);
    }
    lemma_after_receives(m, m.pending.len());
    assert(m.pending.take(m.pending.len() as int) =~= m.pending);
}

/// Once closed, a queue stays closed and accepts no job, whatever is
/// offered to it afterwards.
pub proof fn lemma_closed_queue_accepts_nothing<T>(m: QueueModel<T>, ops: Seq<QueueOp<T>>)
    requires
        !m.open,
    ensures
        accepted_jobs(m, ops) == Seq::<T>::empty(),
        !run_ops(m, ops).open,
    decreases ops.len(),
{
    if ops.len() > 0 {
        lemma_closed_queue_accepts_nothing(apply_op(m, ops[0]), ops.drop_first());
        assert(accepted_jobs(m, ops) =~= Seq::<T>::empty());
    }
}

} // verus!
