//! What a worker does with what the queue gives it.
use vstd::prelude::*;
use crate::queue::{QueueModel, Received, receive_result};

verus! {

/// A worker either loops on the queue or has stopped for good.
#[derive(Clone, Copy, Debug, PartialEq, Eq, Structural)]
pub enum WorkerState {
    Running,
    Stopped,
}

/// What a running worker does next.
pub enum WorkerAction<T> {
    /// Run the job to completion, then ask again.
    Run(T),
    /// Block until a job or the closing of the queue is signalled.
    Wait,
    /// Leave the loop: the thread ends.
    Exit,
}

/// The next state and action of a running worker given what it received:
/// it stops on the closed signal and on nothing else.
pub open spec fn worker_step<T>(msg: Received<T>) -> (WorkerState, WorkerAction<T>) {
    match msg {
        Received::Job(job) => (WorkerState::Running, WorkerAction::Run(job)),
        Received::Empty => (WorkerState::Running, WorkerAction::Wait),
        Received::Closed => (WorkerState::Stopped, WorkerAction::Exit),
    }
}

impl WorkerState {
    /// One turn of a running worker's loop.
    pub fn step<T>(self, msg: Received<T>) -> (r: (WorkerState, WorkerAction<T>))
        requires
            self is Running,
        ensures
            r == worker_step(msg),
    {
        match msg {
            Received::Job(job) => (WorkerState::Running, WorkerAction::Run(job)),
            Received::Empty => (WorkerState::Running, WorkerAction::Wait),
            Received::Closed => (WorkerState::Stopped, WorkerAction::Exit),
        }
    }
}

/// A worker stops only once the queue is closed and no job waits in it, so
/// no job accepted before shutdown is left behind by a stopping worker.
pub proof fn lemma_worker_stops_only_when_drained<T>(m: QueueModel<T>)
    ensures
        worker_step(receive_result(m)).0 is Stopped ==> !m.open && m.pending.len() == 0,
        worker_step(receive_result(m)).1 is Exit <==> worker_step(receive_result(m)).0 is Stopped,
{
}

} // verus!
