//! A fixed-size pool of workers fed from one shared job queue.
//!
//! The library holds the parts of the pool that decide: the job queue
//! itself (first in, first out, closed once and for good), the state
//! machine each worker runs, and the pool's own bookkeeping of its workers,
//! their thread handles and the submission side of the queue. Spawning,
//! locking and joining threads is left to the caller, which hands the
//! library plain values and acts on what comes back.
pub mod error;
pub mod http;
pub mod pool;
pub mod queue;
pub mod worker;

pub use error::{PoolCreationError, SubmitError};
pub use http::{Route, response, route};
pub use pool::ThreadPool;
pub use queue::{JobQueue, QueueModel, Received};
pub use worker::{WorkerAction, WorkerState};
