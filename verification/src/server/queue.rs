//! The bounded queue between the connections and the persistence worker.

use crate::server::bonzoendpoint::BonzoEndpoint;
use tokio::sync::mpsc::{Receiver, Sender};
use tungstenite::protocol::Message;
use vstd::prelude::*;

verus! {

/// `tokio::sync::mpsc::Sender`, the sending end of the bounded queue that
/// leads to the persistence worker.
#[verifier::external_type_specification]
#[verifier::external_body]
#[verifier::reject_recursive_types(T)]
pub struct ExQueueSender<T>(Sender<T>);

/// `tokio::sync::mpsc::Receiver`, the end of the queue from which the
/// persistence worker takes its jobs.
#[verifier::external_type_specification]
#[verifier::external_body]
#[verifier::reject_recursive_types(T)]
pub struct ExQueueReceiver<T>(Receiver<T>);

/// How many jobs wait in the queue at most. A job that arrives when as many
/// wait is dropped.
pub const QUEUE_CAPACITY: usize = 256;

/// An update that waits to be stored: the message as it arrived, and the
/// address of its sender at that time.
pub struct PersistenceJob {
    pub message: Message,
    pub address: BonzoEndpoint,
}

/// Why the queue did not take a job.
#[derive(Clone, Copy, Debug, PartialEq, Eq, Structural)]
pub enum QueueRefusal {
    /// The queue holds as many jobs as it can.
    Full,
    /// The worker no longer receives.
    Closed,
}

/// Calls `Sender::try_send`, which never waits: it queues the job, or refuses
/// it because the queue is full or its receiving end is closed. Which of these
/// happens depends on the queue, so the contract claims nothing.
#[verifier::external_body]
pub(crate) fn try_enqueue(queue: &Sender<PersistenceJob>, job: PersistenceJob) -> (taken: Result<
    (),
    QueueRefusal,
>) {
    match queue.try_send(job) {
        Ok(()) => Ok(()),
        Err(tokio::sync::mpsc::error::TrySendError::Full(_)) => Err(QueueRefusal::Full),
        Err(tokio::sync::mpsc::error::TrySendError::Closed(_)) => Err(QueueRefusal::Closed),
    }
}

/// The number of jobs that a queue was made to hold, which is what
/// `Sender::max_capacity` returns for it.
pub uninterp spec fn queue_capacity(queue: Sender<PersistenceJob>) -> nat;

/// Calls `tokio::sync::mpsc::channel`, which makes a queue that holds up to
/// `capacity` jobs and returns its two ends. The call panics when the capacity
/// is zero or above an eighth of `usize::MAX`, so those are left out.
#[verifier::external_body]
pub(crate) fn bounded_queue(capacity: usize) -> (ends: (
    Sender<PersistenceJob>,
    Receiver<PersistenceJob>,
))
    requires
        0 < capacity <= usize::MAX / 8,
    ensures
        queue_capacity(ends.0) == capacity,
{
    tokio::sync::mpsc::channel(capacity)
}

/// Makes the queue that leads to the persistence worker, with room for
/// `QUEUE_CAPACITY` jobs.
pub fn open_queue() -> (ends: (Sender<PersistenceJob>, Receiver<PersistenceJob>))
    ensures
        queue_capacity(ends.0) == QUEUE_CAPACITY,
{
    bounded_queue(QUEUE_CAPACITY)
}

} // verus!
