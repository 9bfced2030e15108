//! The unbounded channel over which a connection receives what its peers send.

use futures_channel::mpsc::{TrySendError, UnboundedReceiver, UnboundedSender};
use tungstenite::protocol::Message;
use vstd::prelude::*;

verus! {

/// `futures_channel::mpsc::UnboundedSender`, the sending end of a channel.
#[verifier::external_type_specification]
#[verifier::external_body]
#[verifier::reject_recursive_types(T)]
pub struct ExUnboundedSender<T>(UnboundedSender<T>);

/// `futures_channel::mpsc::UnboundedReceiver`, the receiving end of a channel.
#[verifier::external_type_specification]
#[verifier::external_body]
#[verifier::reject_recursive_types(T)]
pub struct ExUnboundedReceiver<T>(UnboundedReceiver<T>);

/// `futures_channel::mpsc::TrySendError`, which hands back a message that a
/// channel did not take.
#[verifier::external_type_specification]
#[verifier::external_body]
#[verifier::reject_recursive_types(T)]
pub struct ExTrySendError<T>(TrySendError<T>);

/// Whether a sending end leads to a receiving end: what
/// `UnboundedSender::is_connected_to` returns for the two.
pub uninterp spec fn connected(
    sender: UnboundedSender<Message>,
    receiver: UnboundedReceiver<Message>,
) -> bool;

/// Calls `futures_channel::mpsc::unbounded`, which makes a channel and returns
/// its two ends. The sending end leads to the receiving end.
#[verifier::external_body]
pub(crate) fn open_channel() -> (ends: (UnboundedSender<Message>, UnboundedReceiver<Message>))
    ensures
        connected(ends.0, ends.1),
{
    futures_channel::mpsc::unbounded()
}

/// `UnboundedSender::unbounded_send` queues a message without waiting. It returns
/// an error when the receiving end has closed. Which of the two happens depends
/// on the other end, so nothing is claimed of the result. (The call panics once
/// half of `usize::MAX` messages wait in one channel, which no memory holds.)
pub assume_specification<T>[ UnboundedSender::<T>::unbounded_send ](
    sender: &UnboundedSender<T>,
    msg: T,
) -> (sent: Result<(), TrySendError<T>>);

} // verus!
