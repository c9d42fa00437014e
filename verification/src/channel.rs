//! The queues between the tasks, which the `crossbeam_channel` crate
//! provides. What a queue holds is the business of the other side, so
//! nothing is said of what comes out of one.

use crate::types::Aircraft;
use crossbeam_channel::{Receiver, RecvError, SendError, Sender};
use vstd::prelude::*;

verus! {

/// `crossbeam_channel::Sender`: the end of a queue that puts in.
#[verifier::external_type_specification]
#[verifier::external_body]
#[verifier::reject_recursive_types(T)]
pub struct ExSender<T>(Sender<T>);

/// `crossbeam_channel::Receiver`: the end of a queue that takes out.
#[verifier::external_type_specification]
#[verifier::external_body]
#[verifier::reject_recursive_types(T)]
pub struct ExReceiver<T>(Receiver<T>);

/// `crossbeam_channel::RecvError`: nothing is left and nobody can send.
#[verifier::external_type_specification]
#[verifier::external_body]
pub struct ExRecvError(RecvError);

/// `crossbeam_channel::SendError`: nobody can receive; it hands the message
/// back.
#[verifier::external_type_specification]
#[verifier::external_body]
#[verifier::reject_recursive_types(T)]
pub struct ExSendError<T>(SendError<T>);

/// `Receiver::recv` waits for a message. It fails when the queue is empty
/// and every sender is gone.
pub assume_specification<T>[ Receiver::<T>::recv ](receiver: &Receiver<T>) -> (outcome: Result<
    T,
    RecvError,
>)
;

/// `Sender::send` puts a message into the queue. It fails when every
/// receiver is gone.
pub assume_specification<T>[ Sender::<T>::send ](sender: &Sender<T>, msg: T) -> (outcome: Result<
    (),
    SendError<T>,
>)
;

/// `Receiver::try_iter`, collected: the messages that are in the queue, in
/// the order in which they came, without waiting for more.
#[verifier::external_body]
pub(crate) fn drain(receiver: &Receiver<Aircraft>) -> (waiting: Vec<Aircraft>) {
    receiver.try_iter().collect()
}

} // verus!
