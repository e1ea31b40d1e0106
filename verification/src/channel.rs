//! The channels between the threads: requests to the loader's worker, and
//! completions back to whoever waits for them. They are std's `mpsc`
//! channels; nothing is known of a send or a receive before it is made,
//! since the outcome depends on what the thread at the other end does.

use std::sync::mpsc::{Receiver, RecvError, SendError, Sender};
use vstd::prelude::*;

verus! {

/// `std::sync::mpsc::Sender`: the sending end of a channel. Opaque.
#[verifier::external_type_specification]
#[verifier::external_body]
#[verifier::reject_recursive_types(T)]
pub struct ExSender<T>(Sender<T>);

/// `std::sync::mpsc::Receiver`: the receiving end of a channel. Opaque.
#[verifier::external_type_specification]
#[verifier::external_body]
#[verifier::reject_recursive_types(T)]
pub struct ExReceiver<T>(Receiver<T>);

/// `std::sync::mpsc::RecvError`: a receive on a channel that is closed and
/// empty. Opaque; it is only displayed.
#[verifier::external_type_specification]
#[verifier::external_body]
pub struct ExRecvError(RecvError);

/// `std::sync::mpsc::SendError`: a send on a channel whose receiver is
/// gone. Opaque; it is only displayed.
#[verifier::external_type_specification]
#[verifier::external_body]
#[verifier::reject_recursive_types(T)]
pub struct ExSendError<T>(SendError<T>);

/// `std::sync::mpsc::channel`: a new channel, as its two ends. Nothing is
/// claimed of them.
pub assume_specification<T>[ std::sync::mpsc::channel::<T> ]() -> (r: (Sender<T>, Receiver<T>))
;

/// `Sender::send`: never blocks. Nothing is claimed of the result: the send
/// fails when the receiver is gone, which cannot be known beforehand.
pub assume_specification<T>[ Sender::<T>::send ](sender: &Sender<T>, t: T) -> (r: Result<
    (),
    SendError<T>,
>)
;

/// `Sender::clone`: another sending end of the same channel. Nothing is
/// claimed of it.
pub assume_specification<T>[ <Sender<T> as Clone>::clone ](sender: &Sender<T>) -> (r: Sender<T>)
;

/// `Receiver::recv`: blocks for the next value. Nothing is claimed of the
/// result: the receive fails once every sender is gone and the channel is
/// empty, which depends on the other threads.
pub assume_specification<T>[ Receiver::<T>::recv ](receiver: &Receiver<T>) -> (r: Result<
    T,
    RecvError,
>)
;

} // verus!
