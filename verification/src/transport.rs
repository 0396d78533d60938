//! The reply path of a job: a one-shot channel whose sending end travels with
//! the job to a worker and whose receiving end stays with the collector.

use vstd::prelude::*;
use crate::engine::{MsgInput, MsgOutput};
use crate::error::MatrixError;
use crate::scalar::Scalar;
use crate::vector::dot_fits;

verus! {

/// The sending end of a one-shot channel, `oneshot::Sender`.
#[verifier::external_type_specification]
#[verifier::external_body]
#[verifier::reject_recursive_types(T)]
pub struct ExSender<T>(oneshot::Sender<T>);

/// The receiving end of a one-shot channel, `oneshot::Receiver`.
#[verifier::external_type_specification]
#[verifier::external_body]
#[verifier::reject_recursive_types(T)]
pub struct ExReceiver<T>(oneshot::Receiver<T>);

/// The error of a send whose receiver is gone, `oneshot::SendError`.
#[verifier::external_type_specification]
#[verifier::external_body]
#[verifier::reject_recursive_types(T)]
pub struct ExSendError<T>(oneshot::SendError<T>);

/// The error of a receive whose sender is gone, `oneshot::RecvError`.
#[verifier::external_type_specification]
#[verifier::external_body]
pub struct ExRecvError(oneshot::RecvError);

/// `oneshot::channel` creates a channel and returns its sending and its
/// receiving end. Nothing is claimed of them.
pub assume_specification<T>[ oneshot::channel::<T> ]() -> (ends: (
    oneshot::Sender<T>,
    oneshot::Receiver<T>,
));

/// `oneshot::Sender::send` hands the message to the channel without
/// blocking, and fails when the receiver has been dropped. Which of the two
/// happens is not claimed.
pub assume_specification<T>[ oneshot::Sender::<T>::send ](
    sender: oneshot::Sender<T>,
    message: T,
) -> (sent: Result<(), oneshot::SendError<T>>);

/// `oneshot::Receiver::recv` blocks until the sender has sent a message or
/// has been dropped, and returns the message or an error. Which of the two
/// happens, and what the message holds, is not claimed. Its one panic is for
/// a receiving end that was polled as a future before; the crate is built
/// without that feature.
pub assume_specification<T>[ oneshot::Receiver::<T>::recv ](receiver: oneshot::Receiver<T>) -> (got:
    Result<T, oneshot::RecvError>);

/// A job on its way to a worker, with the sending end of its reply channel.
#[verifier::reject_recursive_types(T)]
pub struct Msg<T> {
    pub input: MsgInput<T>,
    pub sender: oneshot::Sender<MsgOutput<T>>,
}

impl<T> Msg<T> {
    /// A message that carries `input` and the end to reply on.
    pub fn new(input: MsgInput<T>, sender: oneshot::Sender<MsgOutput<T>>) -> (m: Self)
        ensures
            m.input == input,
            m.sender == sender,
    {
        Msg { input, sender }
    }

    /// Opens a reply channel for `input`: the message for the worker, and
    /// the end on which the collector waits for the reply.
    pub fn post(input: MsgInput<T>) -> (r: (Self, oneshot::Receiver<MsgOutput<T>>))
        ensures
            r.0.input == input,
    {
        let (sender, receiver) = oneshot::channel();
        (Msg::new(input, sender), receiver)
    }
}

impl<T: Scalar> Msg<T> {
    /// A worker's handling of one message: computes the job and sends the
    /// reply.
    ///
    /// Fails as the computation fails, and then sends nothing: the reply
    /// channel is closed unused. Otherwise says whether the reply was
    /// taken by the channel, which it is unless the receiving end is gone.
    pub fn serve(self) -> (r: Result<bool, MatrixError>)
        ensures
            self.input.row@.len() != self.input.col@.len() ==> r == Err::<bool, MatrixError>(
                MatrixError::DotProductLengthMismatch,
            ),
            self.input.row@.len() == self.input.col@.len() && !dot_fits(
                self.input.row@,
                self.input.col@,
            ) ==> r == Err::<bool, MatrixError>(MatrixError::Overflow),
            self.input.row@.len() == self.input.col@.len() && dot_fits(
                self.input.row@,
                self.input.col@,
            ) ==> r is Ok,
    {
        let Msg { input, sender } = self;
        let reply = match input.compute() {
            Ok(reply) => reply,
            Err(e) => {
                return Err(e);
            },
        };
        match sender.send(reply) {
            Ok(()) => Ok(true),
            Err(_) => Ok(false),
        }
    }
}

/// What the collector makes of a receive: the reply, or `ReplyLost` when
/// the channel closed without one.
pub fn reply_of<T>(got: Result<MsgOutput<T>, oneshot::RecvError>) -> (r: Result<
    MsgOutput<T>,
    MatrixError,
>)
    ensures
        got matches Ok(reply) ==> r == Ok::<MsgOutput<T>, MatrixError>(reply),
        got is Err ==> r == Err::<MsgOutput<T>, MatrixError>(MatrixError::ReplyLost),
{
    match got {
        Ok(reply) => Ok(reply),
        Err(_) => Err(MatrixError::ReplyLost),
    }
}

/// Waits for the reply of one job. A channel that closes without a reply
/// gives `ReplyLost`; no other failure comes out.
pub fn await_reply<T>(receiver: oneshot::Receiver<MsgOutput<T>>) -> (r: Result<
    MsgOutput<T>,
    MatrixError,
>)
    ensures
        r matches Err(e) ==> e == MatrixError::ReplyLost,
{
    reply_of(receiver.recv())
}

} // verus!
