//! The engine on a pool of workers: jobs go to the workers' queues, replies
//! come back on the jobs' own channels.

use vstd::prelude::*;
use crate::engine::{
    check_dimensions, jobs, worker_index, Collector, MsgInput, MsgOutput, NUM_THREADS,
};
use crate::error::MatrixError;
use crate::matrix::Matrix;
use crate::scalar::Scalar;
use crate::transport::{await_reply, Msg};

verus! {

/// The sending end of a queue, `std::sync::mpsc::Sender`.
#[verifier::external_type_specification]
#[verifier::external_body]
#[verifier::reject_recursive_types(T)]
pub struct ExQueueSender<T>(std::sync::mpsc::Sender<T>);

/// The error of a send on a queue whose receiving end is gone,
/// `std::sync::mpsc::SendError`.
#[verifier::external_type_specification]
#[verifier::external_body]
#[verifier::reject_recursive_types(T)]
pub struct ExQueueSendError<T>(std::sync::mpsc::SendError<T>);

/// `std::sync::mpsc::Sender::send` puts the value on the queue without
/// blocking, and fails when the receiving end has been dropped. Which of
/// the two happens is not claimed.
pub assume_specification<T>[ std::sync::mpsc::Sender::<T>::send ](
    queue: &std::sync::mpsc::Sender<T>,
    t: T,
) -> (sent: Result<(), std::sync::mpsc::SendError<T>>);

/// Sends the jobs, in their order, each to the queue of the worker that
/// its index selects. Returns the receiving ends of the jobs' reply
/// channels in the order of submission.
///
/// A job whose queue is closed is dropped, and its reply channel with it.
pub fn dispatch<T>(queues: &Vec<std::sync::mpsc::Sender<Msg<T>>>, jobs: Vec<MsgInput<T>>) -> (receivers:
    Vec<oneshot::Receiver<MsgOutput<T>>>)
    requires
        queues@.len() == NUM_THREADS,
    ensures
        receivers@.len() == jobs@.len(),
{
    let mut receivers: Vec<oneshot::Receiver<MsgOutput<T>>> = Vec::new();
    for job in it: jobs.into_iter()
        invariant
            queues@.len() == NUM_THREADS,
            receivers@.len() == it.index(),
    {
        let (msg, receiver) = Msg::post(job);
        let _ = queues[worker_index(msg.input.idx)].send(msg);
        receivers.push(receiver);
    }
    receivers
}

/// Waits for the replies in the order of submission and places each by the
/// index it carries. The first job without a reply ends the collection with
/// `ReplyLost`; the replies that are still out are dropped.
pub fn collect<T: Scalar>(
    receivers: Vec<oneshot::Receiver<MsgOutput<T>>>,
    rows: usize,
    cols: usize,
) -> (r: Result<Matrix<T>, MatrixError>)
    requires
        rows * cols <= usize::MAX,
    ensures
        r matches Ok(m) ==> m.well_formed() && m.spec_rows() == rows && m.spec_cols() == cols,
        r matches Err(e) ==> e == MatrixError::ReplyLost,
        receivers@.len() == 0 ==> r is Ok,
{
    let mut collector: Collector<T> = Collector::new(rows, cols);
    for receiver in it: receivers.into_iter()
        invariant
            collector.well_formed(),
            collector.spec_rows() == rows,
            collector.spec_cols() == cols,
    {
        let reply = match await_reply(receiver) {
            Ok(reply) => reply,
            Err(e) => {
                return Err(e);
            },
        };
        match collector.try_place(reply) {
            Ok(()) => {},
            Err(e) => {
                return Err(e);
            },
        }
    }
    Ok(collector.finish())
}

/// Multiplies `a` by `b` on the workers behind `queues`.
///
/// Fails with `DimensionMismatch`, before any job is sent, when `a` has not
/// as many columns as `b` has rows. After that the workers decide: the
/// product comes back when every job is answered, and `ReplyLost` when a
/// worker ends without answering one.
pub fn multiply_on<T: Scalar>(
    queues: &Vec<std::sync::mpsc::Sender<Msg<T>>>,
    a: &Matrix<T>,
    b: &Matrix<T>,
) -> (r: Result<Matrix<T>, MatrixError>)
    requires
        queues@.len() == NUM_THREADS,
        a.well_formed(),
        b.well_formed(),
        a.spec_cols() == b.spec_rows() ==> a.spec_rows() * b.spec_cols() <= usize::MAX,
    ensures
        a.spec_cols() != b.spec_rows() ==> r == Err::<Matrix<T>, MatrixError>(
            MatrixError::DimensionMismatch,
        ),
        a.spec_cols() == b.spec_rows() ==> (r matches Err(e) ==> e == MatrixError::ReplyLost),
        a.spec_cols() == b.spec_rows() && a.spec_rows() * b.spec_cols() == 0 ==> r is Ok,
        r matches Ok(c) ==> c.well_formed() && c.spec_rows() == a.spec_rows() && c.spec_cols()
            == b.spec_cols(),
{
    if let Err(e) = check_dimensions(a, b) {
        return Err(e);
    }
    let receivers = dispatch(queues, jobs(a, b));
    collect(receivers, a.rows(), b.cols())
}

} // verus!
