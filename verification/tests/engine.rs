use std::sync::mpsc;

use concurrency::{
    await_reply, collect, dispatch, dot_product, jobs, multiply_on, reply_of, worker_index,
    Collector, Matrix, MatrixError, Msg, MsgInput, MsgOutput, Vector, NUM_THREADS,
};

fn queues<T>() -> (Vec<mpsc::Sender<Msg<T>>>, Vec<mpsc::Receiver<Msg<T>>>) {
    (0..NUM_THREADS).map(|_| mpsc::channel()).unzip()
}

#[test]
fn dot_product_of_equal_lengths() {
    let r = dot_product(Vector::new(vec![1, 2, 3]), Vector::new(vec![7, 9, 11]));
    assert_eq!(r, Ok(58));
    let empty: Result<i32, MatrixError> = dot_product(Vector::new(vec![]), Vector::new(vec![]));
    assert_eq!(empty, Ok(0));
    let negative = dot_product(Vector::new(vec![-2i64, 3]), Vector::new(vec![5i64, -7]));
    assert_eq!(negative, Ok(-31));
}

#[test]
fn dot_product_rejects_unequal_lengths() {
    let r = dot_product(Vector::new(vec![1, 2, 3]), Vector::new(vec![1, 2]));
    assert_eq!(r, Err(MatrixError::DotProductLengthMismatch));
}

#[test]
fn dot_product_fails_when_a_term_or_a_sum_overflows() {
    let term = dot_product(Vector::new(vec![i32::MAX]), Vector::new(vec![2]));
    assert_eq!(term, Err(MatrixError::Overflow));
    let sum = dot_product(Vector::new(vec![i32::MAX, 1]), Vector::new(vec![1, 1]));
    assert_eq!(sum, Err(MatrixError::Overflow));
    let back = dot_product(Vector::new(vec![i32::MAX, 1, -1]), Vector::new(vec![1, 1, 1]));
    assert_eq!(back, Err(MatrixError::Overflow));
    let fits = dot_product(Vector::new(vec![i32::MAX, -1]), Vector::new(vec![1, 1]));
    assert_eq!(fits, Ok(i32::MAX - 1));
}

#[test]
fn jobs_go_round_robin_to_the_workers() {
    assert_eq!(NUM_THREADS, 4);
    assert_eq!(worker_index(0), 0);
    assert_eq!(worker_index(1), 1);
    assert_eq!(worker_index(3), 3);
    assert_eq!(worker_index(4), 0);
    assert_eq!(worker_index(10), 2);
    assert_eq!(worker_index(usize::MAX), 3);
}

#[test]
fn a_job_computes_its_cell_and_keeps_its_index() {
    let job = MsgInput::new(5, Vector::new(vec![4, 5, 6]), Vector::new(vec![8, 10, 12]));
    let reply = job.compute().ok().unwrap();
    assert_eq!(reply.idx, 5);
    assert_eq!(reply.value, 154);
    let bad = MsgInput::new(0, Vector::new(vec![1]), Vector::new(vec![1, 2]));
    assert!(matches!(bad.compute(), Err(MatrixError::DotProductLengthMismatch)));
}

#[test]
fn a_new_collector_holds_zeros() {
    let collector: Collector<i32> = Collector::new(2, 3);
    assert_eq!(collector.len(), 6);
    let m = collector.finish();
    assert_eq!(m.to_debug_string(), "Matrix(2x3):{0 0 0},{0 0 0}");
}

#[test]
fn replies_are_placed_by_their_index_whatever_the_order() {
    let order_a = [0usize, 1, 2, 3];
    let order_b = [3usize, 1, 0, 2];
    let values = [58, 64, 139, 154];
    let mut first: Collector<i32> = Collector::new(2, 2);
    for idx in order_a {
        first.place(MsgOutput { idx, value: values[idx] });
    }
    let mut second: Collector<i32> = Collector::new(2, 2);
    for idx in order_b {
        second.place(MsgOutput { idx, value: values[idx] });
    }
    assert_eq!(first.finish().to_string(), "{58 64},{139 154}");
    assert_eq!(second.finish().to_string(), "{58 64},{139 154}");
}

#[test]
fn a_closed_channel_counts_as_a_lost_reply() {
    let lost: Result<MsgOutput<i32>, oneshot::RecvError> = Err(oneshot::RecvError);
    assert!(matches!(reply_of(lost), Err(MatrixError::ReplyLost)));
    let got = reply_of(Ok(MsgOutput { idx: 7, value: 9i64 })).ok().unwrap();
    assert_eq!((got.idx, got.value), (7, 9));
}

#[test]
fn a_job_for_a_cell_holds_its_row_its_column_and_its_position() {
    let a = Matrix::new(vec![1, 2, 3, 4, 5, 6], 2, 3);
    let b = Matrix::new(vec![7, 8, 9, 10, 11, 12], 3, 2);
    let job = MsgInput::for_cell(&a, &b, 1, 0);
    assert_eq!(job.idx, 2);
    assert_eq!((*job.row.get(0), *job.row.get(1), *job.row.get(2)), (4, 5, 6));
    assert_eq!((*job.col.get(0), *job.col.get(1), *job.col.get(2)), (7, 9, 11));
    let last = MsgInput::for_cell(&a, &b, 1, 1);
    assert_eq!(last.idx, 3);
    assert_eq!(last.compute().ok().unwrap().value, 154);
}

#[test]
fn the_jobs_of_a_product_come_in_row_major_order() {
    let a = Matrix::new(vec![1, 2, 3, 4, 5, 6], 3, 2);
    let b = Matrix::new(vec![7, 8, 9, 10, 11, 12], 2, 3);
    let all = jobs(&a, &b);
    assert_eq!(all.len(), 9);
    for (p, job) in all.iter().enumerate() {
        assert_eq!(job.idx, p);
        assert_eq!(job.row.len(), 2);
        assert_eq!(job.col.len(), 2);
    }
    let job = &all[5];
    assert_eq!((*job.row.get(0), *job.row.get(1)), (3, 4));
    assert_eq!((*job.col.get(0), *job.col.get(1)), (9, 12));
    let none = jobs(&Matrix::<i32>::new(vec![], 0, 2), &b);
    assert!(none.is_empty());
}

#[test]
fn a_reply_that_names_no_slot_is_not_placed() {
    let mut collector: Collector<i32> = Collector::new(1, 2);
    assert_eq!(collector.try_place(MsgOutput { idx: 1, value: 9 }), Ok(()));
    assert_eq!(collector.try_place(MsgOutput { idx: 2, value: 5 }), Err(MatrixError::ReplyLost));
    assert_eq!(collector.finish().to_string(), "{0 9}");
}

#[test]
fn dispatched_jobs_lie_in_the_queues_round_robin() {
    let a = Matrix::new(vec![1, 2, 3, 4, 5, 6], 3, 2);
    let b = Matrix::new(vec![1, 0, 0, 1], 2, 2);
    let (senders, queues) = queues();
    let receivers = dispatch(&senders, jobs(&a, &b));
    assert_eq!(receivers.len(), 6);
    let found: Vec<Vec<usize>> =
        queues.iter().map(|q| q.try_iter().map(|msg| msg.input.idx).collect()).collect();
    assert_eq!(found, vec![vec![0, 4], vec![1, 5], vec![2], vec![3]]);
}

#[test]
fn served_jobs_are_collected_into_the_product() {
    let a = Matrix::new(vec![1, 2, 3, 4, 5, 6], 2, 3);
    let b = Matrix::new(vec![7, 8, 9, 10, 11, 12], 3, 2);
    let (senders, queues) = queues();
    let receivers = dispatch(&senders, jobs(&a, &b));
    for queue in queues.iter().rev() {
        for msg in queue.try_iter() {
            assert_eq!(msg.serve(), Ok(true));
        }
    }
    let c = collect(receivers, 2, 2).unwrap();
    assert_eq!(c.to_debug_string(), "Matrix(2x2):{58 64},{139 154}");
}

#[test]
fn a_job_left_unanswered_fails_the_collection() {
    let a = Matrix::new(vec![1, 2, 3, 4], 2, 2);
    let b = Matrix::new(vec![1, 2, 3, 4], 2, 2);
    let (senders, queues) = queues();
    let receivers = dispatch(&senders, jobs(&a, &b));
    for (worker, queue) in queues.iter().enumerate() {
        for msg in queue.try_iter() {
            if worker == 2 {
                drop(msg);
            } else {
                assert_eq!(msg.serve(), Ok(true));
            }
        }
    }
    assert!(matches!(collect(receivers, 2, 2), Err(MatrixError::ReplyLost)));
}

#[test]
fn a_worker_that_is_gone_loses_its_jobs() {
    let a = Matrix::new(vec![1i64, 2, 3, 4], 2, 2);
    let b = Matrix::new(vec![1i64, 2, 3, 4], 2, 2);
    let (senders, mut queues) = queues();
    drop(queues.remove(3));
    let receivers = dispatch(&senders, jobs(&a, &b));
    for queue in queues.iter() {
        for msg in queue.try_iter() {
            assert_eq!(msg.serve(), Ok(true));
        }
    }
    assert!(matches!(collect(receivers, 2, 2), Err(MatrixError::ReplyLost)));
}

#[test]
fn mismatched_operands_send_no_job() {
    let a = Matrix::new(vec![1, 2, 3, 4, 5, 6], 2, 3);
    let b = Matrix::new(vec![1, 2, 3, 4], 2, 2);
    let (senders, queues) = queues();
    assert!(matches!(multiply_on(&senders, &a, &b), Err(MatrixError::DimensionMismatch)));
    assert!(queues.iter().all(|q| q.try_iter().next().is_none()));
}

#[test]
fn a_pool_without_workers_loses_every_reply() {
    let a = Matrix::new(vec![1, 2, 3, 4], 2, 2);
    let (senders, queues) = queues();
    drop(queues);
    assert!(matches!(multiply_on(&senders, &a, &a), Err(MatrixError::ReplyLost)));
}
