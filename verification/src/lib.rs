//! Dense matrices over integer scalars and the pieces of a multiplication
//! engine that splits a product into one job per output cell, plus a small
//! set of shared counters.

pub mod engine;
pub mod error;
pub mod laws;
pub mod matrix;
pub mod metrics;
pub mod pool;
pub mod scalar;
pub mod text;
pub mod transport;
pub mod vector;

pub use crate::engine::{
    check_dimensions, jobs, multiply, worker_index, Collector, MsgInput, MsgOutput, NUM_THREADS,
};
pub use crate::error::MatrixError;
pub use crate::matrix::Matrix;
pub use crate::metrics::{AmapMetrics, MetricsError};
pub use crate::pool::{collect, dispatch, multiply_on};
pub use crate::scalar::Scalar;
pub use crate::transport::{await_reply, reply_of, Msg};
pub use crate::vector::{dot_product, Vector};
