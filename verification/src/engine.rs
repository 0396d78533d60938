//! The multiplication engine: one job per output cell, one reply per job,
//! each reply placed by the index it carries.

use vstd::prelude::*;
use crate::error::MatrixError;
use crate::matrix::{flat_index, lemma_flat_index, Matrix};
use crate::scalar::Scalar;
use crate::vector::{dot, dot_fits, dot_product, Vector};

verus! {

/// The size of the worker pool.
pub const NUM_THREADS: usize = 4;

/// A job: the row and the column whose dot product is one output cell, and
/// the position of that cell in the output's flat data.
pub struct MsgInput<T> {
    pub idx: usize,
    pub row: Vector<T>,
    pub col: Vector<T>,
}

/// A reply: the value of one output cell and its position.
pub struct MsgOutput<T> {
    pub idx: usize,
    pub value: T,
}

impl<T> MsgInput<T> {
    /// A job for the output cell at position `idx`.
    pub fn new(idx: usize, row: Vector<T>, col: Vector<T>) -> (m: Self)
        ensures
            m.idx == idx,
            m.row == row,
            m.col == col,
    {
        MsgInput { idx, row, col }
    }
}

impl<T: Copy> MsgInput<T> {
    /// The job for the output cell at row `i`, column `j` of the product
    /// of `a` and `b`: row `i` of `a`, column `j` of `b`, and the cell's
    /// position in the output.
    pub fn for_cell(a: &Matrix<T>, b: &Matrix<T>, i: usize, j: usize) -> (m: Self)
        requires
            a.well_formed(),
            b.well_formed(),
            i < a.spec_rows(),
            j < b.spec_cols(),
            a.spec_rows() * b.spec_cols() <= usize::MAX,
        ensures
            m.idx == flat_index(b.spec_cols() as int, i as int, j as int),
            m.row@ == a.row_seq(i as int),
            m.col@ == b.col_seq(j as int),
    {
        proof {
            lemma_flat_index(a.spec_rows() as int, b.spec_cols() as int, i as int, j as int);
        }
        MsgInput::new(i * b.cols() + j, a.row_vector(i), b.col_vector(j))
    }
}

impl<T: Scalar> MsgInput<T> {
    /// Does the work of one job: the dot product of its row and column,
    /// labelled with the job's index.
    pub fn compute(self) -> (r: Result<MsgOutput<T>, MatrixError>)
        ensures
            self.row@.len() != self.col@.len() ==> r == Err::<MsgOutput<T>, MatrixError>(
                MatrixError::DotProductLengthMismatch,
            ),
            self.row@.len() == self.col@.len() && !dot_fits(self.row@, self.col@) ==> r == Err::<
                MsgOutput<T>,
                MatrixError,
            >(MatrixError::Overflow),
            self.row@.len() == self.col@.len() && dot_fits(self.row@, self.col@) ==> r is Ok
                && r->Ok_0.idx == self.idx && r->Ok_0.value.value() == dot(self.row@, self.col@),
    {
        let idx = self.idx;
        match dot_product(self.row, self.col) {
            Ok(value) => Ok(MsgOutput { idx, value }),
            Err(e) => Err(e),
        }
    }
}

/// Whether `m` is the job for the output cell at row `i`, column `j` of the
/// product of `a` and `b`.
pub open spec fn is_job_for<T>(m: MsgInput<T>, a: Matrix<T>, b: Matrix<T>, i: int, j: int) -> bool {
    &&& m.idx == flat_index(b.spec_cols() as int, i, j)
    &&& m.row@ == a.row_seq(i)
    &&& m.col@ == b.col_seq(j)
}

/// The jobs of the product of `a` and `b`: one per output cell, in
/// row-major order of the output, so that the job at position `p` is the
/// job with index `p`.
pub fn jobs<T: Copy>(a: &Matrix<T>, b: &Matrix<T>) -> (all: Vec<MsgInput<T>>)
    requires
        a.well_formed(),
        b.well_formed(),
        a.spec_rows() * b.spec_cols() <= usize::MAX,
    ensures
        all@.len() == a.spec_rows() * b.spec_cols(),
        forall|i: int, j: int|
            0 <= i < a.spec_rows() && 0 <= j < b.spec_cols() ==> is_job_for(
                all@[#[trigger] flat_index(b.spec_cols() as int, i, j)],
                *a,
                *b,
                i,
                j,
            ),
{
    let rows = a.rows();
    let cols = b.cols();
    let mut all: Vec<MsgInput<T>> = Vec::new();
    let mut i: usize = 0;
    while i < rows
        invariant
            a.well_formed(),
            b.well_formed(),
            rows == a.spec_rows(),
            cols == b.spec_cols(),
            rows * cols <= usize::MAX,
            i <= rows,
            all@.len() == i * cols,
            forall|p: int, q: int|
                0 <= p < i && 0 <= q < cols ==> is_job_for(
                    all@[#[trigger] flat_index(cols as int, p, q)],
                    *a,
                    *b,
                    p,
                    q,
                ),
        decreases rows - i,
    {
        let mut j: usize = 0;
        while j < cols
            invariant
                a.well_formed(),
                b.well_formed(),
                rows == a.spec_rows(),
                cols == b.spec_cols(),
                rows * cols <= usize::MAX,
                i < rows,
                j <= cols,
                all@.len() == i * cols + j,
                forall|p: int, q: int|
                    (0 <= p < i && 0 <= q < cols) || (p == i && 0 <= q < j) ==> is_job_for(
                        all@[#[trigger] flat_index(cols as int, p, q)],
                        *a,
                        *b,
                        p,
                        q,
                    ),
            decreases cols - j,
        {
            let ghost before = all@;
            all.push(MsgInput::for_cell(a, b, i, j));
            proof {
                assert forall|p: int, q: int|
                    (0 <= p < i && 0 <= q < cols) || (p == i && 0 <= q < j + 1) implies is_job_for(
                    all@[#[trigger] flat_index(cols as int, p, q)],
                    *a,
                    *b,
                    p,
                    q,
                ) by {
                    lemma_flat_index(rows as int, cols as int, p, q);
                    if p == i && q == j {
                    } else {
                        if p < i {
                            assert(p * cols + cols <= i * cols) by (nonlinear_arith)
                                requires
                                    0 <= p < i,
                                    0 <= cols,
                            ;
                        }
                        assert(all@[flat_index(cols as int, p, q)] == before[flat_index(
                            cols as int,
                            p,
                            q,
                        )]);
                    }
                }
            }
            j = j + 1;
        }
        assert(i * cols + cols == (i + 1) * cols) by (nonlinear_arith);
        i = i + 1;
    }
    assert(i * cols == rows * cols);
    all
}

/// The worker that job `idx` goes to: jobs are dealt out round-robin.
pub fn worker_index(idx: usize) -> (w: usize)
    ensures
        w == idx % NUM_THREADS,
        w < NUM_THREADS,
{
    idx % NUM_THREADS
}

/// The value of the product's cell at row `i`, column `j`: the sum over `k`
/// of `a[i, k] * b[k, j]`.
pub open spec fn cell<T: Scalar>(a: Matrix<T>, b: Matrix<T>, i: int, j: int) -> int {
    dot(a.row_seq(i), b.col_seq(j))
}

/// Whether every cell of the product can be accumulated in `T`.
pub open spec fn product_fits<T: Scalar>(a: Matrix<T>, b: Matrix<T>) -> bool {
    forall|i: int, j: int|
        0 <= i < a.spec_rows() && 0 <= j < b.spec_cols() ==> dot_fits(
            #[trigger] a.row_seq(i),
            #[trigger] b.col_seq(j),
        )
}

/// Whether `c` is the product of `a` and `b`.
pub open spec fn is_product<T: Scalar>(c: Matrix<T>, a: Matrix<T>, b: Matrix<T>) -> bool {
    &&& c.well_formed()
    &&& c.spec_rows() == a.spec_rows()
    &&& c.spec_cols() == b.spec_cols()
    &&& forall|i: int, j: int|
        0 <= i < a.spec_rows() && 0 <= j < b.spec_cols() ==> (#[trigger] c.at(i, j)).value()
            == cell(a, b, i, j)
}

/// The slots after `replies` have been placed one after the other, each at
/// the index it carries.
pub open spec fn placed<T>(slots: Seq<T>, replies: Seq<MsgOutput<T>>) -> Seq<T>
    decreases replies.len(),
{
    if replies.len() == 0 {
        slots
    } else {
        placed(slots, replies.drop_last()).update(
            replies.last().idx as int,
            replies.last().value,
        )
    }
}

/// The output under construction: one slot per cell, filled as replies come in.
pub struct Collector<T> {
    data: Vec<T>,
    row: usize,
    col: usize,
}

impl<T: Scalar> Collector<T> {
    /// The slots, row by row.
    pub closed spec fn slots(&self) -> Seq<T> {
        self.data@
    }

    /// The number of rows of the output.
    pub closed spec fn spec_rows(&self) -> usize {
        self.row
    }

    /// The number of columns of the output.
    pub closed spec fn spec_cols(&self) -> usize {
        self.col
    }

    /// The invariant of a collector: one slot per cell.
    pub open spec fn well_formed(&self) -> bool {
        self.slots().len() == self.spec_rows() * self.spec_cols()
    }

    /// A collector for a `rows` by `cols` output, every slot holding zero.
    pub fn new(rows: usize, cols: usize) -> (c: Self)
        requires
            rows * cols <= usize::MAX,
        ensures
            c.well_formed(),
            c.spec_rows() == rows,
            c.spec_cols() == cols,
            forall|p: int| 0 <= p < c.slots().len() ==> (#[trigger] c.slots()[p]).value() == 0,
    {
        let n = rows * cols;
        let mut data: Vec<T> = Vec::new();
        let mut p: usize = 0;
        while p < n
            invariant
                p <= n,
                data@.len() == p,
                forall|q: int| 0 <= q < p ==> (#[trigger] data@[q]).value() == 0,
            decreases n - p,
        {
            data.push(T::zero());
            p = p + 1;
        }
        Collector { data, row: rows, col: cols }
    }

    /// The number of slots.
    pub fn len(&self) -> (n: usize)
        ensures
            n == self.slots().len(),
    {
        self.data.len()
    }

    /// Writes the value of `reply` into the slot that the reply names.
    pub fn place(&mut self, reply: MsgOutput<T>)
        requires
            reply.idx < old(self).slots().len(),
        ensures
            final(self).slots() == old(self).slots().update(reply.idx as int, reply.value),
            final(self).spec_rows() == old(self).spec_rows(),
            final(self).spec_cols() == old(self).spec_cols(),
    {
        self.data.set(reply.idx, reply.value);
    }

    /// Places `reply` if it names a slot. A reply that names none cannot be
    /// placed and counts as lost.
    pub fn try_place(&mut self, reply: MsgOutput<T>) -> (r: Result<(), MatrixError>)
        ensures
            reply.idx < old(self).slots().len() ==> r is Ok && final(self).slots() == old(
                self,
            ).slots().update(reply.idx as int, reply.value),
            reply.idx >= old(self).slots().len() ==> r == Err::<(), MatrixError>(
                MatrixError::ReplyLost,
            ) && final(self).slots() == old(self).slots(),
            final(self).spec_rows() == old(self).spec_rows(),
            final(self).spec_cols() == old(self).spec_cols(),
    {
        if reply.idx < self.data.len() {
            self.place(reply);
            Ok(())
        } else {
            Err(MatrixError::ReplyLost)
        }
    }

    /// Hands out the collected output.
    pub fn finish(self) -> (m: Matrix<T>)
        requires
            self.well_formed(),
        ensures
            m@ == self.slots(),
            m.spec_rows() == self.spec_rows(),
            m.spec_cols() == self.spec_cols(),
            m.well_formed(),
    {
        Matrix::new(self.data, self.row, self.col)
    }
}

/// Checks that `a` has as many columns as `b` has rows.
pub fn check_dimensions<T>(a: &Matrix<T>, b: &Matrix<T>) -> (r: Result<(), MatrixError>)
    ensures
        a.spec_cols() == b.spec_rows() ==> r is Ok,
        a.spec_cols() != b.spec_rows() ==> r == Err::<(), MatrixError>(
            MatrixError::DimensionMismatch,
        ),
{
    if a.cols() != b.rows() {
        Err(MatrixError::DimensionMismatch)
    } else {
        Ok(())
    }
}

/// Multiplies `a` by `b` on the calling thread.
///
/// The product is split into one job per output cell, taken in row-major
/// order; each job's reply is placed by the index it carries. Fails with
/// `DimensionMismatch` when `a` has not as many columns as `b` has rows, and
/// with `Overflow` when a cell cannot be accumulated in `T`.
pub fn multiply<T: Scalar>(a: &Matrix<T>, b: &Matrix<T>) -> (r: Result<Matrix<T>, MatrixError>)
    requires
        a.well_formed(),
        b.well_formed(),
        a.spec_cols() == b.spec_rows() ==> a.spec_rows() * b.spec_cols() <= usize::MAX,
    ensures
        a.spec_cols() != b.spec_rows() ==> r == Err::<Matrix<T>, MatrixError>(
            MatrixError::DimensionMismatch,
        ),
        a.spec_cols() == b.spec_rows() && !product_fits(*a, *b) ==> r == Err::<
            Matrix<T>,
            MatrixError,
        >(MatrixError::Overflow),
        a.spec_cols() == b.spec_rows() && product_fits(*a, *b) ==> r is Ok && is_product(
            r->Ok_0,
            *a,
            *b,
        ),
{
    if let Err(e) = check_dimensions(a, b) {
        return Err(e);
    }
    let rows = a.rows();
    let cols = b.cols();
    let mut collector: Collector<T> = Collector::new(rows, cols);
    let mut i: usize = 0;
    while i < rows
        invariant
            a.well_formed(),
            b.well_formed(),
            a.spec_cols() == b.spec_rows(),
            rows == a.spec_rows(),
            cols == b.spec_cols(),
            i <= rows,
            rows * cols <= usize::MAX,
            collector.well_formed(),
            collector.spec_rows() == rows,
            collector.spec_cols() == cols,
            forall|p: int, q: int|
                0 <= p < i && 0 <= q < cols ==> dot_fits(
                    #[trigger] a.row_seq(p),
                    #[trigger] b.col_seq(q),
                ),
            forall|p: int, q: int|
                0 <= p < i && 0 <= q < cols ==> collector.slots()[#[trigger] flat_index(
                    cols as int,
                    p,
                    q,
                )].value() == cell(*a, *b, p, q),
        decreases rows - i,
    {
        let mut j: usize = 0;
        while j < cols
            invariant
                a.well_formed(),
                b.well_formed(),
                a.spec_cols() == b.spec_rows(),
                rows == a.spec_rows(),
                cols == b.spec_cols(),
                i < rows,
                j <= cols,
                rows * cols <= usize::MAX,
                collector.well_formed(),
                collector.spec_rows() == rows,
                collector.spec_cols() == cols,
                forall|p: int, q: int|
                    (0 <= p < i && 0 <= q < cols) || (p == i && 0 <= q < j) ==> dot_fits(
                        #[trigger] a.row_seq(p),
                        #[trigger] b.col_seq(q),
                    ),
                forall|p: int, q: int|
                    (0 <= p < i && 0 <= q < cols) || (p == i && 0 <= q < j)
                        ==> collector.slots()[#[trigger] flat_index(
                        cols as int,
                        p,
                        q,
                    )].value() == cell(*a, *b, p, q),
            decreases cols - j,
        {
            proof {
                lemma_flat_index(rows as int, cols as int, i as int, j as int);
            }
            let input = MsgInput::for_cell(a, b, i, j);
            let reply = match input.compute() {
                Ok(reply) => reply,
                Err(e) => {
                    assert(!dot_fits(a.row_seq(i as int), b.col_seq(j as int)));
                    return Err(e);
                },
            };
            collector.place(reply);
            proof {
                assert forall|p: int, q: int|
                    (0 <= p < i && 0 <= q < cols) || (p == i && 0 <= q < j + 1)
                    implies collector.slots()[#[trigger] flat_index(
                    cols as int,
                    p,
                    q,
                )].value() == cell(*a, *b, p, q) by {
                    lemma_flat_index(rows as int, cols as int, p, q);
                }
            }
            j = j + 1;
        }
        i = i + 1;
    }
    let c = collector.finish();
    proof {
        assert forall|p: int, q: int| 0 <= p < rows && 0 <= q < cols implies (#[trigger] c.at(
            p,
            q,
        )).value() == cell(*a, *b, p, q) by {
            lemma_flat_index(rows as int, cols as int, p, q);
        }
    }
    Ok(c)
}

/// What `*` asks of its operands. What it returns is stated on `mul`
/// itself, as a relation: the product is not named as a value.
impl<T: Scalar> vstd::std_specs::ops::MulSpecImpl for Matrix<T> {
    open spec fn obeys_mul_spec() -> bool {
        false
    }

    /// The operator form is for operands whose product exists.
    open spec fn mul_req(self, rhs: Matrix<T>) -> bool {
        &&& self.well_formed()
        &&& rhs.well_formed()
        &&& self.spec_cols() == rhs.spec_rows()
        &&& self.spec_rows() * rhs.spec_cols() <= usize::MAX
        &&& product_fits(self, rhs)
    }

    open spec fn mul_spec(self, rhs: Matrix<T>) -> Matrix<T> {
        arbitrary()
    }
}

impl<T: Scalar> core::ops::Mul for Matrix<T> {
    type Output = Matrix<T>;

    /// The product of two matrices, for operands whose product exists:
    /// where `multiply` would fail, `*` may not be used.
    fn mul(self, rhs: Matrix<T>) -> (c: Matrix<T>)
        ensures
            is_product(c, self, rhs),
    {
        match multiply(&self, &rhs) {
            Ok(c) => c,
            Err(_) => vstd::pervasive::unreached(),
        }
    }
}

} // verus!
