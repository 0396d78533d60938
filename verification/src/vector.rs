//! Vectors of scalars and their dot product.

use vstd::prelude::*;
use crate::error::MatrixError;
use crate::scalar::Scalar;

verus! {

/// An owned run of elements: one row or one column of a matrix.
pub struct Vector<T> {
    data: Vec<T>,
}

impl<T> View for Vector<T> {
    type V = Seq<T>;

    closed spec fn view(&self) -> Seq<T> {
        self.data@
    }
}

impl<T> Vector<T> {
    /// Wraps `data` as a vector.
    pub fn new(data: Vec<T>) -> (v: Self)
        ensures
            v@ == data@,
    {
        Vector { data }
    }

    /// The number of elements.
    pub fn len(&self) -> (n: usize)
        ensures
            n == self@.len(),
    {
        self.data.len()
    }

    /// The element at position `i`.
    pub fn get(&self, i: usize) -> (e: &T)
        requires
            i < self@.len(),
        ensures
            *e == self@[i as int],
    {
        &self.data[i]
    }
}

/// The sum of `x[k] * y[k]` over the first `n` positions.
pub open spec fn dot_prefix<T: Scalar>(x: Seq<T>, y: Seq<T>, n: nat) -> int
    decreases n,
{
    if n == 0 {
        0
    } else {
        dot_prefix(x, y, (n - 1) as nat) + dot_term(x, y, n - 1)
    }
}

/// The term of the dot product at position `k`.
pub open spec fn dot_term<T: Scalar>(x: Seq<T>, y: Seq<T>, k: int) -> int {
    x[k].value() * y[k].value()
}

/// The dot product of two sequences of equal length.
pub open spec fn dot<T: Scalar>(x: Seq<T>, y: Seq<T>) -> int {
    dot_prefix(x, y, x.len())
}

/// Whether the dot product can be accumulated from left to right in `T`:
/// every term and every partial sum is in range.
pub open spec fn dot_fits<T: Scalar>(x: Seq<T>, y: Seq<T>) -> bool {
    forall|k: int|
        0 <= k < x.len() ==> T::in_range(#[trigger] dot_term(x, y, k)) && T::in_range(
            dot_prefix(x, y, (k + 1) as nat),
        )
}

/// Computes the dot product of `row` and `col`.
///
/// Fails with `DotProductLengthMismatch` when the lengths differ, and with
/// `Overflow` when a term or a partial sum leaves the range of `T`.
pub fn dot_product<T: Scalar>(row: Vector<T>, col: Vector<T>) -> (r: Result<T, MatrixError>)
    ensures
        row@.len() != col@.len() ==> r == Err::<T, MatrixError>(
            MatrixError::DotProductLengthMismatch,
        ),
        row@.len() == col@.len() && !dot_fits(row@, col@) ==> r == Err::<T, MatrixError>(
            MatrixError::Overflow,
        ),
        row@.len() == col@.len() && dot_fits(row@, col@) ==> r is Ok && r->Ok_0.value() == dot(
            row@,
            col@,
        ),
{
    if row.len() != col.len() {
        return Err(MatrixError::DotProductLengthMismatch);
    }
    let n = row.len();
    let mut sum = T::zero();
    let mut k: usize = 0;
    while k < n
        invariant
            n == row@.len(),
            n == col@.len(),
            k <= n,
            sum.value() == dot_prefix(row@, col@, k as nat),
            forall|m: int|
                0 <= m < k ==> T::in_range(#[trigger] dot_term(row@, col@, m)) && T::in_range(
                    dot_prefix(row@, col@, (m + 1) as nat),
                ),
        decreases n - k,
    {
        let term = match row.get(k).checked_product(*col.get(k)) {
            Some(t) => t,
            None => {
                assert(!T::in_range(dot_term(row@, col@, k as int)));
                return Err(MatrixError::Overflow);
            },
        };
        sum = match sum.checked_sum(term) {
            Some(s) => s,
            None => {
                assert(!T::in_range(dot_prefix(row@, col@, (k + 1) as nat)));
                return Err(MatrixError::Overflow);
            },
        };
        k = k + 1;
    }
    Ok(sum)
}

} // verus!
