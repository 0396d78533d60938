//! Laws of the matrix product and of the placement of replies.

use vstd::prelude::*;
use crate::engine::{cell, is_product, placed, product_fits, MsgOutput};
use crate::matrix::{flat_index, lemma_flat_index, Matrix};
use crate::scalar::Scalar;
use crate::vector::{dot_fits, dot_prefix, dot_term};

verus! {

/// Whether `y` is the unit vector with its one at position `j`.
pub open spec fn is_unit<T: Scalar>(y: Seq<T>, j: int) -> bool {
    forall|k: int|
        0 <= k < y.len() ==> (#[trigger] y[k]).value() == if k == j {
            1int
        } else {
            0int
        }
}

/// Whether `e` is the identity matrix of size `n`: ones on the diagonal,
/// zeros elsewhere.
pub open spec fn is_identity<T: Scalar>(e: Matrix<T>, n: int) -> bool {
    &&& e.well_formed()
    &&& e.spec_rows() == n
    &&& e.spec_cols() == n
    &&& forall|i: int, j: int|
        0 <= i < n && 0 <= j < n ==> (#[trigger] e.at(i, j)).value() == if i == j {
            1int
        } else {
            0int
        }
}

/// The dot product with a unit vector on the right picks one element: after
/// `m` positions the sum is `x[j]` if position `j` has been passed, else zero.
pub proof fn lemma_dot_unit_right<T: Scalar>(x: Seq<T>, y: Seq<T>, j: int, m: nat)
    requires
        x.len() == y.len(),
        0 <= j < y.len(),
        m <= y.len(),
        is_unit(y, j),
    ensures
        dot_prefix(x, y, m) == if j < m {
            x[j].value()
        } else {
            0int
        },
        m > 0 ==> dot_term(x, y, m - 1) == if j == m - 1 {
            x[j].value()
        } else {
            0int
        },
    decreases m,
{
    if m > 0 {
        lemma_dot_unit_right(x, y, j, (m - 1) as nat);
        let k = m - 1;
        let xv = x[k].value();
        let yv = y[k].value();
        assert(xv * yv == if k == j { xv } else { 0int }) by (nonlinear_arith)
            requires
                yv == if k == j { 1int } else { 0int },
        ;
    }
}

/// The dot product with a unit vector on the left picks one element.
pub proof fn lemma_dot_unit_left<T: Scalar>(x: Seq<T>, y: Seq<T>, i: int, m: nat)
    requires
        x.len() == y.len(),
        0 <= i < x.len(),
        m <= x.len(),
        is_unit(x, i),
    ensures
        dot_prefix(x, y, m) == if i < m {
            y[i].value()
        } else {
            0int
        },
        m > 0 ==> dot_term(x, y, m - 1) == if i == m - 1 {
            y[i].value()
        } else {
            0int
        },
    decreases m,
{
    if m > 0 {
        lemma_dot_unit_left(x, y, i, (m - 1) as nat);
        let k = m - 1;
        let xv = x[k].value();
        let yv = y[k].value();
        assert(xv * yv == if k == i { yv } else { 0int }) by (nonlinear_arith)
            requires
                xv == if k == i { 1int } else { 0int },
        ;
    }
}

/// Multiplying by the identity on the right changes nothing: every cell of
/// `a * e` can be accumulated and equals the cell of `a`.
pub proof fn lemma_identity_right<T: Scalar>(a: Matrix<T>, e: Matrix<T>)
    requires
        a.well_formed(),
        is_identity(e, a.spec_cols() as int),
    ensures
        product_fits(a, e),
        forall|i: int, j: int|
            0 <= i < a.spec_rows() && 0 <= j < a.spec_cols() ==> #[trigger] cell(a, e, i, j)
                == a.at(i, j).value(),
{
    let n = a.spec_cols() as int;
    T::lemma_units_in_range();
    assert forall|i: int, j: int| 0 <= i < a.spec_rows() && 0 <= j < n implies dot_fits(
        #[trigger] a.row_seq(i),
        #[trigger] e.col_seq(j),
    ) && cell(a, e, i, j) == a.at(i, j).value() by {
        let x = a.row_seq(i);
        let y = e.col_seq(j);
        assert(is_unit(y, j)) by {
            assert forall|k: int| 0 <= k < y.len() implies (#[trigger] y[k]).value() == if k == j {
                1int
            } else {
                0int
            } by {
                assert(y[k] == e.at(k, j));
            }
        }
        x[j].lemma_value_in_range();
        assert forall|k: int| 0 <= k < x.len() implies T::in_range(#[trigger] dot_term(x, y, k))
            && T::in_range(dot_prefix(x, y, (k + 1) as nat)) by {
            lemma_dot_unit_right(x, y, j, (k + 1) as nat);
        }
        lemma_dot_unit_right(x, y, j, n as nat);
        assert(x[j] == a.at(i, j));
    }
}

/// Multiplying by the identity on the left changes nothing: every cell of
/// `e * a` can be accumulated and equals the cell of `a`.
pub proof fn lemma_identity_left<T: Scalar>(e: Matrix<T>, a: Matrix<T>)
    requires
        a.well_formed(),
        is_identity(e, a.spec_rows() as int),
    ensures
        product_fits(e, a),
        forall|i: int, j: int|
            0 <= i < a.spec_rows() && 0 <= j < a.spec_cols() ==> #[trigger] cell(e, a, i, j)
                == a.at(i, j).value(),
{
    let n = a.spec_rows() as int;
    T::lemma_units_in_range();
    assert forall|i: int, j: int| 0 <= i < n && 0 <= j < a.spec_cols() implies dot_fits(
        #[trigger] e.row_seq(i),
        #[trigger] a.col_seq(j),
    ) && cell(e, a, i, j) == a.at(i, j).value() by {
        let x = e.row_seq(i);
        let y = a.col_seq(j);
        assert(is_unit(x, i)) by {
            assert forall|k: int| 0 <= k < x.len() implies (#[trigger] x[k]).value() == if k == i {
                1int
            } else {
                0int
            } by {
                assert(x[k] == e.at(i, k));
            }
        }
        y[i].lemma_value_in_range();
        assert forall|k: int| 0 <= k < x.len() implies T::in_range(#[trigger] dot_term(x, y, k))
            && T::in_range(dot_prefix(x, y, (k + 1) as nat)) by {
            lemma_dot_unit_left(x, y, i, (k + 1) as nat);
        }
        lemma_dot_unit_left(x, y, i, n as nat);
        assert(y[i] == a.at(i, j));
    }
}

/// Two well-formed matrices of the same shape whose cells stand for the same
/// integers hold the same elements.
pub proof fn lemma_equal_cells<T: Scalar>(c: Matrix<T>, a: Matrix<T>)
    requires
        c.well_formed(),
        a.well_formed(),
        c.spec_rows() == a.spec_rows(),
        c.spec_cols() == a.spec_cols(),
        forall|i: int, j: int|
            0 <= i < a.spec_rows() && 0 <= j < a.spec_cols() ==> (#[trigger] c.at(i, j)).value()
                == a.at(i, j).value(),
    ensures
        c@ == a@,
{
    let rows = a.spec_rows() as int;
    let cols = a.spec_cols() as int;
    assert forall|p: int| 0 <= p < a@.len() implies c@[p] == a@[p] by {
        assert(cols > 0) by (nonlinear_arith)
            requires
                0 <= p < rows * cols,
                0 <= cols,
        ;
        let i = p / cols;
        let j = p % cols;
        vstd::arithmetic::div_mod::lemma_fundamental_div_mod(p, cols);
        assert(0 <= i < rows) by (nonlinear_arith)
            requires
                0 <= p < rows * cols,
                cols > 0,
                i == p / cols,
                p == cols * i + j,
                0 <= j < cols,
        ;
        assert(p == flat_index(cols, i, j)) by (nonlinear_arith)
            requires
                p == cols * i + j,
        ;
        assert(c.at(i, j).value() == a.at(i, j).value());
        T::lemma_value_injective(c@[p], a@[p]);
    }
    assert(c@ =~= a@);
}

/// The identity law: the product of a square matrix and the identity matrix
/// of its size, on either side, exists and holds the elements of the matrix.
pub proof fn lemma_multiply_by_identity<T: Scalar>(a: Matrix<T>, e: Matrix<T>, c: Matrix<T>)
    requires
        a.well_formed(),
        a.spec_rows() == a.spec_cols(),
        is_identity(e, a.spec_rows() as int),
    ensures
        product_fits(a, e),
        product_fits(e, a),
        is_product(c, a, e) ==> c@ == a@,
        is_product(c, e, a) ==> c@ == a@,
{
    lemma_identity_right(a, e);
    lemma_identity_left(e, a);
    if is_product(c, a, e) {
        assert forall|i: int, j: int|
            0 <= i < a.spec_rows() && 0 <= j < a.spec_cols() implies (#[trigger] c.at(
            i,
            j,
        )).value() == a.at(i, j).value() by {
            assert(c.at(i, j).value() == cell(a, e, i, j));
        }
        lemma_equal_cells(c, a);
    }
    if is_product(c, e, a) {
        assert forall|i: int, j: int|
            0 <= i < a.spec_rows() && 0 <= j < a.spec_cols() implies (#[trigger] c.at(
            i,
            j,
        )).value() == a.at(i, j).value() by {
            assert(c.at(i, j).value() == cell(e, a, i, j));
        }
        lemma_equal_cells(c, a);
    }
}

/// Whether no two replies carry the same index, and every index names one of
/// `len` slots.
pub open spec fn one_reply_per_slot<T>(replies: Seq<MsgOutput<T>>, len: nat) -> bool {
    &&& forall|k: int| 0 <= k < replies.len() ==> (#[trigger] replies[k]).idx < len
    &&& forall|m: int, n: int|
        0 <= m < n < replies.len() ==> (#[trigger] replies[m]).idx != (#[trigger] replies[n]).idx
}

/// Placement keeps the number of slots.
pub proof fn lemma_placed_len<T>(slots: Seq<T>, replies: Seq<MsgOutput<T>>)
    requires
        forall|k: int| 0 <= k < replies.len() ==> (#[trigger] replies[k]).idx < slots.len(),
    ensures
        placed(slots, replies).len() == slots.len(),
    decreases replies.len(),
{
    if replies.len() > 0 {
        let front = replies.drop_last();
        assert forall|k: int| 0 <= k < front.len() implies (#[trigger] front[k]).idx
            < slots.len() by {
            assert(front[k] == replies[k]);
        }
        lemma_placed_len(slots, front);
    }
}

/// What a slot holds after placement: the value of the reply that names it,
/// or what it held before when no reply names it.
pub proof fn lemma_placed_slot<T>(slots: Seq<T>, replies: Seq<MsgOutput<T>>, p: int)
    requires
        one_reply_per_slot(replies, slots.len()),
        0 <= p < slots.len(),
    ensures
        forall|k: int|
            0 <= k < replies.len() && (#[trigger] replies[k]).idx == p ==> placed(slots, replies)[p]
                == replies[k].value,
        (forall|k: int| 0 <= k < replies.len() ==> (#[trigger] replies[k]).idx != p) ==> placed(
            slots,
            replies,
        )[p] == slots[p],
    decreases replies.len(),
{
    if replies.len() > 0 {
        let front = replies.drop_last();
        assert forall|k: int| 0 <= k < front.len() implies (#[trigger] front[k]).idx
            < slots.len() by {
            assert(front[k] == replies[k]);
        }
        assert forall|m: int, n: int| 0 <= m < n < front.len() implies (#[trigger] front[m]).idx != (
        #[trigger] front[n]).idx by {
            assert(front[m] == replies[m] && front[n] == replies[n]);
        }
        lemma_placed_slot(slots, front, p);
        lemma_placed_len(slots, front);
        let last = replies.len() - 1;
        assert forall|k: int| 0 <= k < replies.len() && (#[trigger] replies[k]).idx == p implies placed(
            slots,
            replies,
        )[p] == replies[k].value by {
            if k < last {
                assert(front[k] == replies[k]);
                assert(replies[k].idx != replies[last].idx);
            }
        }
        if forall|k: int| 0 <= k < replies.len() ==> (#[trigger] replies[k]).idx != p {
            assert forall|k: int| 0 <= k < front.len() implies (#[trigger] front[k]).idx != p by {
                assert(front[k] == replies[k]);
            }
            assert(replies[last].idx != p);
        }
    }
}

/// A rearrangement of replies, one reply per slot, is again one reply per
/// slot, and holds the same replies.
pub proof fn lemma_rearranged_replies<T>(
    first: Seq<MsgOutput<T>>,
    second: Seq<MsgOutput<T>>,
    len: nat,
)
    requires
        one_reply_per_slot(first, len),
        second.to_multiset() == first.to_multiset(),
    ensures
        one_reply_per_slot(second, len),
        forall|r: MsgOutput<T>| first.contains(r) <==> second.contains(r),
{
    first.to_multiset_ensures();
    second.to_multiset_ensures();
    assert forall|r: MsgOutput<T>| first.contains(r) <==> second.contains(r) by {
        assert(first.contains(r) <==> first.to_multiset().count(r) > 0);
        assert(second.contains(r) <==> second.to_multiset().count(r) > 0);
    }
    assert(first.no_duplicates());
    first.lemma_multiset_has_no_duplicates();
    second.lemma_multiset_has_no_duplicates_conv();
    assert forall|k: int| 0 <= k < second.len() implies (#[trigger] second[k]).idx < len by {
        assert(second.contains(second[k]));
        assert(first.contains(second[k]));
    }
    assert forall|m: int, n: int| 0 <= m < n < second.len() implies (#[trigger] second[m]).idx != (
    #[trigger] second[n]).idx by {
        assert(second.contains(second[m]));
        assert(second.contains(second[n]));
        assert(first.contains(second[m]));
        assert(first.contains(second[n]));
        let i = choose|i: int| 0 <= i < first.len() && first[i] == second[m];
        let j = choose|j: int| 0 <= j < first.len() && first[j] == second[n];
        if second[m].idx == second[n].idx {
            assert(first[i].idx == first[j].idx);
            assert(i == j);
            assert(second[m] == second[n]);
        }
    }
}

/// Placement does not depend on the order of arrival: however the replies,
/// one per slot, are rearranged, they fill the slots alike.
pub proof fn lemma_arrival_order_irrelevant<T>(
    slots: Seq<T>,
    first: Seq<MsgOutput<T>>,
    second: Seq<MsgOutput<T>>,
)
    requires
        one_reply_per_slot(first, slots.len()),
        second.to_multiset() == first.to_multiset(),
    ensures
        placed(slots, first) == placed(slots, second),
{
    lemma_rearranged_replies(first, second, slots.len());
    assert forall|p: int| 0 <= p < slots.len() implies placed(slots, first)[p] == placed(
        slots,
        second,
    )[p] by {
        lemma_placed_slot(slots, first, p);
        lemma_placed_slot(slots, second, p);
        if exists|k: int| 0 <= k < first.len() && (#[trigger] first[k]).idx == p {
            let k = choose|k: int| 0 <= k < first.len() && (#[trigger] first[k]).idx == p;
            assert(first.contains(first[k]));
            assert(second.contains(first[k]));
            let n = choose|n: int| 0 <= n < second.len() && second[n] == first[k];
            assert(second[n].idx == p);
        } else {
            assert forall|n: int| 0 <= n < second.len() implies (#[trigger] second[n]).idx != p by {
                assert(second.contains(second[n]));
                assert(first.contains(second[n]));
                let k = choose|k: int| 0 <= k < first.len() && first[k] == second[n];
                assert(first[k].idx != p);
            }
        }
    }
    lemma_placed_len(slots, first);
    lemma_placed_len(slots, second);
    assert(placed(slots, first) =~= placed(slots, second));
}

/// Whether `replies` answers every job of the product of `a` and `b` once
/// and rightly: one reply per cell, each with the value of the cell that
/// its index names.
pub open spec fn answers_every_job<T: Scalar>(
    replies: Seq<MsgOutput<T>>,
    a: Matrix<T>,
    b: Matrix<T>,
) -> bool {
    &&& one_reply_per_slot(replies, (a.spec_rows() * b.spec_cols()) as nat)
    &&& forall|i: int, j: int|
        0 <= i < a.spec_rows() && 0 <= j < b.spec_cols() ==> exists|k: int|
            0 <= k < replies.len() && (#[trigger] replies[k]).idx == #[trigger] flat_index(
                b.spec_cols() as int,
                i,
                j,
            ) && replies[k].value.value() == cell(a, b, i, j)
}

/// Whatever the order in which the replies arrive, a collection that has
/// taken one right reply for every job holds the product.
pub proof fn lemma_collected_product<T: Scalar>(
    a: Matrix<T>,
    b: Matrix<T>,
    slots: Seq<T>,
    replies: Seq<MsgOutput<T>>,
    c: Matrix<T>,
)
    requires
        slots.len() == a.spec_rows() * b.spec_cols(),
        answers_every_job(replies, a, b),
        c@ == placed(slots, replies),
        c.spec_rows() == a.spec_rows(),
        c.spec_cols() == b.spec_cols(),
    ensures
        is_product(c, a, b),
{
    lemma_placed_len(slots, replies);
    assert forall|i: int, j: int|
        0 <= i < a.spec_rows() && 0 <= j < b.spec_cols() implies (#[trigger] c.at(i, j)).value()
        == cell(a, b, i, j) by {
        let p = flat_index(b.spec_cols() as int, i, j);
        lemma_flat_index(a.spec_rows() as int, b.spec_cols() as int, i, j);
        lemma_placed_slot(slots, replies, p);
        let k = choose|k: int|
            0 <= k < replies.len() && (#[trigger] replies[k]).idx == flat_index(
                b.spec_cols() as int,
                i,
                j,
            ) && replies[k].value.value() == cell(a, b, i, j);
        assert(placed(slots, replies)[p] == replies[k].value);
    }
}

} // verus!
