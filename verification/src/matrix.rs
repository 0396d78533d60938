//! Dense row-major matrices.

use vstd::prelude::*;
use vstd::string::*;
use crate::error::MatrixError;
use crate::scalar::Scalar;
use crate::text::{append_nat, int_text, joined, nat_text};
use crate::vector::Vector;

verus! {

/// A dense matrix stored row by row: the element at row `i`, column `j`
/// lies at position `i * cols + j` of the flat data.
pub struct Matrix<T> {
    data: Vec<T>,
    row: usize,
    col: usize,
}

impl<T> View for Matrix<T> {
    type V = Seq<T>;

    /// The flat data, row by row.
    closed spec fn view(&self) -> Seq<T> {
        self.data@
    }
}

/// The position of row `i`, column `j` in the flat data of a matrix with
/// `cols` columns.
pub open spec fn flat_index(cols: int, i: int, j: int) -> int {
    i * cols + j
}

/// A cell of a `rows` by `cols` matrix has a position inside its flat data,
/// and the position determines the cell.
pub proof fn lemma_flat_index(rows: int, cols: int, i: int, j: int)
    requires
        0 <= i < rows,
        0 <= j < cols,
    ensures
        0 <= flat_index(cols, i, j) < rows * cols,
        i * cols + cols <= rows * cols,
        flat_index(cols, i, j) / cols == i,
        flat_index(cols, i, j) % cols == j,
{
    assert(i * cols + cols <= rows * cols && 0 <= i * cols) by (nonlinear_arith)
        requires
            0 <= i < rows,
            0 < cols,
    ;
    vstd::arithmetic::div_mod::lemma_fundamental_div_mod_converse(i * cols + j, cols, i, j);
}

impl<T> Matrix<T> {
    /// The number of rows.
    pub closed spec fn spec_rows(&self) -> usize {
        self.row
    }

    /// The number of columns.
    pub closed spec fn spec_cols(&self) -> usize {
        self.col
    }

    /// The invariant of a matrix: the flat data holds `rows * cols` elements.
    pub open spec fn well_formed(&self) -> bool {
        self@.len() == self.spec_rows() * self.spec_cols()
    }

    /// The element at row `i`, column `j`.
    pub open spec fn at(&self, i: int, j: int) -> T {
        self@[flat_index(self.spec_cols() as int, i, j)]
    }

    /// Row `i`, from left to right.
    pub open spec fn row_seq(&self, i: int) -> Seq<T> {
        Seq::new(self.spec_cols() as nat, |k: int| self.at(i, k))
    }

    /// Column `j`, from top to bottom.
    pub open spec fn col_seq(&self, j: int) -> Seq<T> {
        Seq::new(self.spec_rows() as nat, |k: int| self.at(k, j))
    }

    /// Builds a `row` by `col` matrix from its flat data, which must hold
    /// exactly `row * col` elements.
    pub fn new(data: Vec<T>, row: usize, col: usize) -> (m: Self)
        requires
            data@.len() == row * col,
        ensures
            m@ == data@,
            m.spec_rows() == row,
            m.spec_cols() == col,
            m.well_formed(),
    {
        Matrix { data, row, col }
    }

    /// Builds a `row` by `col` matrix from its flat data, or fails with
    /// `ShapeMismatch` when the data does not hold `row * col` elements.
    pub fn try_new(data: Vec<T>, row: usize, col: usize) -> (r: Result<Self, MatrixError>)
        ensures
            data@.len() != row * col ==> r == Err::<Self, MatrixError>(MatrixError::ShapeMismatch),
            data@.len() == row * col ==> r is Ok && r->Ok_0@ == data@ && r->Ok_0.spec_rows() == row
                && r->Ok_0.spec_cols() == col && r->Ok_0.well_formed(),
    {
        let len = data.len();
        match row.checked_mul(col) {
            Some(n) => {
                if len == n {
                    Ok(Matrix { data, row, col })
                } else {
                    Err(MatrixError::ShapeMismatch)
                }
            },
            None => Err(MatrixError::ShapeMismatch),
        }
    }

    /// Tests the invariant: whether the flat data holds `rows * cols`
    /// elements.
    pub fn is_well_formed(&self) -> (ok: bool)
        ensures
            ok == self.well_formed(),
    {
        let len = self.data.len();
        match self.row.checked_mul(self.col) {
            Some(n) => len == n,
            None => false,
        }
    }

    /// The number of elements.
    pub fn len(&self) -> (n: usize)
        ensures
            n == self@.len(),
    {
        self.data.len()
    }

    /// The number of rows.
    #[verifier::when_used_as_spec(spec_rows)]
    pub fn rows(&self) -> (n: usize)
        ensures
            n == self.spec_rows(),
    {
        self.row
    }

    /// The number of columns.
    #[verifier::when_used_as_spec(spec_cols)]
    pub fn cols(&self) -> (n: usize)
        ensures
            n == self.spec_cols(),
    {
        self.col
    }

    /// The element at row `i`, column `j`.
    pub fn get(&self, i: usize, j: usize) -> (e: &T)
        requires
            self.well_formed(),
            i < self.rows(),
            j < self.cols(),
        ensures
            *e == self.at(i as int, j as int),
    {
        let len = self.data.len();
        proof {
            lemma_flat_index(self.row as int, self.col as int, i as int, j as int);
            assert(i * self.col + j < len);
        }
        &self.data[i * self.col + j]
    }
}

impl<T: Copy> Matrix<T> {
    /// Copies row `i` into a vector.
    pub fn row_vector(&self, i: usize) -> (v: Vector<T>)
        requires
            self.well_formed(),
            i < self.rows(),
        ensures
            v@ == self.row_seq(i as int),
    {
        let mut out: Vec<T> = Vec::new();
        let mut k: usize = 0;
        while k < self.col
            invariant
                self.well_formed(),
                i < self.rows(),
                k <= self.cols(),
                out@.len() == k,
                forall|m: int| 0 <= m < k ==> out@[m] == self.at(i as int, m),
            decreases self.cols() - k,
        {
            out.push(*self.get(i, k));
            k = k + 1;
        }
        assert(out@ =~= self.row_seq(i as int));
        Vector::new(out)
    }

    /// Gathers column `j`, which is strided in the flat data, into a vector.
    pub fn col_vector(&self, j: usize) -> (v: Vector<T>)
        requires
            self.well_formed(),
            j < self.cols(),
        ensures
            v@ == self.col_seq(j as int),
    {
        let mut out: Vec<T> = Vec::new();
        let mut k: usize = 0;
        while k < self.row
            invariant
                self.well_formed(),
                j < self.cols(),
                k <= self.rows(),
                out@.len() == k,
                forall|m: int| 0 <= m < k ==> out@[m] == self.at(m, j as int),
            decreases self.rows() - k,
        {
            out.push(*self.get(k, j));
            k = k + 1;
        }
        assert(out@ =~= self.col_seq(j as int));
        Vector::new(out)
    }
}

impl<T: Scalar> Matrix<T> {
    /// The decimal texts of the elements of row `i`.
    pub open spec fn row_cells(&self, i: int) -> Seq<Seq<char>> {
        Seq::new(self.spec_cols() as nat, |j: int| int_text(self.at(i, j).value()))
    }

    /// The text of row `i`: its elements separated by one space, in braces.
    pub open spec fn row_text(&self, i: int) -> Seq<char> {
        seq!['{'] + joined(self.row_cells(i), seq![' ']) + seq!['}']
    }

    /// The text of the matrix: the texts of its rows separated by a comma.
    pub open spec fn text(&self) -> Seq<char> {
        joined(Seq::new(self.spec_rows() as nat, |i: int| self.row_text(i)), seq![','])
    }

    /// The text of the matrix with its shape in front: `Matrix(RxC):` and
    /// then the text of the matrix.
    pub open spec fn debug_text(&self) -> Seq<char> {
        seq!['M', 'a', 't', 'r', 'i', 'x', '('] + nat_text(self.spec_rows() as nat) + seq!['x']
            + nat_text(self.spec_cols() as nat) + seq![')', ':'] + self.text()
    }

    /// Appends the text of row `i` to `out`.
    fn append_row(&self, out: &mut String, i: usize)
        requires
            self.well_formed(),
            i < self.rows(),
        ensures
            final(out)@ == old(out)@ + self.row_text(i as int),
    {
        proof {
            reveal_strlit("{");
            reveal_strlit("}");
        }
        let ghost cells = self.row_cells(i as int);
        out.append("{");
        let ghost opened = out@;
        assert(opened =~= old(out)@ + seq!['{']);
        let mut j: usize = 0;
        while j < self.col
            invariant
                self.well_formed(),
                i < self.rows(),
                j <= self.cols(),
                cells == self.row_cells(i as int),
                out@ == opened + joined(cells.take(j as int), seq![' ']),
            decreases self.cols() - j,
        {
            if j != 0 {
                out.append(" ");
            }
            self.get(i, j).append_text(out);
            proof {
                let now = cells.take(j as int + 1);
                assert(now.drop_last() =~= cells.take(j as int));
                assert(now.last() == cells[j as int]);
                if j == 0 {
                    assert(joined(cells.take(0), seq![' ']) =~= Seq::<char>::empty());
                    assert(out@ =~= opened + joined(now, seq![' ']));
                } else {
                    reveal_strlit(" ");
                    assert(out@ =~= opened + joined(now, seq![' ']));
                }
            }
            j = j + 1;
        }
        assert(cells.take(j as int) =~= cells);
        out.append("}");
        assert(final(out)@ =~= old(out)@ + self.row_text(i as int));
    }

    /// Appends the text of the matrix to `out`.
    fn append_rows(&self, out: &mut String)
        requires
            self.well_formed(),
        ensures
            final(out)@ == old(out)@ + self.text(),
    {
        let ghost lines = Seq::new(self.spec_rows() as nat, |i: int| self.row_text(i));
        let ghost start = out@;
        let mut i: usize = 0;
        while i < self.row
            invariant
                self.well_formed(),
                i <= self.rows(),
                lines == Seq::new(self.spec_rows() as nat, |i: int| self.row_text(i)),
                out@ == start + joined(lines.take(i as int), seq![',']),
            decreases self.rows() - i,
        {
            if i != 0 {
                out.append(",");
            }
            self.append_row(out, i);
            proof {
                let now = lines.take(i as int + 1);
                assert(now.drop_last() =~= lines.take(i as int));
                assert(now.last() == lines[i as int]);
                if i == 0 {
                    assert(joined(lines.take(0), seq![',']) =~= Seq::<char>::empty());
                    assert(out@ =~= start + joined(now, seq![',']));
                } else {
                    reveal_strlit(",");
                    assert(out@ =~= start + joined(now, seq![',']));
                }
            }
            i = i + 1;
        }
        assert(lines.take(i as int) =~= lines);
    }

    /// Renders the matrix: each row as `{e0 e1 ... en}`, rows separated by a
    /// comma.
    pub fn to_string(&self) -> (s: String)
        requires
            self.well_formed(),
        ensures
            s@ == self.text(),
    {
        let mut out = String::new();
        self.append_rows(&mut out);
        assert(out@ =~= self.text());
        out
    }

    /// Renders the matrix with its shape in front, as `Matrix(RxC):` followed
    /// by the rows.
    pub fn to_debug_string(&self) -> (s: String)
        requires
            self.well_formed(),
        ensures
            s@ == self.debug_text(),
    {
        proof {
            reveal_strlit("Matrix(");
            reveal_strlit("x");
            reveal_strlit("):");
        }
        let mut out = String::new();
        out.append("Matrix(");
        assert(out@ =~= seq!['M', 'a', 't', 'r', 'i', 'x', '(']);
        append_nat(&mut out, self.row as u128);
        out.append("x");
        append_nat(&mut out, self.col as u128);
        out.append("):");
        self.append_rows(&mut out);
        assert(out@ =~= self.debug_text());
        out
    }
}

} // verus!
