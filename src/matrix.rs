use vstd::prelude::*;
use crate::err::MatrixError;

verus! {

/// A grid of rows, each with the same positive number of columns.
pub open spec fn is_grid<T>(g: Seq<Seq<T>>) -> bool {
    g.len() >= 1 && g[0].len() >= 1 && forall|i: int| 0 <= i < g.len() ==> #[trigger] g[i].len()
        == g[0].len()
}

/// The grid whose entry `(j, i)` is the entry `(i, j)` of `g`.
pub open spec fn transposed<T>(g: Seq<Seq<T>>) -> Seq<Seq<T>> {
    Seq::new(g[0].len(), |j: int| Seq::new(g.len(), |i: int| g[i][j]))
}

/// `flat` cut into `n` consecutive rows of `n` values each.
pub open spec fn chunked<T>(flat: Seq<T>, n: nat) -> Seq<Seq<T>> {
    Seq::new(n, |i: int| flat.subrange(i * n, i * n + n))
}

/// `len` is the square of a positive integer.
pub open spec fn is_positive_square(len: nat) -> bool {
    exists|n: nat| n >= 1 && #[trigger] (n * n) == len
}

/// A rectangular matrix with at least one row and one column, stored row by row.
pub struct Matrix<T> {
    rows: Vec<Vec<T>>,
}

impl<T> View for Matrix<T> {
    type V = Seq<Seq<T>>;

    closed spec fn view(&self) -> Seq<Seq<T>> {
        self.rows@.map_values(|r: Vec<T>| r@)
    }
}

proof fn lemma_square_monotone(a: nat, b: nat)
    requires
        a < b,
    ensures
        a * a < b * b,
{
    assert(a * a < b * b) by (nonlinear_arith)
        requires
            a < b,
    ;
}

proof fn lemma_square_fits(n: usize)
    ensures
        (n as nat) * (n as nat) <= 0xffff_ffff_ffff_ffff_ffff_ffff_ffff_ffff,
{
    assert((n as nat) * (n as nat) <= 0xffff_ffff_ffff_ffff_ffff_ffff_ffff_ffff) by (nonlinear_arith)
        requires
            n <= 0xffff_ffff_ffff_ffff,
    ;
}

impl<T> Matrix<T> {
    #[verifier::type_invariant]
    closed spec fn shaped(self) -> bool {
        is_grid(self@)
    }
}

impl<T: Copy> Matrix<T> {
    /// Number of rows.
    pub fn nrows(&self) -> (r: usize)
        ensures
            r == self@.len(),
            r >= 1,
            is_grid(self@),
    {
        proof {
            use_type_invariant(self);
        }
        self.rows.len()
    }

    /// Number of columns.
    pub fn ncols(&self) -> (r: usize)
        ensures
            r == self@[0].len(),
            r >= 1,
            is_grid(self@),
    {
        proof {
            use_type_invariant(self);
        }
        self.rows[0].len()
    }

    /// The entry at row `i`, column `j`.
    pub fn get(&self, i: usize, j: usize) -> (r: T)
        requires
            i < self@.len(),
            j < self@[0].len(),
        ensures
            r == self@[i as int][j as int],
    {
        proof {
            use_type_invariant(self);
            assert(self.rows@[i as int]@ == self@[i as int]);
        }
        self.rows[i][j]
    }

    /// Whether the matrix has as many rows as columns.
    pub fn is_square(&self) -> (r: bool)
        ensures
            r == (self@.len() == self@[0].len()),
    {
        self.nrows() == self.ncols()
    }

    /// A matrix from its rows; `ShapeMismatch` unless they form a grid.
    pub fn from_rows(rows: Vec<Vec<T>>) -> (r: Result<Self, MatrixError>)
        ensures
            match r {
                Ok(m) => is_grid(rows@.map_values(|v: Vec<T>| v@)) && m@ == rows@.map_values(
                    |v: Vec<T>| v@,
                ),
                Err(e) => e == MatrixError::ShapeMismatch && !is_grid(
                    rows@.map_values(|v: Vec<T>| v@),
                ),
            },
    {
        let ghost g = rows@.map_values(|v: Vec<T>| v@);
        if rows.len() == 0 || rows[0].len() == 0 {
            return Err(MatrixError::ShapeMismatch);
        }
        let cols = rows[0].len();
        proof {
            assert(g[0] == rows@[0]@);
        }
        let mut i: usize = 0;
        while i < rows.len()
            invariant
                g == rows@.map_values(|v: Vec<T>| v@),
                g.len() >= 1,
                cols == g[0].len(),
                i <= g.len(),
                forall|k: int| 0 <= k < i ==> #[trigger] g[k].len() == cols,
            decreases rows.len() - i,
        {
            proof {
                assert(g[i as int] == rows@[i as int]@);
            }
            if rows[i].len() != cols {
                return Err(MatrixError::ShapeMismatch);
            }
            i = i + 1;
        }
        Ok(Matrix { rows })
    }

    /// A copy of the matrix, entry for entry.
    pub fn duplicate(&self) -> (r: Self)
        ensures
            r@ == self@,
    {
        proof {
            use_type_invariant(self);
        }
        let mut out: Vec<Vec<T>> = Vec::new();
        let mut i: usize = 0;
        while i < self.rows.len()
            invariant
                i <= self@.len(),
                self@ == self.rows@.map_values(|v: Vec<T>| v@),
                out@.len() == i,
                forall|k: int| 0 <= k < i ==> #[trigger] out@[k]@ == self@[k],
            decreases self.rows.len() - i,
        {
            let src = &self.rows[i];
            let mut row: Vec<T> = Vec::new();
            let mut j: usize = 0;
            while j < src.len()
                invariant
                    j <= src@.len(),
                    row@ == src@.subrange(0, j as int),
                decreases src.len() - j,
            {
                row.push(src[j]);
                j = j + 1;
                proof {
                    assert(row@ =~= src@.subrange(0, j as int));
                }
            }
            proof {
                assert(row@ =~= src@);
            }
            out.push(row);
            i = i + 1;
        }
        let r = Matrix { rows: out };
        proof {
            assert(r@ =~= self@);
        }
        r
    }

    /// The `n`-by-`n` matrix filled row by row from `vec`, where `n * n` is its length;
    /// `NotPerfectSquare` when the length is not the square of a positive integer.
    pub fn from_flat(vec: Vec<T>) -> (r: Result<Self, MatrixError>)
        ensures
            match r {
                Ok(m) => m@.len() * m@.len() == vec@.len() && m@ == chunked(vec@, m@.len()),
                Err(e) => e == MatrixError::NotPerfectSquare && !is_positive_square(vec@.len()),
            },
    {
        let len = vec.len();
        if len == 0 {
            proof {
                assert forall|k: nat| k >= 1 implies #[trigger] (k * k) != len by {
                    assert(k * k >= 1) by (nonlinear_arith)
                        requires
                            k >= 1,
                    ;
                }
            }
            return Err(MatrixError::NotPerfectSquare);
        }
        let mut n: usize = 1;
        loop
            invariant
                1 <= n <= len,
                forall|k: nat| 1 <= k < n ==> #[trigger] (k * k) < len,
            ensures
                1 <= n <= len,
                forall|k: nat| 1 <= k < n ==> #[trigger] (k * k) < len,
                (n as nat) * (n as nat) >= len,
            decreases len - n,
        {
            if n == len {
                proof {
                    assert(n * n >= n) by (nonlinear_arith)
                        requires
                            n >= 1,
                    ;
                }
                break;
            }
            proof {
                lemma_square_fits(n);
            }
            if (n as u128) * (n as u128) >= len as u128 {
                break;
            }
            n = n + 1;
        }
        proof {
            lemma_square_fits(n);
        }
        if (n as u128) * (n as u128) != len as u128 {
            proof {
                assert(n * n > len);
                assert forall|k: nat| k >= 1 implies #[trigger] (k * k) != len by {
                    if k > n {
                        lemma_square_monotone(n as nat, k);
                    }
                }
            }
            return Err(MatrixError::NotPerfectSquare);
        }
        let mut out: Vec<Vec<T>> = Vec::new();
        let mut i: usize = 0;
        let mut k: usize = 0;
        while i < n
            invariant
                n * n == len,
                len == vec@.len(),
                1 <= n,
                i <= n,
                k == i * n,
                out@.len() == i,
                forall|a: int|
                    0 <= a < i ==> #[trigger] out@[a]@.len() == n && out@[a]@ == vec@.subrange(
                        a * n,
                        a * n + n,
                    ),
            decreases n - i,
        {
            proof {
                assert(i * n + n <= n * n) by (nonlinear_arith)
                    requires
                        i < n,
                ;
            }
            let mut row: Vec<T> = Vec::new();
            let mut j: usize = 0;
            while j < n
                invariant
                    n * n == len,
                    len == vec@.len(),
                    i < n,
                    j <= n,
                    k == i * n + j,
                    i * n + n <= len,
                    row@ == vec@.subrange(i * n, k as int),
                decreases n - j,
            {
                row.push(vec[k]);
                j = j + 1;
                k = k + 1;
                proof {
                    assert(row@ =~= vec@.subrange(i * n, k as int));
                }
            }
            out.push(row);
            proof {
                assert((i + 1) * n == i * n + n) by (nonlinear_arith);
            }
            i = i + 1;
        }
        proof {
            let g = out@.map_values(|v: Vec<T>| v@);
            assert(g[0].len() == n);
            assert forall|a: int| 0 <= a < g.len() implies #[trigger] g[a].len() == g[0].len() by {
                assert(g[a] == out@[a]@);
            }
        }
        let m = Matrix { rows: out };
        proof {
            assert forall|a: int| 0 <= a < n implies #[trigger] m@[a] == chunked(vec@, n as nat)[a] by {
                assert(m@[a] == out@[a]@);
            }
            assert(m@ =~= chunked(vec@, n as nat));
        }
        Ok(m)
    }

    /// The matrix with rows and columns exchanged.
    pub fn transpose(&self) -> (r: Self)
        ensures
            r@ == transposed(self@),
    {
        proof {
            use_type_invariant(self);
        }
        let nr = self.nrows();
        let nc = self.ncols();
        let mut out: Vec<Vec<T>> = Vec::new();
        let mut j: usize = 0;
        while j < nc
            invariant
                nr == self@.len(),
                nc == self@[0].len(),
                is_grid(self@),
                j <= nc,
                out@.len() == j,
                forall|b: int| 0 <= b < j ==> #[trigger] out@[b]@ == transposed(self@)[b],
            decreases nc - j,
        {
            let mut row: Vec<T> = Vec::new();
            let mut i: usize = 0;
            while i < nr
                invariant
                    nr == self@.len(),
                    nc == self@[0].len(),
                    is_grid(self@),
                    j < nc,
                    i <= nr,
                    row@ == transposed(self@)[j as int].subrange(0, i as int),
                decreases nr - i,
            {
                assert(self@[i as int].len() == nc);
                row.push(self.get(i, j));
                i = i + 1;
                proof {
                    assert(row@ =~= transposed(self@)[j as int].subrange(0, i as int));
                }
            }
            proof {
                assert(row@ =~= transposed(self@)[j as int]);
            }
            out.push(row);
            j = j + 1;
        }
        let m = Matrix { rows: out };
        proof {
            assert(m@ =~= transposed(self@));
        }
        m
    }

    /// The shape of the product `self * other`; `ShapeMismatch` when the columns of
    /// `self` are not as many as the rows of `other`.
    pub fn mul_shape(&self, other: &Matrix<T>) -> (r: Result<(usize, usize), MatrixError>)
        ensures
            r == if self@[0].len() == other@.len() {
                Ok::<(usize, usize), MatrixError>((self@.len() as usize, other@[0].len() as usize))
            } else {
                Err(MatrixError::ShapeMismatch)
            },
    {
        if self.ncols() != other.nrows() {
            return Err(MatrixError::ShapeMismatch);
        }
        Ok((self.nrows(), other.ncols()))
    }
}

/// The transpose of a matrix's transpose is the matrix itself.
pub proof fn lemma_transpose_involutive<T>(g: Seq<Seq<T>>)
    requires
        is_grid(g),
    ensures
        is_grid(transposed(g)),
        transposed(transposed(g)) == g,
{
    let t = transposed(g);
    assert(t.len() == g[0].len());
    assert forall|i: int| 0 <= i < g.len() implies #[trigger] transposed(t)[i] == g[i] by {
        assert(transposed(t)[i] =~= g[i]);
    }
    assert(transposed(t) =~= g);
}

} // verus!
