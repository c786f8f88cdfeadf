//! Correlation kernels: small odd-sized matrices of rational weights.
//!
//! Every weight is an integer numerator over one positive divisor shared by
//! the whole kernel, so a box blur is nine ones over nine and a binomial blur
//! is `1 2 1 / 2 4 2 / 1 2 1` over sixteen. Weighted sums are therefore exact
//! and the final rounding never depends on accumulated error.
use crate::error::ErrorKind;
use vstd::arithmetic::div_mod::lemma_fundamental_div_mod_converse;
use vstd::prelude::*;

verus! {

/// Mathematical content of a [`Kernel`].
pub struct KernelView {
    /// Number of columns.
    pub width: nat,
    /// Number of rows.
    pub height: nat,
    /// Weight numerators, row by row.
    pub weights: Seq<int>,
    /// Common denominator of all weights.
    pub divisor: int,
    /// Column of the cell that is laid over the pixel being computed.
    pub anchor_x: nat,
    /// Row of the cell that is laid over the pixel being computed.
    pub anchor_y: nat,
}

impl KernelView {
    /// Odd dimensions, one numerator per cell, a positive divisor and an
    /// anchor inside the matrix.
    pub open spec fn wf(self) -> bool {
        &&& self.width % 2 == 1
        &&& self.height % 2 == 1
        &&& self.weights.len() == self.width * self.height
        &&& self.divisor >= 1
        &&& self.anchor_x < self.width
        &&& self.anchor_y < self.height
    }

    /// Whether the anchor is the geometric center of the matrix.
    pub open spec fn centered(self) -> bool {
        &&& self.anchor_x == self.width / 2
        &&& self.anchor_y == self.height / 2
    }

    /// Numerator of the weight in row `i`, column `j`.
    pub open spec fn weight(self, i: int, j: int) -> int {
        self.weights[i * self.width + j]
    }

    /// Whether every numerator fits 32 signed bits and the divisor 32
    /// unsigned bits, as the fields of a [`Kernel`] demand.
    pub open spec fn fits(self) -> bool {
        &&& 0 <= self.divisor <= u32::MAX
        &&& forall|t: int|
            0 <= t < self.weights.len() ==> i32::MIN <= #[trigger] self.weights[t] <= i32::MAX
    }

    /// The same kernel with every weight multiplied by `numer / denom`:
    /// numerators are multiplied by `numer`, the divisor by `denom`.
    pub open spec fn scaled(self, numer: int, denom: int) -> KernelView
        recommends
            denom >= 1,
    {
        KernelView {
            weights: Seq::new(self.weights.len(), |t: int| numer * self.weights[t]),
            divisor: self.divisor * denom,
            ..self
        }
    }
}

/// The rows of a nested vector as a sequence of sequences.
pub open spec fn matrix_of(rows: &Vec<Vec<i32>>) -> Seq<Seq<i32>> {
    rows@.map_values(|row: Vec<i32>| row@)
}

/// A weight matrix that can become a kernel: an odd number of rows, all of the
/// same odd length.
pub open spec fn is_kernel_matrix(rows: Seq<Seq<i32>>) -> bool {
    &&& rows.len() % 2 == 1
    &&& rows[0].len() % 2 == 1
    &&& forall|i: int| 0 <= i < rows.len() ==> (#[trigger] rows[i]).len() == rows[0].len()
}

/// Entry `t` of a rectangular matrix read row by row.
pub open spec fn cell(rows: Seq<Seq<i32>>, t: int) -> int {
    let width: int = rows[0].len() as int;
    rows[t / width][t % width] as int
}

/// The centered kernel that a weight matrix and a divisor describe.
pub open spec fn kernel_of(rows: Seq<Seq<i32>>, divisor: int) -> KernelView {
    let width: nat = rows[0].len();
    let height: nat = rows.len();
    KernelView {
        width,
        height,
        weights: Seq::new(width * height, |t: int| cell(rows, t)),
        divisor,
        anchor_x: width / 2,
        anchor_y: height / 2,
    }
}

/// Cell `(i, j)` of a kernel built from a matrix is entry `j` of row `i`.
pub proof fn lemma_kernel_of_weight(rows: Seq<Seq<i32>>, divisor: int, i: int, j: int)
    requires
        is_kernel_matrix(rows),
        0 <= i < rows.len(),
        0 <= j < rows[0].len(),
    ensures
        kernel_of(rows, divisor).weight(i, j) == rows[i][j],
{
    let width: int = rows[0].len() as int;
    let height: int = rows.len() as int;
    assert(0 <= i * width && i * width + width <= height * width) by (nonlinear_arith)
        requires
            0 <= i < height,
            0 <= width,
    ;
    assert(height * width == width * height) by (nonlinear_arith);
    lemma_fundamental_div_mod_converse(i * width + j, width, i, j);
}

/// A small matrix of rational weights with an anchor cell.
///
/// The fields are public so that a kernel can be assembled freely; whether the
/// parts fit together is what [`Kernel::is_valid`] reports and what
/// [`Kernel::new`] guarantees.
#[derive(Clone, Debug, PartialEq, Eq)]
pub struct Kernel {
    /// Number of columns.
    pub width: usize,
    /// Number of rows.
    pub height: usize,
    /// Weight numerators, row by row.
    pub weights: Vec<i32>,
    /// Common denominator of all weights.
    pub divisor: u32,
    /// Column of the anchor cell.
    pub anchor_x: usize,
    /// Row of the anchor cell.
    pub anchor_y: usize,
}

impl View for Kernel {
    type V = KernelView;

    open spec fn view(&self) -> KernelView {
        KernelView {
            width: self.width as nat,
            height: self.height as nat,
            weights: self.weights@.map_values(|w: i32| w as int),
            divisor: self.divisor as int,
            anchor_x: self.anchor_x as nat,
            anchor_y: self.anchor_y as nat,
        }
    }
}

impl Kernel {
    /// Builds a centered kernel from the rows of a weight matrix and the
    /// divisor that all weights share.
    ///
    /// Fails with [`ErrorKind::InvalidKernel`] exactly when the matrix is
    /// empty, ragged or has an even dimension, or when the divisor is zero.
    #[verifier::loop_isolation(false)]
    pub fn new(rows: &Vec<Vec<i32>>, divisor: u32) -> (made: Result<Kernel, ErrorKind>)
        ensures
            made is Ok <==> is_kernel_matrix(matrix_of(rows)) && divisor >= 1,
            made matches Ok(kernel) ==> {
                &&& kernel@ == kernel_of(matrix_of(rows), divisor as int)
                &&& kernel@.wf()
                &&& kernel@.centered()
                &&& forall|i: int, j: int|
                    0 <= i < kernel@.height && 0 <= j < kernel@.width ==> #[trigger] kernel@.weight(i, j)
                        == matrix_of(rows)[i][j]
            },
            made matches Err(e) ==> e is InvalidKernel,
    {
        let ghost matrix: Seq<Seq<i32>> = matrix_of(rows);
        let height: usize = rows.len();
        if divisor == 0 || height % 2 != 1 {
            return Err(ErrorKind::InvalidKernel);
        }
        let width: usize = rows[0].len();
        assert(matrix[0] == rows@[0]@);
        if width % 2 != 1 {
            return Err(ErrorKind::InvalidKernel);
        }
        let mut weights: Vec<i32> = Vec::new();
        let mut i: usize = 0;
        while i < height
            invariant
                0 <= i <= height,
                weights@.len() == i * width,
                forall|r: int| 0 <= r < i ==> (#[trigger] matrix[r]).len() == width,
                forall|t: int| 0 <= t < weights@.len() ==> #[trigger] weights@[t] == cell(matrix, t),
            decreases height - i,
        {
            let row: &Vec<i32> = &rows[i];
            assert(matrix[i as int] == row@);
            if row.len() != width {
                return Err(ErrorKind::InvalidKernel);
            }
            let mut j: usize = 0;
            while j < width
                invariant
                    0 <= j <= width,
                    weights@.len() == i * width + j,
                    forall|t: int| 0 <= t < weights@.len() ==> #[trigger] weights@[t] == cell(matrix, t),
                decreases width - j,
            {
                proof {
                    lemma_fundamental_div_mod_converse(i * width + j, width as int, i as int, j as int);
                }
                weights.push(row[j]);
                j += 1;
            }
            i += 1;
            assert(weights@.len() == i * width) by (nonlinear_arith)
                requires
                    weights@.len() == (i - 1) * width + width,
            ;
        }
        let kernel = Kernel { width, height, weights, divisor, anchor_x: width / 2, anchor_y: height / 2 };
        let ghost target: KernelView = kernel_of(matrix, divisor as int);
        assert(kernel@.weights =~= target.weights) by {
            assert(height * width == width * height) by (nonlinear_arith);
            assert(kernel@.weights.len() == weights@.len());
            assert forall|t: int| 0 <= t < weights@.len() implies kernel@.weights[t] == target.weights[t] by {
                assert(weights@[t] == cell(matrix, t));
            }
        }
        assert forall|i: int, j: int| 0 <= i < height && 0 <= j < width implies #[trigger] kernel@.weight(i, j)
            == matrix[i][j] by {
            lemma_kernel_of_weight(matrix, divisor as int, i, j);
        }
        Ok(kernel)
    }

    /// The kernel with every weight multiplied by `numer / denom`.
    ///
    /// Returns `None` exactly when a scaled numerator or the scaled divisor
    /// does not fit its field.
    #[verifier::loop_isolation(false)]
    pub fn scaled(&self, numer: i32, denom: u32) -> (made: Option<Kernel>)
        ensures
            made is Some <==> self@.scaled(numer as int, denom as int).fits(),
            made matches Some(kernel) ==> kernel@ == self@.scaled(numer as int, denom as int),
    {
        let ghost target: KernelView = self@.scaled(numer as int, denom as int);
        let divisor: u32 = match self.divisor.checked_mul(denom) {
            Some(d) => d,
            None => {
                return None;
            },
        };
        let mut weights: Vec<i32> = Vec::new();
        let mut t: usize = 0;
        while t < self.weights.len()
            invariant
                0 <= t <= self.weights@.len(),
                weights@.len() == t,
                forall|n: int| 0 <= n < t ==> #[trigger] weights@[n] == target.weights[n],
            decreases self.weights@.len() - t,
        {
            match self.weights[t].checked_mul(numer) {
                Some(w) => {
                    assert(w == numer * self.weights@[t as int]) by (nonlinear_arith)
                        requires
                            w == self.weights@[t as int] * numer,
                    ;
                    weights.push(w);
                },
                None => {
                    assert(target.weights[t as int] == numer * self.weights@[t as int]);
                    assert(numer * self.weights@[t as int] == self.weights@[t as int] * numer)
                        by (nonlinear_arith);
                    return None;
                },
            }
            t += 1;
        }
        let kernel = Kernel {
            width: self.width,
            height: self.height,
            weights,
            divisor,
            anchor_x: self.anchor_x,
            anchor_y: self.anchor_y,
        };
        assert(kernel@.weights =~= target.weights);
        Some(kernel)
    }

    /// Whether the parts of the kernel fit together.
    pub fn is_valid(&self) -> (valid: bool)
        ensures
            valid == self@.wf(),
    {
        if self.width % 2 != 1 || self.height % 2 != 1 || self.divisor == 0 {
            return false;
        }
        if self.anchor_x >= self.width || self.anchor_y >= self.height {
            return false;
        }
        let held: usize = self.weights.len();
        assert(self@.weights.len() == held);
        match self.width.checked_mul(self.height) {
            Some(cells) => held == cells,
            None => false,
        }
    }
}

} // verus!
