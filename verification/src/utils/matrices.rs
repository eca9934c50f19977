//! Matrices of a fixed shape over any machine number.

use vstd::prelude::*;
use crate::numeric::{filled, truncated_quotient, Numeric};
use crate::utils::flat_index::{lemma_join, lemma_split};

verus! {

/// The numbers that a matrix's entries can be made of.
pub trait Scalar: Numeric {

}

impl Scalar for i8 {

}

impl Scalar for i16 {

}

impl Scalar for i32 {

}

impl Scalar for i64 {

}

impl Scalar for i128 {

}

impl Scalar for u8 {

}

impl Scalar for u16 {

}

impl Scalar for u32 {

}

impl Scalar for u64 {

}

impl Scalar for u128 {

}

impl Scalar for usize {

}

/// A matrix of `ROWS` by `COLS` entries, held row after row.
#[derive(Debug)]
pub struct Matrix<S: Scalar, const ROWS: usize, const COLS: usize> {
    data: Vec<S>,
}

pub type Vector<S, const LENGTH: usize> = ColumnVector<S, LENGTH>;

pub type RowVector<S, const COLS: usize> = Matrix<S, 1, COLS>;

pub type ColumnVector<S, const ROWS: usize> = Matrix<S, ROWS, 1>;

pub type SquareMatrix<S, const DIMS: usize> = Matrix<S, DIMS, DIMS>;

impl<S: Scalar, const ROWS: usize, const COLS: usize> Clone for Matrix<S, ROWS, COLS> {
    /// A matrix with the same entries.
    fn clone(&self) -> (m: Self)
        ensures
            m@ == self@,
            m.wf(),
    {
        proof {
            use_type_invariant(self);
        }
        Matrix { data: copied(&self.data) }
    }
}

/// A vector with the same items.
fn copied<S: Copy>(items: &Vec<S>) -> (copy: Vec<S>)
    ensures
        copy@ == items@,
{
    let n: usize = items.len();
    let mut copy: Vec<S> = Vec::new();
    let mut k: usize = 0;
    while k < n
        invariant
            k <= n,
            n == items@.len(),
            copy@ == items@.subrange(0, k as int),
        decreases n - k,
    {
        copy.push(items[k]);
        assert(copy@ =~= items@.subrange(0, k + 1));
        k = k + 1;
    }
    assert(copy@ =~= items@);
    copy
}

impl<S: Scalar, const ROWS: usize, const COLS: usize> View for Matrix<S, ROWS, COLS> {
    type V = Seq<S>;

    /// The entries row after row.
    closed spec fn view(&self) -> Seq<S> {
        self.data@
    }
}

impl<S: Scalar, const ROWS: usize, const COLS: usize> Matrix<S, ROWS, COLS> {
    /// What holds of every matrix: it has `ROWS * COLS` entries.
    pub open spec fn wf(&self) -> bool {
        self@.len() == ROWS * COLS
    }

    #[verifier::type_invariant]
    closed spec fn inv(&self) -> bool {
        self.wf()
    }

    /// The entry in row `i` and column `j`.
    pub open spec fn entry(&self, i: int, j: int) -> S {
        self@[i * COLS + j]
    }

    /// Whether every entry stands for `v`.
    pub open spec fn all_entries_are(&self, v: int) -> bool {
        forall|k: int| 0 <= k < self@.len() ==> (#[trigger] self@[k]).value() == v
    }

    /// Whether the number of entries of this shape fits in `usize`.
    pub open spec fn shape_fits() -> bool {
        ROWS * COLS <= usize::MAX
    }

    /// The matrix whose every entry is its type's default, which for a
    /// number is zero.
    pub fn new() -> (m: Self)
        requires
            Self::shape_fits(),
        ensures
            m.wf(),
            m.all_entries_are(0),
    {
        Matrix { data: filled(S::zero(), ROWS * COLS) }
    }

    pub fn zeros() -> (m: Self)
        requires
            Self::shape_fits(),
        ensures
            m.wf(),
            m.all_entries_are(0),
    {
        Matrix { data: filled(S::zero(), ROWS * COLS) }
    }

    pub fn ones() -> (m: Self)
        requires
            Self::shape_fits(),
        ensures
            m.wf(),
            m.all_entries_are(1),
    {
        Matrix { data: filled(S::one(), ROWS * COLS) }
    }

    pub fn fill(value: S) -> (m: Self)
        requires
            Self::shape_fits(),
        ensures
            m.wf(),
            forall|k: int| 0 <= k < m@.len() ==> #[trigger] m@[k] == value,
    {
        Matrix { data: filled(value, ROWS * COLS) }
    }

    /// The matrix with the given entries, row after row; the vector must
    /// hold `ROWS * COLS` of them.
    pub fn from_vec(data: &Vec<S>) -> (r: Result<Self, &'static str>)
        ensures
            data@.len() == ROWS * COLS ==> r is Ok && r->Ok_0@ == data@ && r->Ok_0.wf(),
            data@.len() != ROWS * COLS ==> r is Err && r->Err_0@
                == "vec length does not match matrix dimensions"@,
    {
        let given: usize = data.len();
        let expected: usize = match ROWS.checked_mul(COLS) {
            Some(n) => n,
            None => {
                return Err("vec length does not match matrix dimensions");
            },
        };
        if given != expected {
            return Err("vec length does not match matrix dimensions");
        }
        Ok(Matrix { data: copied(data) })
    }

    /// The matrix mirrored at its diagonal. It always succeeds.
    pub fn transpose(&self) -> (r: Result<Matrix<S, COLS, ROWS>, &'static str>)
        ensures
            r is Ok,
            r->Ok_0.wf(),
            forall|i: int, j: int|
                0 <= i < ROWS && 0 <= j < COLS ==> #[trigger] r->Ok_0.entry(j, i) == self.entry(
                    i,
                    j,
                ),
    {
        proof {
            use_type_invariant(self);
        }
        let mut data: Vec<S> = Vec::new();
        let n: usize = self.data.len();
        let mut j: usize = 0;
        while j < COLS
            invariant
                j <= COLS,
                self.wf(),
                n == ROWS * COLS,
                data@.len() == j * ROWS,
                forall|c: int, r: int|
                    0 <= c < j && 0 <= r < ROWS ==> #[trigger] data@[c * ROWS + r] == self@[r
                        * COLS + c],
            decreases COLS - j,
        {
            let mut i: usize = 0;
            while i < ROWS
                invariant
                    i <= ROWS,
                    j < COLS,
                    self.wf(),
                    n == ROWS * COLS,
                    data@.len() == j * ROWS + i,
                    forall|c: int, r: int|
                        0 <= c < j && 0 <= r < ROWS ==> #[trigger] data@[c * ROWS + r] == self@[r
                            * COLS + c],
                    forall|r: int|
                        0 <= r < i ==> #[trigger] data@[j * ROWS + r] == self@[r * COLS + j],
                decreases ROWS - i,
            {
                proof {
                    lemma_join(i as int, j as int, COLS as int, ROWS as int);
                    assert(COLS * ROWS == ROWS * COLS) by (nonlinear_arith);
                    assert(0 <= i * COLS <= i * COLS + j) by (nonlinear_arith);
                }
                let ghost before = data@;
                data.push(self.data[i * COLS + j]);
                proof {
                    assert forall|c: int, r: int| 0 <= c < j && 0 <= r < ROWS implies #[trigger] data@[c
                        * ROWS + r] == self@[r * COLS + c] by {
                        lemma_join(c, r, ROWS as int, j as int);
                        assert(c * ROWS + r < j * ROWS) by (nonlinear_arith)
                            requires
                                0 <= c < j,
                                0 <= r < ROWS,
                        ;
                        assert(data@[c * ROWS + r] == before[c * ROWS + r]);
                    }
                    assert forall|r: int| 0 <= r < i + 1 implies #[trigger] data@[j * ROWS + r]
                        == self@[r * COLS + j] by {
                        if r < i {
                            assert(data@[j * ROWS + r] == before[j * ROWS + r]);
                        }
                    }
                }
                i = i + 1;
            }
            assert((j + 1) * ROWS == j * ROWS + ROWS) by (nonlinear_arith);
            assert forall|c: int, r: int| 0 <= c < j + 1 && 0 <= r < ROWS implies #[trigger] data@[c
                * ROWS + r] == self@[r * COLS + c] by {
                if c == j {
                    assert(data@[j * ROWS + r] == self@[r * COLS + j]);
                }
            }
            j = j + 1;
        }
        assert(COLS * ROWS == ROWS * COLS) by (nonlinear_arith);
        let t = Matrix::<S, COLS, ROWS> { data };
        assert forall|i: int, j: int| 0 <= i < ROWS && 0 <= j < COLS implies #[trigger] t.entry(
            j,
            i,
        ) == self.entry(i, j) by {
            assert(t@[j * ROWS + i] == self@[i * COLS + j]);
        }
        Ok(t)
    }

    pub fn rows(&self) -> (n: usize)
        ensures
            n == ROWS,
    {
        ROWS
    }

    pub fn cols(&self) -> (n: usize)
        ensures
            n == COLS,
    {
        COLS
    }

    pub fn dims(&self) -> (d: (usize, usize))
        ensures
            d == (ROWS, COLS),
    {
        (ROWS, COLS)
    }

    /// Replaces the entry at the flat position `ij.0 * COLS + ij.1`.
    pub fn set(&mut self, ij: (usize, usize), value: S)
        requires
            ij.0 * COLS + ij.1 < ROWS * COLS,
        ensures
            final(self).wf(),
            final(self)@ == old(self)@.update(ij.0 * COLS + ij.1, value),
    {
        proof {
            use_type_invariant(&*self);
        }
        let n: usize = self.data.len();
        assert(0 <= ij.0 * COLS <= ij.0 * COLS + ij.1 < n) by (nonlinear_arith)
            requires
                ij.0 * COLS + ij.1 < n,
        ;
        self.data[ij.0 * COLS + ij.1] = value;
    }

    /// The entries row after row.
    pub fn as_vec(&self) -> (v: &Vec<S>)
        ensures
            v@ == self@,
            self.wf(),
    {
        proof {
            use_type_invariant(self);
        }
        &self.data
    }
}

impl<S: Scalar, const DIMS: usize> SquareMatrix<S, DIMS> {
    /// The matrix with one on the diagonal and zero elsewhere.
    pub fn identity() -> (m: Self)
        requires
            Self::shape_fits(),
        ensures
            m.wf(),
            forall|i: int, j: int|
                0 <= i < DIMS && 0 <= j < DIMS ==> (#[trigger] m.entry(i, j)).value() == (if i
                    == j {
                    1int
                } else {
                    0int
                }),
    {
        let mut data: Vec<S> = filled(S::zero(), DIMS * DIMS);
        let one = S::one();
        let n: usize = data.len();
        proof {
            assert forall|r: int, c: int| 0 <= r < DIMS && 0 <= c < DIMS implies (
            #[trigger] data@[r * DIMS + c]).value() == 0 by {
                lemma_join(r, c, DIMS as int, DIMS as int);
            }
        }
        let mut i: usize = 0;
        while i < DIMS
            invariant
                i <= DIMS,
                one.value() == 1,
                n == DIMS * DIMS,
                data@.len() == n,
                forall|r: int, c: int|
                    0 <= r < DIMS && 0 <= c < DIMS ==> (#[trigger] data@[r * DIMS + c]).value()
                        == (if r == c && r < i {
                        1int
                    } else {
                        0int
                    }),
            decreases DIMS - i,
        {
            proof {
                lemma_join(i as int, i as int, DIMS as int, DIMS as int);
                assert(0 <= i * DIMS <= i * DIMS + i) by (nonlinear_arith);
            }
            let ghost before = data@;
            data[i * DIMS + i] = one;
            proof {
                assert forall|r: int, c: int| 0 <= r < DIMS && 0 <= c < DIMS implies (
                #[trigger] data@[r * DIMS + c]).value() == (if r == c && r < i + 1 {
                    1int
                } else {
                    0int
                }) by {
                    lemma_join(r, c, DIMS as int, DIMS as int);
                    if r * DIMS + c != i * DIMS + i {
                        assert(data@[r * DIMS + c] == before[r * DIMS + c]);
                    }
                }
            }
            i = i + 1;
        }
        Matrix { data }
    }
}

impl<S: Scalar, const ROWS: usize, const COLS: usize> Matrix<S, ROWS, COLS> {
    /// Whether each entry of `self` is the sum of those of `a` and `b`.
    pub open spec fn is_sum_of(self, a: Self, b: Self) -> bool {
        &&& self.wf()
        &&& forall|k: int|
            0 <= k < ROWS * COLS ==> (#[trigger] self@[k]).value() == a@[k].value()
                + b@[k].value()
    }

    /// Whether each entry of `self` is that of `a` less that of `b`.
    pub open spec fn is_difference_of(self, a: Self, b: Self) -> bool {
        &&& self.wf()
        &&& forall|k: int|
            0 <= k < ROWS * COLS ==> (#[trigger] self@[k]).value() == a@[k].value()
                - b@[k].value()
    }

    /// Whether every sum of two entries fits the entry type.
    pub open spec fn sums_fit(self, rhs: Self) -> bool {
        forall|k: int|
            0 <= k < ROWS * COLS ==> S::representable(
                (#[trigger] self@[k]).value() + rhs@[k].value(),
            )
    }

    /// Whether every difference of two entries fits the entry type.
    pub open spec fn differences_fit(self, rhs: Self) -> bool {
        forall|k: int|
            0 <= k < ROWS * COLS ==> S::representable(
                (#[trigger] self@[k]).value() - rhs@[k].value(),
            )
    }
}

/// Two matrices with the same entries need not be one value, so the result
/// of `+` is stated by its entries, in the `ensures` of `add`.
impl<S: Scalar, const ROWS: usize, const COLS: usize> vstd::std_specs::ops::AddSpecImpl for Matrix<S, ROWS, COLS> {
    open spec fn obeys_add_spec() -> bool {
        false
    }

    open spec fn add_req(self, rhs: Self) -> bool {
        self.sums_fit(rhs)
    }

    open spec fn add_spec(self, rhs: Self) -> Self {
        choose|m: Self| m.is_sum_of(self, rhs)
    }
}

impl<S: Scalar, const ROWS: usize, const COLS: usize> core::ops::Add for Matrix<S, ROWS, COLS> {
    type Output = Self;

    /// The sum, entry by entry.
    fn add(self, rhs: Self) -> (r: Self)
        ensures
            r.is_sum_of(self, rhs),
    {
        proof {
            use_type_invariant(&self);
            use_type_invariant(&rhs);
        }
        let n: usize = self.data.len();
        let mut data: Vec<S> = Vec::new();
        let mut k: usize = 0;
        while k < n
            invariant
                k <= n,
                n == ROWS * COLS,
                self.wf(),
                rhs.wf(),
                self.sums_fit(rhs),
                data@.len() == k,
                forall|i: int|
                    0 <= i < k ==> (#[trigger] data@[i]).value() == self@[i].value()
                        + rhs@[i].value(),
            decreases n - k,
        {
            assert(S::representable(self@[k as int].value() + rhs@[k as int].value()));
            data.push(self.data[k].plus(rhs.data[k]));
            k = k + 1;
        }
        Matrix { data }
    }
}

/// The result of `-` is stated by its entries, in the `ensures` of `sub`.
impl<S: Scalar, const ROWS: usize, const COLS: usize> vstd::std_specs::ops::SubSpecImpl for Matrix<S, ROWS, COLS> {
    open spec fn obeys_sub_spec() -> bool {
        false
    }

    open spec fn sub_req(self, rhs: Self) -> bool {
        self.differences_fit(rhs)
    }

    open spec fn sub_spec(self, rhs: Self) -> Self {
        choose|m: Self| m.is_difference_of(self, rhs)
    }
}

impl<S: Scalar, const ROWS: usize, const COLS: usize> core::ops::Sub for Matrix<S, ROWS, COLS> {
    type Output = Self;

    /// The difference, entry by entry.
    fn sub(self, rhs: Self) -> (r: Self)
        ensures
            r.is_difference_of(self, rhs),
    {
        proof {
            use_type_invariant(&self);
            use_type_invariant(&rhs);
        }
        let n: usize = self.data.len();
        let mut data: Vec<S> = Vec::new();
        let mut k: usize = 0;
        while k < n
            invariant
                k <= n,
                n == ROWS * COLS,
                self.wf(),
                rhs.wf(),
                self.differences_fit(rhs),
                data@.len() == k,
                forall|i: int|
                    0 <= i < k ==> (#[trigger] data@[i]).value() == self@[i].value()
                        - rhs@[i].value(),
            decreases n - k,
        {
            assert(S::representable(self@[k as int].value() - rhs@[k as int].value()));
            data.push(self.data[k].minus(rhs.data[k]));
            k = k + 1;
        }
        Matrix { data }
    }
}

/// The sum of the first `n` products of row `i` of `a` with column `j` of
/// `b`.
pub open spec fn dot<S: Scalar, const ROWS: usize, const COMMON: usize, const COLS: usize>(
    a: Matrix<S, ROWS, COMMON>,
    b: Matrix<S, COMMON, COLS>,
    i: int,
    j: int,
    n: nat,
) -> int
    decreases n,
{
    if n == 0 {
        0
    } else {
        dot(a, b, i, j, (n - 1) as nat) + a.entry(i, n - 1).value() * b.entry(n - 1, j).value()
    }
}

/// Whether the `k`-th product of row `i` with column `j`, and the sum of the
/// products up to it, fit the entry type.
pub open spec fn term_fits<S: Scalar, const ROWS: usize, const COMMON: usize, const COLS: usize>(
    a: Matrix<S, ROWS, COMMON>,
    b: Matrix<S, COMMON, COLS>,
    i: int,
    j: int,
    k: int,
) -> bool {
    &&& S::representable(a.entry(i, k).value() * b.entry(k, j).value())
    &&& S::representable(dot(a, b, i, j, (k + 1) as nat))
}

/// Whether every product and every running sum of the matrix product fits
/// the entry type.
pub open spec fn products_fit<
    S: Scalar,
    const ROWS: usize,
    const COMMON: usize,
    const COLS: usize,
>(a: Matrix<S, ROWS, COMMON>, b: Matrix<S, COMMON, COLS>) -> bool {
    forall|i: int, j: int, k: int|
        0 <= i < ROWS && 0 <= j < COLS && 0 <= k < COMMON ==> #[trigger] term_fits(a, b, i, j, k)
}

/// Whether `m` is the matrix product of `a` and `b`.
pub open spec fn is_product_of<
    S: Scalar,
    const ROWS: usize,
    const COMMON: usize,
    const COLS: usize,
>(m: Matrix<S, ROWS, COLS>, a: Matrix<S, ROWS, COMMON>, b: Matrix<S, COMMON, COLS>) -> bool {
    &&& m.wf()
    &&& forall|i: int, j: int|
        0 <= i < ROWS && 0 <= j < COLS ==> (#[trigger] m.entry(i, j)).value() == dot(
            a,
            b,
            i,
            j,
            COMMON as nat,
        )
}

/// The result of `*` is stated by its entries, in the `ensures` of `mul`.
impl<
    S: Scalar,
    const ROWS: usize,
    const COMMON: usize,
    const COLS: usize,
> vstd::std_specs::ops::MulSpecImpl<Matrix<S, COMMON, COLS>> for Matrix<S, ROWS, COMMON> {
    open spec fn obeys_mul_spec() -> bool {
        false
    }

    open spec fn mul_req(self, rhs: Matrix<S, COMMON, COLS>) -> bool {
        products_fit(self, rhs)
    }

    open spec fn mul_spec(self, rhs: Matrix<S, COMMON, COLS>) -> Matrix<S, ROWS, COLS> {
        choose|m: Matrix<S, ROWS, COLS>| is_product_of(m, self, rhs)
    }
}

impl<
    S: Scalar,
    const ROWS: usize,
    const COMMON: usize,
    const COLS: usize,
> core::ops::Mul<Matrix<S, COMMON, COLS>> for Matrix<S, ROWS, COMMON> {
    type Output = Matrix<S, ROWS, COLS>;

    /// The matrix product: entry `(i, j)` is the sum over `k` of the
    /// products of `self`'s `(i, k)` with `rhs`'s `(k, j)`.
    fn mul(self, rhs: Matrix<S, COMMON, COLS>) -> (r: Matrix<S, ROWS, COLS>)
        ensures
            is_product_of(r, self, rhs),
    {
        proof {
            use_type_invariant(&self);
            use_type_invariant(&rhs);
        }
        let left: usize = self.data.len();
        let right: usize = rhs.data.len();
        let mut result: Vec<S> = Vec::new();
        let mut i: usize = 0;
        while i < ROWS
            invariant
                i <= ROWS,
                left == ROWS * COMMON,
                right == COMMON * COLS,
                self.wf(),
                rhs.wf(),
                products_fit(self, rhs),
                result@.len() == i * COLS,
                forall|r: int, c: int|
                    0 <= r < i && 0 <= c < COLS ==> (#[trigger] result@[r * COLS + c]).value()
                        == dot(self, rhs, r, c, COMMON as nat),
            decreases ROWS - i,
        {
            let mut j: usize = 0;
            while j < COLS
                invariant
                    i < ROWS,
                    j <= COLS,
                    left == ROWS * COMMON,
                    right == COMMON * COLS,
                    self.wf(),
                    rhs.wf(),
                    products_fit(self, rhs),
                    result@.len() == i * COLS + j,
                    forall|r: int, c: int|
                        0 <= r < i && 0 <= c < COLS ==> (#[trigger] result@[r * COLS + c]).value()
                            == dot(self, rhs, r, c, COMMON as nat),
                    forall|c: int|
                        0 <= c < j ==> (#[trigger] result@[i * COLS + c]).value() == dot(
                            self,
                            rhs,
                            i as int,
                            c,
                            COMMON as nat,
                        ),
                decreases COLS - j,
            {
                let mut acc = S::zero();
                let mut k: usize = 0;
                while k < COMMON
                    invariant
                        i < ROWS,
                        j < COLS,
                        k <= COMMON,
                        left == ROWS * COMMON,
                        right == COMMON * COLS,
                        self.wf(),
                        rhs.wf(),
                        products_fit(self, rhs),
                        acc.value() == dot(self, rhs, i as int, j as int, k as nat),
                    decreases COMMON - k,
                {
                    proof {
                        lemma_join(i as int, k as int, COMMON as int, ROWS as int);
                        lemma_join(k as int, j as int, COLS as int, COMMON as int);
                        assert(COMMON * ROWS == ROWS * COMMON && COLS * COMMON == COMMON * COLS)
                            by (nonlinear_arith);
                        assert(0 <= i * COMMON && 0 <= k * COLS) by (nonlinear_arith);
                        assert(term_fits(self, rhs, i as int, j as int, k as int));
                    }
                    let product = self.data[i * COMMON + k].times(rhs.data[k * COLS + j]);
                    acc = acc.plus(product);
                    k = k + 1;
                }
                let ghost before = result@;
                result.push(acc);
                proof {
                    assert forall|r: int, c: int| 0 <= r < i && 0 <= c < COLS implies (
                    #[trigger] result@[r * COLS + c]).value() == dot(
                        self,
                        rhs,
                        r,
                        c,
                        COMMON as nat,
                    ) by {
                        lemma_join(r, c, COLS as int, i as int);
                        assert(r * COLS + c < i * COLS) by (nonlinear_arith)
                            requires
                                0 <= r < i,
                                0 <= c < COLS,
                        ;
                        assert(result@[r * COLS + c] == before[r * COLS + c]);
                    }
                    assert forall|c: int| 0 <= c < j + 1 implies (#[trigger] result@[i * COLS
                        + c]).value() == dot(self, rhs, i as int, c, COMMON as nat) by {
                        if c < j {
                            assert(result@[i * COLS + c] == before[i * COLS + c]);
                        }
                    }
                }
                j = j + 1;
            }
            assert((i + 1) * COLS == i * COLS + COLS) by (nonlinear_arith);
            assert forall|r: int, c: int| 0 <= r < i + 1 && 0 <= c < COLS implies (
            #[trigger] result@[r * COLS + c]).value() == dot(self, rhs, r, c, COMMON as nat) by {
                if r == i {
                    assert(result@[i * COLS + c].value() == dot(
                        self,
                        rhs,
                        i as int,
                        c,
                        COMMON as nat,
                    ));
                }
            }
            i = i + 1;
        }
        let m = Matrix::<S, ROWS, COLS> { data: result };
        assert forall|r: int, c: int| 0 <= r < ROWS && 0 <= c < COLS implies (#[trigger] m.entry(
            r,
            c,
        )).value() == dot(self, rhs, r, c, COMMON as nat) by {
            assert(m@[r * COLS + c] == result@[r * COLS + c]);
        }
        m
    }
}

impl<S: Scalar, const ROWS: usize, const COLS: usize> vstd::std_specs::core::IndexSpecImpl<(usize, usize)> for Matrix<S, ROWS, COLS> {
    /// The flat position `ij.0 * COLS + ij.1` must lie in the matrix.
    open spec fn index_req(&self, ij: &(usize, usize)) -> bool {
        ij.0 * COLS + ij.1 < ROWS * COLS
    }
}

impl<S: Scalar, const ROWS: usize, const COLS: usize> core::ops::Index<(usize, usize)> for Matrix<S, ROWS, COLS> {
    type Output = S;

    fn index(&self, ij: (usize, usize)) -> (r: &S)
        ensures
            *r == self.entry(ij.0 as int, ij.1 as int),
    {
        proof {
            use_type_invariant(self);
        }
        let n: usize = self.data.len();
        assert(0 <= ij.0 * COLS <= ij.0 * COLS + ij.1 < n) by (nonlinear_arith)
            requires
                ij.0 * COLS + ij.1 < n,
        ;
        &self.data[ij.0 * COLS + ij.1]
    }
}

/// The integers that the entries stand for, in the same order.
pub open spec fn entry_values<S: Scalar>(entries: Seq<S>) -> Seq<int> {
    Seq::new(entries.len(), |p: int| entries[p].value())
}

/// The factor by which row `r` is reduced at stage `i` of the elimination
/// on the `d` by `d` matrix `u`: its entry below the pivot over the pivot,
/// rounded towards zero.
pub open spec fn factor(u: Seq<int>, d: int, i: int, r: int) -> int {
    truncated_quotient(u[r * d + i], u[i * d + i])
}

/// The matrix after stage `i` of the elimination: every row below row `i`
/// loses its factor times row `i`, from column `i` on.
pub open spec fn eliminated(u: Seq<int>, d: int, i: int) -> Seq<int> {
    Seq::new(
        u.len(),
        |p: int|
            if p / d > i && p % d >= i {
                u[p] - factor(u, d, i, p / d) * u[i * d + p % d]
            } else {
                u[p]
            },
    )
}

/// The matrix after the first `n` stages of the elimination on `a`.
pub open spec fn reduced(a: Seq<int>, d: int, n: nat) -> Seq<int>
    decreases n,
{
    if n == 0 {
        a
    } else {
        eliminated(reduced(a, d, (n - 1) as nat), d, n - 1)
    }
}

/// The entry `(r, c)` of the lower factor of `a` once the stages before
/// `stages`, and of stage `stages` the rows before `rows`, are done: one
/// on the diagonal, below it the factor by which row `r` was reduced at
/// stage `c`, and zero where no factor has been set.
pub open spec fn lower_entry(a: Seq<int>, d: int, stages: int, rows: int, r: int, c: int) -> int {
    if r == c {
        1
    } else if r > c && (c < stages || (c == stages && r < rows)) {
        factor(reduced(a, d, c as nat), d, c, r)
    } else {
        0
    }
}

/// Whether stage `i` of the elimination on `u` stays inside the entry type:
/// the pivot is not zero, and every factor, every product of a factor with
/// an entry of the pivot row, and every reduced entry fits.
pub open spec fn stage_fits<S: Scalar>(u: Seq<int>, d: int, i: int) -> bool {
    forall|r: int, c: int|
        i < r < d && i <= c < d ==> {
            &&& u[i * d + i] != 0
            &&& S::representable(#[trigger] factor(u, d, i, r))
            &&& S::representable(factor(u, d, i, r) * #[trigger] u[i * d + c])
            &&& S::representable(u[r * d + c] - factor(u, d, i, r) * u[i * d + c])
        }
}

/// Whether every stage of the elimination on `a` stays inside the entry
/// type.
pub open spec fn elimination_fits<S: Scalar>(a: Seq<int>, d: int) -> bool {
    forall|i: int| 0 <= i < d ==> stage_fits::<S>(#[trigger] reduced(a, d, i as nat), d, i)
}

/// A square matrix of coefficients beside a column of constants.
pub struct AugmentedMatrix<S: Scalar, const DIMS: usize> {
    a: SquareMatrix<S, DIMS>,
    b: Vector<S, DIMS>,
}

impl<S: Scalar, const DIMS: usize> AugmentedMatrix<S, DIMS> {
    /// The entries of the square matrix, row after row.
    pub closed spec fn coefficients(&self) -> Seq<S> {
        self.a@
    }

    /// The entries of the column.
    pub closed spec fn constants(&self) -> Seq<S> {
        self.b@
    }

    /// Puts a copy of `a` beside a copy of `b`.
    pub fn assemble(a: &SquareMatrix<S, DIMS>, b: &Vector<S, DIMS>) -> (m: Self)
        ensures
            m.coefficients() == a@,
            m.constants() == b@,
            m.coefficients().len() == DIMS * DIMS,
            m.constants().len() == DIMS * 1,
    {
        AugmentedMatrix { a: a.clone(), b: b.clone() }
    }

    /// Splits the square matrix into a lower and an upper factor by
    /// elimination without pivoting, stage by stage and row by row.
    ///
    /// The upper factor is the matrix after all stages; the lower factor
    /// holds one on the diagonal and, below it, the factors by which the
    /// rows were reduced. Division rounds towards zero, so over the integers
    /// the entries below the diagonal of the upper factor are the remainders
    /// that the division left.
    pub fn lu_decomposition(&self) -> (r: (SquareMatrix<S, DIMS>, SquareMatrix<S, DIMS>))
        requires
            elimination_fits::<S>(entry_values(self.coefficients()), DIMS as int),
        ensures
            r.0.wf(),
            r.1.wf(),
            entry_values(r.1@) == reduced(
                entry_values(self.coefficients()),
                DIMS as int,
                DIMS as nat,
            ),
            forall|i: int, j: int|
                0 <= i < DIMS && 0 <= j < DIMS ==> (#[trigger] r.0.entry(i, j)).value()
                    == lower_entry(
                    entry_values(self.coefficients()),
                    DIMS as int,
                    DIMS as int,
                    0,
                    i,
                    j,
                ),
    {
        proof {
            use_type_invariant(&self.a);
        }
        let n: usize = self.a.data.len();
        let identity = SquareMatrix::<S, DIMS>::identity();
        let mut l: Vec<S> = copied(identity.as_vec());
        let mut u: Vec<S> = copied(&self.a.data);
        let ghost a = entry_values(self.a@);
        let ghost d = DIMS as int;
        assert(entry_values(u@) =~= reduced(a, d, 0));
        assert forall|r: int, c: int| 0 <= r < DIMS && 0 <= c < DIMS implies (#[trigger] l@[r
            * DIMS + c]).value() == lower_entry(a, d, 0, 0, r, c) by {
            lemma_join(r, c, d, d);
            assert(l@[r * DIMS + c] == identity.entry(r, c));
        }
        let mut i: usize = 0;
        while i < DIMS
            invariant
                i <= DIMS,
                d == DIMS,
                n == DIMS * DIMS,
                u@.len() == n,
                l@.len() == n,
                a.len() == n,
                elimination_fits::<S>(a, d),
                entry_values(u@) == reduced(a, d, i as nat),
                forall|r: int, c: int|
                    0 <= r < DIMS && 0 <= c < DIMS ==> (#[trigger] l@[r * DIMS + c]).value()
                        == lower_entry(a, d, i as int, 0, r, c),
            decreases DIMS - i,
        {
            let ghost stage = i as int;
            let ghost s = reduced(a, d, stage as nat);
            assert(stage_fits::<S>(s, d, stage));
            assert forall|r: int, c: int| 0 <= r < DIMS && 0 <= c < DIMS implies (#[trigger] u@[r
                * DIMS + c]).value() == s[r * d + c] by {
                lemma_join(r, c, d, d);
                assert(entry_values(u@)[r * d + c] == u@[r * d + c].value());
            }
            let mut j: usize = i + 1;
            while j < DIMS
                invariant
                    i < DIMS,
                    i < j <= DIMS,
                    d == DIMS,
                    n == DIMS * DIMS,
                    u@.len() == n,
                    l@.len() == n,
                    s.len() == n,
                    s == reduced(a, d, i as nat),
                    stage_fits::<S>(s, d, i as int),
                    forall|r: int, c: int|
                        0 <= r < DIMS && 0 <= c < DIMS ==> (#[trigger] u@[r * DIMS + c]).value()
                            == (if i < r < j && c >= i {
                            s[r * d + c] - factor(s, d, i as int, r) * s[i * d + c]
                        } else {
                            s[r * d + c]
                        }),
                    forall|r: int, c: int|
                        0 <= r < DIMS && 0 <= c < DIMS ==> (#[trigger] l@[r * DIMS + c]).value()
                            == lower_entry(a, d, i as int, j as int, r, c),
                decreases DIMS - j,
            {
                proof {
                    lemma_join(j as int, i as int, d, d);
                    lemma_join(i as int, i as int, d, d);
                    assert(0 <= j * DIMS && 0 <= i * DIMS) by (nonlinear_arith);
                    assert(u@[j * DIMS + i].value() == s[j * d + i]);
                    assert(u@[i * DIMS + i].value() == s[i * d + i]);
                    assert(S::representable(factor(s, d, i as int, j as int)));
                    assert(s[i * d + i] != 0);
                }
                let f = u[j * DIMS + i].divided_by(u[i * DIMS + i]);
                let ghost l_before = l@;
                l[j * DIMS + i] = f;
                proof {
                    assert forall|r: int, c: int| 0 <= r < DIMS && 0 <= c < DIMS implies (
                    #[trigger] l@[r * DIMS + c]).value() == lower_entry(
                        a,
                        d,
                        i as int,
                        j + 1,
                        r,
                        c,
                    ) by {
                        lemma_join(r, c, d, d);
                        if r * DIMS + c != j * DIMS + i {
                            assert(l@[r * DIMS + c] == l_before[r * DIMS + c]);
                        }
                    }
                }
                let mut k: usize = i;
                while k < DIMS
                    invariant
                        i < j < DIMS,
                        i <= k <= DIMS,
                        d == DIMS,
                        n == DIMS * DIMS,
                        u@.len() == n,
                        s.len() == n,
                        stage_fits::<S>(s, d, i as int),
                        f.value() == factor(s, d, i as int, j as int),
                        forall|r: int, c: int|
                            0 <= r < DIMS && 0 <= c < DIMS ==> (#[trigger] u@[r * DIMS
                                + c]).value() == (if (i < r < j && c >= i) || (r == j && i <= c
                                < k) {
                                s[r * d + c] - factor(s, d, i as int, r) * s[i * d + c]
                            } else {
                                s[r * d + c]
                            }),
                    decreases DIMS - k,
                {
                    proof {
                        lemma_join(j as int, k as int, d, d);
                        lemma_join(i as int, k as int, d, d);
                        assert(0 <= j * DIMS && 0 <= i * DIMS) by (nonlinear_arith);
                        assert(u@[j * DIMS + k].value() == s[j * d + k]);
                        assert(u@[i * DIMS + k].value() == s[i * d + k]);
                        assert(S::representable(factor(s, d, i as int, j as int) * s[i * d + k]));
                        assert(S::representable(
                            s[j * d + k] - factor(s, d, i as int, j as int) * s[i * d + k],
                        ));
                    }
                    let product = f.times(u[i * DIMS + k]);
                    let reduced_entry = u[j * DIMS + k].minus(product);
                    let ghost u_before = u@;
                    u[j * DIMS + k] = reduced_entry;
                    proof {
                        assert forall|r: int, c: int| 0 <= r < DIMS && 0 <= c < DIMS implies (
                        #[trigger] u@[r * DIMS + c]).value() == (if (i < r < j && c >= i) || (r
                            == j && i <= c < k + 1) {
                            s[r * d + c] - factor(s, d, i as int, r) * s[i * d + c]
                        } else {
                            s[r * d + c]
                        }) by {
                            lemma_join(r, c, d, d);
                            if r * DIMS + c != j * DIMS + k {
                                assert(u@[r * DIMS + c] == u_before[r * DIMS + c]);
                            }
                        }
                    }
                    k = k + 1;
                }
                j = j + 1;
            }
            proof {
                let next = eliminated(s, d, i as int);
                assert forall|p: int| 0 <= p < n implies entry_values(u@)[p] == next[p] by {
                    lemma_split(p, d, d);
                    assert(u@[(p / d) * DIMS + p % d].value() == next[p]);
                }
                assert(entry_values(u@) =~= next);
                assert(reduced(a, d, (i + 1) as nat) == next);
                assert forall|r: int, c: int| 0 <= r < DIMS && 0 <= c < DIMS implies (
                #[trigger] l@[r * DIMS + c]).value() == lower_entry(a, d, i + 1, 0, r, c) by {
                    assert(l@[r * DIMS + c].value() == lower_entry(a, d, i as int, d, r, c));
                }
            }
            i = i + 1;
        }
        let lower = Matrix::<S, DIMS, DIMS> { data: l };
        let upper = Matrix::<S, DIMS, DIMS> { data: u };
        proof {
            assert forall|r: int, c: int| 0 <= r < DIMS && 0 <= c < DIMS implies (
            #[trigger] lower.entry(r, c)).value() == lower_entry(a, d, d, 0, r, c) by {
                assert(lower@[r * DIMS + c] == l@[r * DIMS + c]);
            }
        }
        (lower, upper)
    }
}

} // verus!
