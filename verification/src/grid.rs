//! A planar grid of points filled row by row, and its extents.

use vstd::prelude::*;
use vstd::arithmetic::div_mod::{lemma_fundamental_div_mod, lemma_fundamental_div_mod_converse};
use crate::double::Double;

verus! {

/// A point of a planar grid with its logical place `(i, j)`.
#[derive(Debug, Clone, Copy)]
pub struct GridPoint2D {
    pub i: usize,
    pub j: usize,
    pub x: Double,
    pub y: Double,
}

impl GridPoint2D {
    pub fn new(i: usize, j: usize, x: Double, y: Double) -> (p: GridPoint2D)
        ensures
            p == (GridPoint2D { i, j, x, y }),
    {
        GridPoint2D { i, j, x, y }
    }
}

/// The lowest of zero and the first `n` values: a value takes the place of
/// the lowest so far only where it is less than it, so a NaN never does and
/// `-0.0` does not displace `0.0`.
pub open spec fn lowest(values: Seq<Double>, n: nat) -> Double
    decreases n,
{
    if n == 0 {
        Double { bits: 0 }
    } else {
        let so_far = lowest(values, (n - 1) as nat);
        if values[n - 1].ieee_lt(so_far) {
            values[n - 1]
        } else {
            so_far
        }
    }
}

/// The highest of zero and the first `n` values, in the same way.
pub open spec fn highest(values: Seq<Double>, n: nat) -> Double
    decreases n,
{
    if n == 0 {
        Double { bits: 0 }
    } else {
        let so_far = highest(values, (n - 1) as nat);
        if so_far.ieee_lt(values[n - 1]) {
            values[n - 1]
        } else {
            so_far
        }
    }
}

/// The lowest is zero or one of the values, is a number, and no value among
/// the first `n` is below it, nor is zero.
pub proof fn lemma_lowest_bounds(values: Seq<Double>, n: nat)
    requires
        n <= values.len(),
    ensures
        !lowest(values, n).is_nan_spec(),
        !(Double { bits: 0 }).ieee_lt(lowest(values, n)),
        forall|k: int| 0 <= k < n ==> !(#[trigger] values[k]).ieee_lt(lowest(values, n)),
        lowest(values, n) == (Double { bits: 0 }) || exists|k: int|
            0 <= k < n && lowest(values, n) == #[trigger] values[k],
    decreases n,
{
    if n > 0 {
        lemma_lowest_bounds(values, (n - 1) as nat);
        let before = lowest(values, (n - 1) as nat);
        if before != (Double { bits: 0 }) && lowest(values, n) == before {
            let k = choose|k: int| 0 <= k < n - 1 && before == #[trigger] values[k];
            assert(lowest(values, n) == values[k]);
        }
        if lowest(values, n) != before {
            assert(lowest(values, n) == values[n - 1]);
        }
    }
}

/// The highest is zero or one of the values, is a number, and no value among
/// the first `n` is above it, nor is zero.
pub proof fn lemma_highest_bounds(values: Seq<Double>, n: nat)
    requires
        n <= values.len(),
    ensures
        !highest(values, n).is_nan_spec(),
        !highest(values, n).ieee_lt(Double { bits: 0 }),
        forall|k: int| 0 <= k < n ==> !highest(values, n).ieee_lt(#[trigger] values[k]),
        highest(values, n) == (Double { bits: 0 }) || exists|k: int|
            0 <= k < n && highest(values, n) == #[trigger] values[k],
    decreases n,
{
    if n > 0 {
        lemma_highest_bounds(values, (n - 1) as nat);
        let before = highest(values, (n - 1) as nat);
        if before != (Double { bits: 0 }) && highest(values, n) == before {
            let k = choose|k: int| 0 <= k < n - 1 && before == #[trigger] values[k];
            assert(highest(values, n) == values[k]);
        }
        if highest(values, n) != before {
            assert(highest(values, n) == values[n - 1]);
        }
    }
}

/// A planar grid of `nx` by `ny` points, filled along x first.
#[derive(Debug)]
pub struct Grid2D {
    nx: usize,
    ny: usize,
    points: Vec<GridPoint2D>,
}

impl View for Grid2D {
    type V = Seq<GridPoint2D>;

    /// The points in the order they were added.
    closed spec fn view(&self) -> Seq<GridPoint2D> {
        self.points@
    }
}

impl Grid2D {
    /// The extents `(nx, ny)` the grid was made with.
    pub closed spec fn extents_spec(&self) -> (usize, usize) {
        (self.nx, self.ny)
    }

    /// The x of every point, in order.
    pub open spec fn xs(&self) -> Seq<Double> {
        Seq::new(self@.len(), |k: int| self@[k].x)
    }

    /// The y of every point, in order.
    pub open spec fn ys(&self) -> Seq<Double> {
        Seq::new(self@.len(), |k: int| self@[k].y)
    }

    /// What holds of every grid: both extents are at least one, the grid
    /// holds no more points than `nx * ny`, and the point added at position
    /// `k` has the logical place `(k % nx, k / nx)`.
    pub open spec fn wf(&self) -> bool {
        let (nx, ny) = self.extents_spec();
        &&& nx >= 1
        &&& ny >= 1
        &&& self@.len() <= nx * ny
        &&& forall|k: int|
            0 <= k < self@.len() ==> (#[trigger] self@[k]).i == k % (nx as int) && self@[k].j == k
                / (nx as int)
    }

    #[verifier::type_invariant]
    closed spec fn inv(&self) -> bool {
        self.wf()
    }

    /// Whether the grid holds all of its `nx * ny` points.
    pub open spec fn is_full(&self) -> bool {
        self@.len() == self.extents_spec().0 * self.extents_spec().1
    }

    /// An empty grid for `nx` by `ny` points.
    pub fn new(nx: usize, ny: usize) -> (g: Grid2D)
        requires
            nx >= 1,
            ny >= 1,
        ensures
            g.wf(),
            g@.len() == 0,
            g.extents_spec() == (nx, ny),
    {
        proof {
            assert(0 <= nx * ny) by (nonlinear_arith)
                requires
                    nx >= 1,
                    ny >= 1,
            ;
        }
        Grid2D { nx, ny, points: Vec::new() }
    }

    /// Adds a point at `(x, y)` in the next logical place; a full grid is
    /// left as it is.
    pub fn add_point(&mut self, x: Double, y: Double)
        ensures
            final(self).wf(),
            final(self).extents_spec() == old(self).extents_spec(),
            old(self).is_full() ==> final(self)@ == old(self)@,
            !old(self).is_full() ==> {
                &&& final(self)@.len() == old(self)@.len() + 1
                &&& final(self)@.drop_last() == old(self)@
                &&& final(self)@.last().x == x
                &&& final(self)@.last().y == y
                &&& final(self)@.last().i == (old(self)@.len() as int) % (old(self).extents_spec().0 as int)
                &&& final(self)@.last().j == (old(self)@.len() as int) / (old(self).extents_spec().0 as int)
            },
    {
        let (i, j) = match self.get_next_ij() {
            Some(tuple) => tuple,
            None => {
                return ;
            },
        };
        let point = GridPoint2D::new(i, j, x, y);
        // the vector leaves the grid while it grows, so that the grid is
        // whole at every step
        let mut points: Vec<GridPoint2D> = Vec::new();
        core::mem::swap(&mut self.points, &mut points);
        points.push(point);
        core::mem::swap(&mut self.points, &mut points);
        assert(self@.drop_last() =~= old(self)@);
    }

    pub fn num_pts(&self) -> (n: usize)
        ensures
            n == self@.len(),
            self.wf(),
    {
        proof {
            use_type_invariant(self);
        }
        self.points.len()
    }

    /// The least and the greatest x, then the least and the greatest y, of
    /// the points and the origin together.
    pub fn extents(&self) -> (r: (Double, Double, Double, Double))
        ensures
            r.0 == lowest(self.xs(), self@.len()),
            r.1 == highest(self.xs(), self@.len()),
            r.2 == lowest(self.ys(), self@.len()),
            r.3 == highest(self.ys(), self@.len()),
    {
        let mut min_x = Double::zero();
        let mut max_x = Double::zero();
        let mut min_y = Double::zero();
        let mut max_y = Double::zero();
        let n: usize = self.points.len();
        let mut k: usize = 0;
        while k < n
            invariant
                n == self@.len(),
                k <= n,
                min_x == lowest(self.xs(), k as nat),
                max_x == highest(self.xs(), k as nat),
                min_y == lowest(self.ys(), k as nat),
                max_y == highest(self.ys(), k as nat),
            decreases n - k,
        {
            let point = &self.points[k];
            proof {
                lemma_lowest_bounds(self.xs(), k as nat);
                lemma_highest_bounds(self.xs(), k as nat);
                lemma_lowest_bounds(self.ys(), k as nat);
                lemma_highest_bounds(self.ys(), k as nat);
            }
            if point.x.lt(&min_x) {
                min_x = point.x;
            } else if point.x.gt(&max_x) {
                max_x = point.x;
            }
            if point.y.lt(&min_y) {
                min_y = point.y;
            } else if point.y.gt(&max_y) {
                max_y = point.y;
            }
            k = k + 1;
        }
        (min_x, max_x, min_y, max_y)
    }

    /// The logical place of the next point: along x first, then up one row;
    /// none once the last place is taken.
    fn get_next_ij(&self) -> (r: Option<(usize, usize)>)
        ensures
            self.wf(),
            self.is_full() ==> r is None,
            !self.is_full() ==> {
                &&& r matches Some((i, j))
                &&& i == (self@.len() as int) % (self.extents_spec().0 as int)
                &&& j == (self@.len() as int) / (self.extents_spec().0 as int)
                &&& self@.len() < self.extents_spec().0 * self.extents_spec().1
            },
    {
        proof {
            use_type_invariant(self);
        }
        let n: usize = self.points.len();
        if n == 0 {
            proof {
                assert(self.nx * self.ny >= 1) by (nonlinear_arith)
                    requires
                        self.nx >= 1,
                        self.ny >= 1,
                ;
            }
            return Some((0, 0));
        }
        let last = &self.points[n - 1];
        proof {
            lemma_next_place(n as int, self.nx as int, self.ny as int);
        }
        if last.i == self.nx - 1 && last.j == self.ny - 1 {
            return None;
        }
        let next_i: usize;
        let next_j: usize;
        if last.i == self.nx - 1 {
            next_i = 0;
            next_j = last.j + 1;
        } else {
            next_i = last.i + 1;
            next_j = last.j;
        }
        Some((next_i, next_j))
    }
}

/// The place after position `n - 1` in rows of `nx`: one further along the
/// row, or at the start of the next row; and position `n - 1` is the last of
/// `nx * ny` exactly when it is the last of the last row.
proof fn lemma_next_place(n: int, nx: int, ny: int)
    requires
        nx >= 1,
        ny >= 1,
        1 <= n <= nx * ny,
    ensures
        0 <= (n - 1) % nx < nx,
        0 <= (n - 1) / nx < ny,
        (n == nx * ny) == ((n - 1) % nx == nx - 1 && (n - 1) / nx == ny - 1),
        (n - 1) % nx == nx - 1 ==> n % nx == 0 && n / nx == (n - 1) / nx + 1,
        (n - 1) % nx != nx - 1 ==> n % nx == (n - 1) % nx + 1 && n / nx == (n - 1) / nx,
{
    let a = n - 1;
    let q = a / nx;
    let r = a % nx;
    lemma_fundamental_div_mod(a, nx);
    vstd::arithmetic::div_mod::lemma_multiply_divide_lt(a, nx, ny);
    assert(nx * q == q * nx) by (nonlinear_arith);
    assert(q >= 0) by (nonlinear_arith)
        requires
            a == q * nx + r,
            a >= 0,
            r < nx,
            nx >= 1,
    ;
    assert((q == ny - 1) ==> q * nx + nx == nx * ny) by (nonlinear_arith);
    assert((q <= ny - 2) ==> q * nx + nx < nx * ny) by (nonlinear_arith)
        requires
            nx >= 1,
    ;
    if r == nx - 1 {
        assert(n == (q + 1) * nx + 0) by (nonlinear_arith)
            requires
                n - 1 == q * nx + r,
                r == nx - 1,
        ;
        lemma_fundamental_div_mod_converse(n, nx, q + 1, 0);
    } else {
        lemma_fundamental_div_mod_converse(n, nx, q, r + 1);
    }
}

} // verus!
