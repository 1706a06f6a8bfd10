use vstd::prelude::*;

use crate::errors::PlanError;

verus! {

/// Largest accepted grid dimension on either axis. Keeps every flat cell
/// index, and every product of dimensions, far below `usize::MAX`.
pub const MAX_DIM: usize = 4096;

/// Largest accepted elevation magnitude. Keeps every slope (a difference of
/// two elevations) within `i64` and bounds every edge weight downstream.
pub const HEIGHT_LIMIT: i64 = 0x8000_0000;

/// A grid coordinate: `x` is the column, `y` the row within a column.
#[derive(Clone, Copy, PartialEq, Eq, Structural, Debug)]
pub struct Coord {
    pub x: usize,
    pub y: usize,
}

/// An immutable elevation field over a `width` by `height` grid, stored
/// row-major by `(x, y)`: cell `(x, y)` lives at flat index `x * height + y`.
pub struct Topography {
    pub heights: Vec<i64>,
    pub width: usize,
    pub height: usize,
}

impl Topography {
    /// The structural invariant: positive bounded dimensions, one elevation
    /// per cell, every elevation bounded in magnitude.
    pub open spec fn wf(self) -> bool {
        &&& 0 < self.width <= MAX_DIM
        &&& 0 < self.height <= MAX_DIM
        &&& self.heights@.len() == self.width * self.height
        &&& forall|i: int|
            0 <= i < self.heights@.len() ==> -HEIGHT_LIMIT <= #[trigger] self.heights@[i]
                <= HEIGHT_LIMIT
    }

    /// Whether a coordinate lies inside the grid.
    pub open spec fn in_bounds(self, c: Coord) -> bool {
        c.x < self.width && c.y < self.height
    }

    /// Flat index of a coordinate.
    pub open spec fn idx_of(self, c: Coord) -> int {
        c.x * self.height + c.y
    }

    /// Elevation at a coordinate.
    pub open spec fn height_of(self, c: Coord) -> i64 {
        self.heights@[self.idx_of(c)]
    }

    /// Directional slope from `a` to `b`: positive when `a` is higher.
    pub open spec fn slope_of(self, a: Coord, b: Coord) -> int {
        self.height_of(a) - self.height_of(b)
    }

    /// Builds a terrain from explicit elevations, row-major by `(x, y)`.
    pub fn new(width: usize, height: usize, heights: Vec<i64>) -> (t: Topography)
        requires
            0 < width <= MAX_DIM,
            0 < height <= MAX_DIM,
            heights@.len() == width * height,
            forall|i: int|
                0 <= i < heights@.len() ==> -HEIGHT_LIMIT <= #[trigger] heights@[i]
                    <= HEIGHT_LIMIT,
        ensures
            t.wf(),
            t.width == width,
            t.height == height,
            t.heights@ == heights@,
    {
        Topography { heights, width, height }
    }

    /// A terrain of uniform elevation zero.
    pub fn flat(width: usize, height: usize) -> (t: Topography)
        requires
            0 < width <= MAX_DIM,
            0 < height <= MAX_DIM,
        ensures
            t.wf(),
            t.width == width,
            t.height == height,
            forall|i: int| 0 <= i < t.heights@.len() ==> #[trigger] t.heights@[i] == 0,
    {
        proof {
            assert(width * height <= MAX_DIM * MAX_DIM) by (nonlinear_arith)
                requires
                    width <= MAX_DIM,
                    height <= MAX_DIM,
            ;
        }
        let total: usize = width * height;
        let mut heights: Vec<i64> = Vec::new();
        let mut i: usize = 0;
        while i < total
            invariant
                i <= total,
                heights@.len() == i,
                forall|j: int| 0 <= j < i ==> #[trigger] heights@[j] == 0,
            decreases total - i,
        {
            heights.push(0);
            i = i + 1;
        }
        Topography { heights, width, height }
    }

    /// A cone-shaped terrain: each cell's elevation is `slope` times its
    /// rounded-down Euclidean distance from the center, so a negative
    /// `slope` falls away from the center.
    pub fn cone(width: usize, height: usize, center_x: i64, center_y: i64, slope: i64) -> (t:
        Topography)
        requires
            0 < width <= MAX_DIM,
            0 < height <= MAX_DIM,
            -0x1000 <= center_x <= 0x1000,
            -0x1000 <= center_y <= 0x1000,
            -0x1_0000 <= slope <= 0x1_0000,
        ensures
            t.wf(),
            t.width == width,
            t.height == height,
            forall|x: int, y: int|
                0 <= x < width && 0 <= y < height ==> t.heights@[x * height + y]
                    == spec_cone_height(x, y, center_x as int, center_y as int, slope as int),
    {
        proof {
            assert(width * height <= MAX_DIM * MAX_DIM) by (nonlinear_arith)
                requires
                    width <= MAX_DIM,
                    height <= MAX_DIM,
            ;
        }
        let total: usize = width * height;
        let mut heights: Vec<i64> = Vec::new();
        let mut k: usize = 0;
        while k < total
            invariant
                0 < width <= MAX_DIM,
                0 < height <= MAX_DIM,
                total == width * height,
                -0x1000 <= center_x <= 0x1000,
                -0x1000 <= center_y <= 0x1000,
                -0x1_0000 <= slope <= 0x1_0000,
                k <= total,
                heights@.len() == k,
                forall|m: int|
                    0 <= m < k ==> #[trigger] heights@[m] == spec_cone_height(
                        m / (height as int),
                        m % (height as int),
                        center_x as int,
                        center_y as int,
                        slope as int,
                    ),
                forall|m: int|
                    0 <= m < k ==> -HEIGHT_LIMIT <= #[trigger] heights@[m] <= HEIGHT_LIMIT,
            decreases total - k,
        {
            let xi = k / height;
            let yi = k % height;
            proof {
                assert(xi == k as int / height as int && yi == k as int % height as int);
                assert(0 <= (k as int % height as int) && (k as int % height as int) < (
                height as int)) by {
                    vstd::arithmetic::div_mod::lemma_mod_bound(k as int, height as int);
                }
                assert((k as int / height as int) < (width as int)) by {
                    vstd::arithmetic::div_mod::lemma_fundamental_div_mod(
                        k as int,
                        height as int,
                    );
                    if (k as int / height as int) >= (width as int) {
                        vstd::arithmetic::mul::lemma_mul_inequality(
                            width as int,
                            k as int / height as int,
                            height as int,
                        );
                        assert((k as int / height as int) * (height as int) == (height as int) * (
                        k as int / height as int)) by (nonlinear_arith);
                        assert(false);
                    }
                }
            }
            let dx = xi as i64 - center_x;
            let dy = yi as i64 - center_y;
            proof {
                assert(dx * dx + dy * dy <= 0x1000_0000) by (nonlinear_arith)
                    requires
                        -0x2000 <= dx <= 0x2000,
                        -0x2000 <= dy <= 0x2000,
                ;
                assert(dx * dx >= 0 && dy * dy >= 0) by (nonlinear_arith);
            }
            let d2: i64 = dx * dx + dy * dy;
            let r = isqrt(d2 as u64);
            proof {
                assert(r * r <= 0x1000_0000);
                assert(r <= 0x4000) by (nonlinear_arith)
                    requires
                        r * r <= 0x1000_0000,
                        r >= 0,
                ;
                lemma_isqrt_unique(d2 as int, r as int);
            }
            proof {
                assert(-0x4000_0000 <= (r as i64) * slope <= 0x4000_0000) by (nonlinear_arith)
                    requires
                        0 <= r <= 0x4000,
                        -0x1_0000 <= slope <= 0x1_0000,
                ;
            }
            let hv: i64 = (r as i64) * slope;
            heights.push(hv);
            k = k + 1;
            proof {
                assert(heights@[k as int - 1] == spec_cone_height(
                    (k - 1) as int / height as int,
                    (k - 1) as int % height as int,
                    center_x as int,
                    center_y as int,
                    slope as int,
                ));
            }
        }
        proof {
            assert forall|x: int, y: int| 0 <= x < width && 0 <= y < height implies heights@[x
                * height + y] == spec_cone_height(
                x,
                y,
                center_x as int,
                center_y as int,
                slope as int,
            ) by {
                assert(0 <= x * height + y < width * height) by (nonlinear_arith)
                    requires
                        0 <= x < width,
                        0 <= y < height,
                ;
                vstd::arithmetic::div_mod::lemma_fundamental_div_mod_converse(
                    x * height + y,
                    height as int,
                    x,
                    y,
                );
            }
        }
        Topography { heights, width, height }
    }

    /// An in-bounds cell's flat index lies inside the elevation vector, so
    /// its elevation obeys the magnitude bound of `wf`.
    pub proof fn lemma_height_bounded(self, c: Coord)
        requires
            self.wf(),
            self.in_bounds(c),
        ensures
            0 <= self.idx_of(c) < self.heights@.len(),
            -HEIGHT_LIMIT <= self.height_of(c) <= HEIGHT_LIMIT,
    {
        assert(c.x * self.height + c.y < self.width * self.height) by (nonlinear_arith)
            requires
                c.x < self.width,
                c.y < self.height,
        ;
    }

    /// Elevation of an in-bounds cell.
    fn get(&self, c: Coord) -> (h: i64)
        requires
            self.wf(),
            self.in_bounds(c),
        ensures
            h == self.height_of(c),
    {
        proof {
            assert(c.x * self.height + c.y < self.width * self.height) by (nonlinear_arith)
                requires
                    c.x < self.width,
                    c.y < self.height,
            ;
            assert(self.width * self.height <= MAX_DIM * MAX_DIM) by (nonlinear_arith)
                requires
                    self.width <= MAX_DIM,
                    self.height <= MAX_DIM,
            ;
        }
        self.heights[c.x * self.height + c.y]
    }

    /// Elevation at a coordinate; `OutOfBounds` when it lies outside the grid.
    pub fn height_at(&self, c: Coord) -> (r: Result<i64, PlanError>)
        requires
            self.wf(),
        ensures
            self.in_bounds(c) ==> r is Ok && r->Ok_0 == self.height_of(c),
            !self.in_bounds(c) ==> r == Err::<i64, PlanError>(PlanError::OutOfBounds),
    {
        if c.x < self.width && c.y < self.height {
            Ok(self.get(c))
        } else {
            Err(PlanError::OutOfBounds)
        }
    }

    /// Directional slope from `a` to `b`; `OutOfBounds` when either
    /// coordinate lies outside the grid.
    pub fn slope(&self, a: Coord, b: Coord) -> (r: Result<i64, PlanError>)
        requires
            self.wf(),
        ensures
            self.in_bounds(a) && self.in_bounds(b) ==> r is Ok && r->Ok_0 == self.slope_of(a, b),
            !(self.in_bounds(a) && self.in_bounds(b)) ==> r == Err::<i64, PlanError>(
                PlanError::OutOfBounds,
            ),
    {
        if a.x < self.width && a.y < self.height && b.x < self.width && b.y < self.height {
            proof {
                self.lemma_height_bounded(a);
                self.lemma_height_bounded(b);
            }
            Ok(self.get(a) - self.get(b))
        } else {
            Err(PlanError::OutOfBounds)
        }
    }

    /// Directional slope between two in-bounds cells.
    pub(crate) fn slope_in(&self, a: Coord, b: Coord) -> (s: i64)
        requires
            self.wf(),
            self.in_bounds(a),
            self.in_bounds(b),
        ensures
            s == self.slope_of(a, b),
    {
        proof {
            self.lemma_height_bounded(a);
            self.lemma_height_bounded(b);
        }
        self.get(a) - self.get(b)
    }

    /// The elevations, in row-major order.
    pub fn iter(&self) -> (r: &Vec<i64>)
        ensures
            r@ == self.heights@,
    {
        &self.heights
    }
}

/// Slope is antisymmetric: for every terrain and pair of coordinates, the
/// slope from `a` to `b` is the negation of the slope from `b` to `a`.
pub proof fn lemma_slope_antisymmetric(t: Topography, a: Coord, b: Coord)
    ensures
        t.slope_of(a, b) == -t.slope_of(b, a),
{
}

/// On a terrain of uniform elevation, every directional slope between
/// in-bounds coordinates is zero.
pub proof fn lemma_uniform_slope_zero(t: Topography, a: Coord, b: Coord)
    requires
        t.wf(),
        forall|i: int| 0 <= i < t.heights@.len() ==> #[trigger] t.heights@[i] == t.heights@[0],
        t.in_bounds(a),
        t.in_bounds(b),
    ensures
        t.slope_of(a, b) == 0,
{
    t.lemma_height_bounded(a);
    t.lemma_height_bounded(b);
}

/// Whether `r` is the rounded-down square root of `v`.
pub open spec fn is_isqrt(v: int, r: int) -> bool {
    0 <= r && r * r <= v && v < (r + 1) * (r + 1)
}

/// The rounded-down square root of `v`.
pub open spec fn spec_isqrt(v: int) -> int {
    choose|r: int| is_isqrt(v, r)
}

/// Rounded-down square roots are unique, so any witness is `spec_isqrt`.
pub proof fn lemma_isqrt_unique(v: int, r: int)
    requires
        is_isqrt(v, r),
    ensures
        spec_isqrt(v) == r,
{
    let c = spec_isqrt(v);
    assert(is_isqrt(v, c));
    assert(r == c) by (nonlinear_arith)
        requires
            0 <= r,
            r * r <= v,
            v < (r + 1) * (r + 1),
            0 <= c,
            c * c <= v,
            v < (c + 1) * (c + 1),
    ;
}

/// Rounded-down square root of a bounded value, by upward scan.
pub fn isqrt(v: u64) -> (r: u64)
    requires
        v <= 0x1000_0000,
    ensures
        is_isqrt(v as int, r as int),
{
    let mut r: u64 = 0;
    while (r + 1) * (r + 1) <= v
        invariant
            v <= 0x1000_0000,
            r * r <= v,
            r <= 0x4000,
            (r + 1) * (r + 1) <= 0x2000_0000,
        decreases 0x4001 - r,
    {
        r = r + 1;
        proof {
            assert(r <= 0x4000) by (nonlinear_arith)
                requires
                    r * r <= 0x1000_0000,
                    0 <= r,
            ;
            assert((r + 1) * (r + 1) <= 0x2000_0000) by (nonlinear_arith)
                requires
                    0 <= r <= 0x4000,
            ;
        }
    }
    r
}

/// Elevation of a cone terrain's cell `(x, y)`: the slope coefficient times
/// the rounded-down distance from the center.
pub open spec fn spec_cone_height(x: int, y: int, cx: int, cy: int, slope: int) -> int {
    spec_isqrt((x - cx) * (x - cx) + (y - cy) * (y - cy)) * slope
}

} // verus!
