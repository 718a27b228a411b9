//! Integer plane geometry: points, squared distances and integer square roots.
use vstd::prelude::*;

verus! {

/// Largest absolute value of a coordinate in the arena.
pub const COORD_LIMIT: i64 = 1_000_000_000;

/// A point of the arena, in whole world units.
#[derive(Clone, Copy, Debug, PartialEq, Eq, Structural)]
pub struct Point {
    pub x: i64,
    pub y: i64,
}

/// A coordinate lies inside the arena.
pub open spec fn in_arena(c: int) -> bool {
    -COORD_LIMIT <= c <= COORD_LIMIT
}

impl Point {
    pub open spec fn wf(self) -> bool {
        in_arena(self.x as int) && in_arena(self.y as int)
    }

    pub fn new(x: i64, y: i64) -> (r: Point)
        ensures
            r.x == x,
            r.y == y,
    {
        Point { x, y }
    }
}

/// Squared euclidean distance between two points.
pub open spec fn dist_sq(a: Point, b: Point) -> int {
    (a.x - b.x) * (a.x - b.x) + (a.y - b.y) * (a.y - b.y)
}

/// `r` is the integer square root of `n`: the largest `r` with `r * r <= n`.
pub open spec fn is_isqrt(n: int, r: int) -> bool {
    0 <= r && r * r <= n && n < (r + 1) * (r + 1)
}

/// The integer square root of `n`.
pub open spec fn root(n: int) -> int {
    choose|r: int| is_isqrt(n, r)
}

/// The integer square root is unique.
pub proof fn lemma_isqrt_unique(n: int, r: int, s: int)
    requires
        is_isqrt(n, r),
        is_isqrt(n, s),
    ensures
        r == s,
{
    if r < s {
        assert((r + 1) * (r + 1) <= s * s) by (nonlinear_arith)
            requires 0 <= r, r + 1 <= s;
    } else if s < r {
        assert((s + 1) * (s + 1) <= r * r) by (nonlinear_arith)
            requires 0 <= s, s + 1 <= r;
    }
}

/// Every natural number has an integer square root.
pub proof fn lemma_isqrt_exists(n: int)
    requires
        0 <= n,
    ensures
        is_isqrt(n, root(n)),
    decreases n,
{
    if n == 0 {
        assert(is_isqrt(0, 0));
    } else {
        lemma_isqrt_exists(n - 1);
        let r = root(n - 1);
        if n < (r + 1) * (r + 1) {
            assert(is_isqrt(n, r));
        } else {
            assert(n == (r + 1) * (r + 1)) by (nonlinear_arith)
                requires n - 1 < (r + 1) * (r + 1), n >= (r + 1) * (r + 1);
            assert(n < (r + 2) * (r + 2)) by (nonlinear_arith)
                requires n == (r + 1) * (r + 1), r >= 0;
            assert(is_isqrt(n, r + 1));
        }
    }
}

/// Integer square root, by bisection.
pub fn isqrt(n: u64) -> (r: u64)
    ensures
        is_isqrt(n as int, r as int),
        r == root(n as int),
        r <= 4_294_967_295,
{
    let mut lo: u64 = 0;
    let mut hi: u64 = 4_294_967_296;
    assert(lo * lo <= n);
    assert((hi as int) * (hi as int) > n) by (nonlinear_arith)
        requires hi == 4_294_967_296, n <= u64::MAX;
    while hi - lo > 1
        invariant
            lo < hi <= 4_294_967_296,
            (lo as int) * (lo as int) <= n,
            (hi as int) * (hi as int) > n,
        decreases hi - lo,
    {
        let mid: u64 = lo + (hi - lo) / 2;
        assert(lo < mid < hi);
        assert((mid as int) * (mid as int) <= (4_294_967_295 as int) * (4_294_967_295 as int)) by (nonlinear_arith)
            requires mid <= 4_294_967_295;
        if mid * mid <= n {
            lo = mid;
        } else {
            hi = mid;
        }
    }
    assert(hi == lo + 1);
    assert(is_isqrt(n as int, lo as int));
    proof {
        lemma_isqrt_unique(n as int, lo as int, root(n as int));
    }
    lo
}

/// Squared distance between two points of the arena.
pub fn distance_squared(a: Point, b: Point) -> (r: u64)
    requires
        a.wf(),
        b.wf(),
    ensures
        r == dist_sq(a, b),
{
    let dx: i64 = a.x - b.x;
    let dy: i64 = a.y - b.y;
    assert(dx * dx <= 4_000_000_000_000_000_000) by (nonlinear_arith)
        requires -2_000_000_000 <= dx <= 2_000_000_000;
    assert(dy * dy <= 4_000_000_000_000_000_000) by (nonlinear_arith)
        requires -2_000_000_000 <= dy <= 2_000_000_000;
    assert(dx * dx >= 0) by (nonlinear_arith);
    assert(dy * dy >= 0) by (nonlinear_arith);
    let sx: u64 = (dx * dx) as u64;
    let sy: u64 = (dy * dy) as u64;
    sx + sy
}

/// Euclidean distance between two points, rounded down.
pub fn distance(a: Point, b: Point) -> (r: u64)
    requires
        a.wf(),
        b.wf(),
    ensures
        is_isqrt(dist_sq(a, b), r as int),
        r == root(dist_sq(a, b)),
{
    isqrt(distance_squared(a, b))
}

/// A coordinate moved into the arena.
pub open spec fn clamped(c: int) -> int {
    if c < -COORD_LIMIT {
        -COORD_LIMIT as int
    } else if c > COORD_LIMIT {
        COORD_LIMIT as int
    } else {
        c
    }
}

/// The point nearest to `(x, y)` inside the arena.
pub open spec fn clamped_point(x: int, y: int) -> Point {
    Point { x: clamped(x) as i64, y: clamped(y) as i64 }
}

/// Clamps a coordinate into the arena.
pub fn clamp(c: i128) -> (r: i64)
    ensures
        r == clamped(c as int),
{
    if c < -(COORD_LIMIT as i128) {
        -COORD_LIMIT
    } else if c > COORD_LIMIT as i128 {
        COORD_LIMIT
    } else {
        c as i64
    }
}

/// Division rounded toward zero, for a positive divisor.
pub open spec fn tdiv(a: int, b: int) -> int
    recommends
        b > 0,
{
    if a >= 0 {
        a / b
    } else {
        -((-a) / b)
    }
}

/// Division by a positive number does not grow a value.
pub proof fn lemma_tdiv_small(a: int, b: int)
    requires
        b >= 1,
    ensures
        -(if a >= 0 { a } else { -a }) <= tdiv(a, b) <= (if a >= 0 { a } else { -a }),
{
    if a >= 0 {
        assert(a / b <= a) by (nonlinear_arith)
            requires a >= 0, b >= 1;
        assert(a / b >= 0) by (nonlinear_arith)
            requires a >= 0, b >= 1;
    } else {
        assert((-a) / b <= -a) by (nonlinear_arith)
            requires -a >= 0, b >= 1;
        assert((-a) / b >= 0) by (nonlinear_arith)
            requires -a >= 0, b >= 1;
    }
}

/// Division rounded toward zero, for a positive divisor.
pub fn trunc_div(a: i128, b: i128) -> (r: i128)
    requires
        b > 0,
        a > i128::MIN,
    ensures
        r == tdiv(a as int, b as int),
{
    if a >= 0 {
        a / b
    } else {
        -((-a) / b)
    }
}

} // verus!
