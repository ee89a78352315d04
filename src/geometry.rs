use vstd::prelude::*;

verus! {

/// Fixed-point scale: one whole unit is this many thousandths.
pub const UNIT: i32 = 1000;

/// A point or extent in the plane, in thousandths of a unit.
#[derive(Clone, Copy, Debug, PartialEq, Eq, Structural)]
pub struct Vec2 {
    pub x: i32,
    pub y: i32,
}

/// A point in space, in thousandths of a unit.
#[derive(Clone, Copy, Debug, PartialEq, Eq, Structural)]
pub struct Vec3 {
    pub x: i32,
    pub y: i32,
    pub z: i32,
}

impl Vec2 {
    pub fn new(x: i32, y: i32) -> (r: Vec2)
        ensures
            r.x == x,
            r.y == y,
    {
        Vec2 { x, y }
    }
}

impl Vec3 {
    pub fn new(x: i32, y: i32, z: i32) -> (r: Vec3)
        ensures
            r.x == x,
            r.y == y,
            r.z == z,
    {
        Vec3 { x, y, z }
    }
}

/// Square of an integer.
pub open spec fn sq(a: int) -> int {
    a * a
}

/// Squared Euclidean distance between two points.
pub open spec fn dist2(a: Vec3, b: Vec3) -> int {
    sq(b.x - a.x) + sq(b.y - a.y) + sq(b.z - a.z)
}

/// `r` is the integer square root of `n`: the largest natural whose square is at most `n`.
pub open spec fn is_root(r: int, n: int) -> bool {
    0 <= r && r * r <= n && n < (r + 1) * (r + 1)
}

/// Integer square root of a natural number.
pub open spec fn root(n: int) -> int {
    choose|r: int| is_root(r, n)
}

/// Euclidean distance between two points, rounded down.
pub open spec fn distance_spec(a: Vec3, b: Vec3) -> int {
    root(dist2(a, b))
}

pub proof fn lemma_sq_nonneg(a: int)
    ensures
        sq(a) >= 0,
{
    assert(a * a >= 0) by (nonlinear_arith);
}

pub proof fn lemma_dist2_nonneg(a: Vec3, b: Vec3)
    ensures
        dist2(a, b) >= 0,
        dist2(a, b) == dist2(b, a),
{
    lemma_sq_nonneg(b.x - a.x);
    lemma_sq_nonneg(b.y - a.y);
    lemma_sq_nonneg(b.z - a.z);
    assert(sq(b.x - a.x) == sq(a.x - b.x)) by (nonlinear_arith);
    assert(sq(b.y - a.y) == sq(a.y - b.y)) by (nonlinear_arith);
    assert(sq(b.z - a.z) == sq(a.z - b.z)) by (nonlinear_arith);
}

/// Squares of naturals are ordered as the naturals are.
pub proof fn lemma_sq_monotone(a: int, b: int)
    requires
        0 <= a <= b,
    ensures
        a * a <= b * b,
{
    assert(a * a <= b * b) by (nonlinear_arith)
        requires
            0 <= a <= b,
    ;
}

/// The integer square root is unique.
pub proof fn lemma_root_unique(r: int, n: int)
    requires
        is_root(r, n),
    ensures
        root(n) == r,
{
    let s = root(n);
    assert(is_root(s, n));
    if s < r {
        lemma_sq_monotone(s + 1, r);
    } else if r < s {
        lemma_sq_monotone(r + 1, s);
    }
}

/// A root is below `t` exactly when `n` is below the square of `t`.
pub proof fn lemma_root_lt(n: int, t: int)
    requires
        n >= 0,
        t >= 0,
        is_root(root(n), n),
    ensures
        root(n) < t <==> n < t * t,
{
    let r = root(n);
    if r < t {
        lemma_sq_monotone(r + 1, t);
    } else {
        lemma_sq_monotone(t, r);
    }
}

/// Integer square root of `n` by bisection.
fn isqrt(n: u128) -> (r: u64)
    requires
        n < 0x4_0000_0000_0000_0000,
    ensures
        is_root(r as int, n as int),
        r < 0x2_0000_0000,
{
    let mut lo: u64 = 0;
    let mut hi: u64 = 0x2_0000_0000;
    assert(0x2_0000_0000int * 0x2_0000_0000int == 0x4_0000_0000_0000_0000int) by (nonlinear_arith);
    while hi - lo > 1
        invariant
            lo < hi <= 0x2_0000_0000,
            (lo as int) * (lo as int) <= n,
            n < (hi as int) * (hi as int),
        decreases hi - lo,
    {
        let mid: u64 = lo + (hi - lo) / 2;
        assert((mid as int) * (mid as int) <= 0x4_0000_0000_0000_0000int) by {
            lemma_sq_monotone(mid as int, 0x2_0000_0000int);
        }
        let m: u128 = (mid as u128) * (mid as u128);
        if m <= n {
            lo = mid;
        } else {
            hi = mid;
        }
    }
    assert(hi == lo + 1);
    lo
}

/// Euclidean distance between two points, rounded down.
pub fn distance(a: Vec3, b: Vec3) -> (r: u64)
    ensures
        r as int == distance_spec(a, b),
        is_root(r as int, dist2(a, b)),
        r < 0x2_0000_0000,
{
    let dx: u128 = abs_diff(a.x, b.x);
    let dy: u128 = abs_diff(a.y, b.y);
    let dz: u128 = abs_diff(a.z, b.z);
    assert(dx * dx <= 0xffff_ffff_ffff_ffff) by { lemma_sq_monotone(dx as int, 0xffff_ffff); }
    assert(dy * dy <= 0xffff_ffff_ffff_ffff) by { lemma_sq_monotone(dy as int, 0xffff_ffff); }
    assert(dz * dz <= 0xffff_ffff_ffff_ffff) by { lemma_sq_monotone(dz as int, 0xffff_ffff); }
    let n: u128 = dx * dx + dy * dy + dz * dz;
    assert(n == dist2(a, b)) by {
        assert(sq(b.x - a.x) == dx * dx) by (nonlinear_arith)
            requires dx == b.x - a.x || dx == a.x - b.x;
        assert(sq(b.y - a.y) == dy * dy) by (nonlinear_arith)
            requires dy == b.y - a.y || dy == a.y - b.y;
        assert(sq(b.z - a.z) == dz * dz) by (nonlinear_arith)
            requires dz == b.z - a.z || dz == a.z - b.z;
    }
    let r = isqrt(n);
    proof {
        lemma_root_unique(r as int, n as int);
    }
    r
}

/// Distance between two coordinates.
pub fn abs_diff(a: i32, b: i32) -> (r: u128)
    ensures
        r as int == if a <= b { b - a } else { a - b },
        r <= 0xffff_ffff,
{
    if a <= b {
        ((b as i64) - (a as i64)) as u128
    } else {
        ((a as i64) - (b as i64)) as u128
    }
}

/// An axis-aligned rectangle; both edges belong to it. Its edges are wider
/// than coordinates, so a box computed from any coordinates and sizes is held
/// exactly.
#[derive(Clone, Copy, Debug, PartialEq, Eq, Structural)]
pub struct Rect {
    pub min_x: i64,
    pub min_y: i64,
    pub max_x: i64,
    pub max_y: i64,
}

impl Rect {
    /// Whether `p` lies in the rectangle, edges included.
    pub open spec fn holds(self, p: Vec2) -> bool {
        self.min_x <= p.x <= self.max_x && self.min_y <= p.y <= self.max_y
    }

    /// The rectangle from corner `min` to corner `max`.
    pub fn new(min: Vec2, max: Vec2) -> (r: Rect)
        ensures
            r == (Rect { min_x: min.x as i64, min_y: min.y as i64, max_x: max.x as i64, max_y: max.y as i64 }),
    {
        Rect { min_x: min.x as i64, min_y: min.y as i64, max_x: max.x as i64, max_y: max.y as i64 }
    }

    /// The rectangle that holds no point.
    pub fn empty() -> (r: Rect)
        ensures
            forall|p: Vec2| !r.holds(p),
    {
        Rect { min_x: i64::MAX, min_y: i64::MAX, max_x: i64::MIN, max_y: i64::MIN }
    }

    /// Whether `p` lies in the rectangle, edges included.
    pub fn contains(&self, p: Vec2) -> (r: bool)
        ensures
            r == self.holds(p),
    {
        self.min_x <= p.x as i64 && p.x as i64 <= self.max_x && self.min_y <= p.y as i64 && p.y as i64 <= self.max_y
    }
}

/// `v` limited to the range of a coordinate.
pub open spec fn clamp_coord(v: int) -> int {
    if v < i32::MIN { i32::MIN as int } else if v > i32::MAX { i32::MAX as int } else { v }
}

/// `v` limited to the range of a coordinate.
pub fn clamp_to_coord(v: i128) -> (r: i32)
    ensures
        r == clamp_coord(v as int),
{
    if v < i32::MIN as i128 {
        i32::MIN
    } else if v > i32::MAX as i128 {
        i32::MAX
    } else {
        v as i32
    }
}

/// `num / den` rounded down, for a positive `den`.
pub fn floor_div(num: i128, den: i128) -> (r: i128)
    requires
        0 < den <= 0x1_0000_0000,
        -0x1_0000_0000_0000_0000_0000_0000 <= num <= 0x1_0000_0000_0000_0000_0000_0000,
    ensures
        r == num / den,
{
    if num >= 0 {
        num / den
    } else {
        let m: i128 = (-num + den - 1) / den;
        proof {
            let n = num as int;
            let d = den as int;
            let q = n / d;
            let r = n % d;
            vstd::arithmetic::div_mod::lemma_fundamental_div_mod(num as int, den as int);
            vstd::arithmetic::div_mod::lemma_fundamental_div_mod((-num + den - 1) as int, den as int);
            let m2 = (-n + d - 1) / d;
            let r2 = (-n + d - 1) % d;
            assert(d * (m2 + q) == d - 1 - r - r2) by (nonlinear_arith)
                requires d * m2 + r2 == -n + d - 1, d * q + r == n;
            assert(m2 + q == 0) by (nonlinear_arith)
                requires d * (m2 + q) == d - 1 - r - r2, 0 <= r < d, 0 <= r2 < d, d > 0;
        }
        -m
    }
}

} // verus!
