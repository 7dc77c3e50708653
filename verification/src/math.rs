//! Fixed-point arithmetic and plane geometry.
//!
//! Every quantity of the simulation is an integer number of thousandths:
//! lengths in thousandths of a pixel, times in thousandths of a second and
//! speeds in thousandths of a pixel per second. Stored values are `i32`;
//! intermediate results are computed in wider integers, so no operation here
//! can overflow, and a result is brought back to `i32` by [`narrow`].

use vstd::prelude::*;

verus! {

/// Fixed-point units in one whole pixel, one second, or one pixel per second.
pub const SCALE: i32 = 1000;

/// A pair of fixed-point coordinates or extents.
#[derive(Clone, Copy, Debug, PartialEq, Eq, Structural)]
pub struct Vec2 {
    pub x: i32,
    pub y: i32,
}

impl Vec2 {
    /// The pair of `x` and `y`.
    pub fn new(x: i32, y: i32) -> (v: Vec2)
        ensures
            v == (Vec2 { x, y }),
    {
        Vec2 { x, y }
    }
}

/// An axis-aligned rectangle given by its top-left corner and its extent.
#[derive(Clone, Copy, Debug, PartialEq, Eq, Structural)]
pub struct Rect {
    pub x: i64,
    pub y: i64,
    pub w: i64,
    pub h: i64,
}

impl Rect {
    /// The rectangle with the top-left corner `(x, y)`, the width `w` and the height `h`.
    pub fn new(x: i64, y: i64, w: i64, h: i64) -> (r: Rect)
        ensures
            r == (Rect { x, y, w, h }),
    {
        Rect { x, y, w, h }
    }

    /// Where the rectangle begins from left to right.
    pub open spec fn left(&self) -> int {
        self.x as int
    }

    /// Where the rectangle ends from left to right.
    pub open spec fn right(&self) -> int {
        self.x + self.w
    }

    /// Where the rectangle begins from top to bottom.
    pub open spec fn top(&self) -> int {
        self.y as int
    }

    /// Where the rectangle ends from top to bottom.
    pub open spec fn bottom(&self) -> int {
        self.y + self.h
    }

    /// Two rectangles overlap when they share at least one point; rectangles
    /// that only touch along an edge or at a corner do overlap.
    pub open spec fn spec_overlaps(&self, other: &Rect) -> bool {
        &&& self.left() <= other.right()
        &&& self.right() >= other.left()
        &&& self.top() <= other.bottom()
        &&& self.bottom() >= other.top()
    }

    /// Computes [`Self::spec_overlaps`].
    #[verifier::when_used_as_spec(spec_overlaps)]
    pub fn overlaps(&self, other: &Rect) -> (b: bool)
        ensures
            b == self.spec_overlaps(other),
    {
        let left: i128 = self.x as i128;
        let right: i128 = self.x as i128 + self.w as i128;
        let top: i128 = self.y as i128;
        let bottom: i128 = self.y as i128 + self.h as i128;
        let other_left: i128 = other.x as i128;
        let other_right: i128 = other.x as i128 + other.w as i128;
        let other_top: i128 = other.y as i128;
        let other_bottom: i128 = other.y as i128 + other.h as i128;
        left <= other_right && right >= other_left && top <= other_bottom && bottom >= other_top
    }
}

/// The `i32` nearest to `v`.
pub open spec fn spec_narrow(v: int) -> i32 {
    if v < i32::MIN {
        i32::MIN
    } else if v > i32::MAX {
        i32::MAX
    } else {
        v as i32
    }
}

/// The `i32` nearest to `v`.
pub fn narrow(v: i128) -> (r: i32)
    ensures
        r == spec_narrow(v as int),
{
    if v < i32::MIN as i128 {
        i32::MIN
    } else if v > i32::MAX as i128 {
        i32::MAX
    } else {
        v as i32
    }
}

/// `v` limited to the interval from `low` to `high`. Where the interval is
/// empty, because `high` lies below `low`, it is `low` for a `v` below `low`
/// and `high` for any other.
pub open spec fn spec_clamp(v: int, low: int, high: int) -> int {
    if v < low {
        low
    } else if v > high {
        high
    } else {
        v
    }
}

/// `v` limited to the interval from `low` to `high`.
pub fn clamp(v: i64, low: i64, high: i64) -> (r: i64)
    ensures
        r == spec_clamp(v as int, low as int, high as int),
{
    if v < low {
        low
    } else if v > high {
        high
    } else {
        v
    }
}

/// The quotient of `a` by a positive `b`, rounded toward zero.
pub open spec fn trunc_div(a: int, b: int) -> int
    recommends
        b > 0,
{
    if a >= 0 {
        a / b
    } else {
        -((-a) / b)
    }
}

/// The product of two fixed-point numbers, as a fixed-point number rounded toward zero.
pub open spec fn scaled(a: int, b: int) -> int {
    trunc_div(a * b, SCALE as int)
}

/// The distance covered in the time `dt` at the speed `speed`. It is less
/// than a thousandth of what an `i64` can hold.
pub fn displacement(speed: i32, dt: u32) -> (d: i64)
    ensures
        d == scaled(speed as int, dt as int),
        -0x8000_0000_0000_0000 < d * SCALE < 0x8000_0000_0000_0000,
{
    let product: i64 = product(speed, dt);
    let d: i64 = product / (SCALE as i64);
    assert(-0x8000_0000_0000_0000 < d * 1000 < 0x8000_0000_0000_0000) by (nonlinear_arith)
        requires
            d == trunc_div(product as int, 1000),
            -0x8000_0000_0000_0000 < product < 0x8000_0000_0000_0000,
    ;
    d
}

fn product(speed: i32, dt: u32) -> (p: i64)
    ensures
        p == speed * dt,
        -0x8000_0000_0000_0000 < p < 0x8000_0000_0000_0000,
{
    assert(-0x8000_0000_0000_0000 < speed * dt < 0x8000_0000_0000_0000) by (nonlinear_arith)
        requires
            -0x8000_0000 <= speed < 0x8000_0000,
            0 <= dt < 0x1_0000_0000,
    ;
    (speed as i64) * (dt as i64)
}

/// Whether `r` is the square root of `n` rounded down.
pub open spec fn is_floor_sqrt(n: int, r: int) -> bool {
    0 <= r && r * r <= n < (r + 1) * (r + 1)
}

/// The square root of `n`, rounded down.
pub open spec fn floor_sqrt(n: int) -> int {
    choose|r: int| is_floor_sqrt(n, r)
}

/// At most one number is the rounded-down square root of `n`.
pub proof fn lemma_floor_sqrt_unique(n: int, r: int)
    requires
        is_floor_sqrt(n, r),
    ensures
        floor_sqrt(n) == r,
{
    let s = floor_sqrt(n);
    assert(is_floor_sqrt(n, s));
    assert(s == r) by (nonlinear_arith)
        requires
            0 <= r,
            0 <= s,
            r * r <= n < (r + 1) * (r + 1),
            s * s <= n < (s + 1) * (s + 1),
    ;
}

/// The square root of `n`, rounded down, by bisection.
pub fn isqrt(n: u128) -> (r: u64)
    ensures
        r == floor_sqrt(n as int),
        is_floor_sqrt(n as int, r as int),
{
    let mut lo: u128 = 0;
    let mut hi: u128 = 0x1_0000_0000_0000_0000;
    assert(n < hi * hi) by (nonlinear_arith)
        requires
            hi == 0x1_0000_0000_0000_0000u128,
            n <= u128::MAX,
    ;
    while hi - lo > 1
        invariant
            lo < hi <= 0x1_0000_0000_0000_0000u128,
            lo * lo <= n < hi * hi,
        decreases hi - lo,
    {
        let mid: u128 = lo + (hi - lo) / 2;
        assert(mid * mid <= u128::MAX) by (nonlinear_arith)
            requires
                0 <= mid < 0x1_0000_0000_0000_0000u128,
        ;
        if mid * mid <= n {
            lo = mid;
        } else {
            hi = mid;
        }
    }
    proof {
        lemma_floor_sqrt_unique(n as int, lo as int);
    }
    lo as u64
}

/// The size of `v` without its sign.
pub open spec fn size(v: int) -> int {
    if v < 0 {
        -v
    } else {
        v
    }
}

/// Whether `v` is one coordinate of the vector of the length `speed` along a
/// vector whose length has the square `n`: the coordinate `d` of that vector
/// times `speed`, divided by its length, rounded toward zero.
pub open spec fn is_along(v: int, d: int, n: int, speed: int) -> bool {
    &&& v * v * n <= (d * speed) * (d * speed)
    &&& (d * speed) * (d * speed) < (size(v) + 1) * (size(v) + 1) * n
    &&& d * speed >= 0 ==> v >= 0
    &&& d * speed <= 0 ==> v <= 0
}

/// The coordinate `d` of a vector whose length has the square `n`, times
/// `speed`, divided by the length of the vector, rounded toward zero. Zero
/// for a vector without length.
pub open spec fn along(d: int, n: int, speed: int) -> int {
    if n <= 0 {
        0
    } else {
        choose|v: int| is_along(v, d, n, speed)
    }
}

/// There is one such coordinate and no other.
pub proof fn lemma_along_unique(v: int, d: int, n: int, speed: int)
    requires
        n > 0,
        is_along(v, d, n, speed),
    ensures
        along(d, n, speed) == v,
{
    let w = along(d, n, speed);
    assert(is_along(w, d, n, speed));
    let p = (d * speed) * (d * speed);
    let a = size(v);
    let b = size(w);
    assert(v * v == a * a && w * w == b * b) by (nonlinear_arith)
        requires
            a == size(v),
            b == size(w),
    ;
    assert(a == b) by (nonlinear_arith)
        requires
            n > 0,
            0 <= a,
            0 <= b,
            a * a * n <= p < (a + 1) * (a + 1) * n,
            b * b * n <= p < (b + 1) * (b + 1) * n,
    ;
}

/// The vector of the length `speed` that points from `from` to `to`, each
/// coordinate rounded toward zero; a negative speed turns it around. It is
/// zero where the two points are the same.
pub open spec fn spec_directed(from: Vec2, to: Vec2, speed: i32) -> Vec2 {
    let dx = to.x - from.x;
    let dy = to.y - from.y;
    let n = dx * dx + dy * dy;
    Vec2 {
        x: spec_narrow(along(dx, n, speed as int)),
        y: spec_narrow(along(dy, n, speed as int)),
    }
}

/// Computes [`spec_directed`].
#[verifier::when_used_as_spec(spec_directed)]
pub fn directed(from: Vec2, to: Vec2, speed: i32) -> (v: Vec2)
    ensures
        v == spec_directed(from, to, speed),
{
    let dx: i64 = to.x as i64 - from.x as i64;
    let dy: i64 = to.y as i64 - from.y as i64;
    assert(0 <= dx * dx <= 0x1_0000_0000_0000_0000) by (nonlinear_arith)
        requires
            -0x1_0000_0000 < dx < 0x1_0000_0000,
    ;
    assert(0 <= dy * dy <= 0x1_0000_0000_0000_0000) by (nonlinear_arith)
        requires
            -0x1_0000_0000 < dy < 0x1_0000_0000,
    ;
    let n: u128 = ((dx as i128) * (dx as i128)) as u128 + ((dy as i128) * (dy as i128)) as u128;
    if n == 0 {
        Vec2 { x: 0, y: 0 }
    } else {
        Vec2 { x: part(dx, n, speed), y: part(dy, n, speed) }
    }
}

fn part(d: i64, n: u128, speed: i32) -> (r: i32)
    requires
        n > 0,
        -0x1_0000_0000 < d < 0x1_0000_0000,
    ensures
        r == spec_narrow(along(d as int, n as int, speed as int)),
{
    assert(-0x8000_0000_0000_0000 < d * speed < 0x8000_0000_0000_0000) by (nonlinear_arith)
        requires
            -0x1_0000_0000 < d < 0x1_0000_0000,
            -0x8000_0000 <= speed < 0x8000_0000,
    ;
    let product: i128 = (d as i128) * (speed as i128);
    assert(0 <= product * product < 0x4000_0000_0000_0000_0000_0000_0000_0000)
        by (nonlinear_arith)
        requires
            -0x8000_0000_0000_0000 < product < 0x8000_0000_0000_0000,
    ;
    let square: u128 = (product * product) as u128;
    let quotient: u128 = square / n;
    let root: u64 = isqrt(quotient);
    let v: i128 = if product >= 0 {
        root as i128
    } else {
        -(root as i128)
    };
    proof {
        let q = quotient as int;
        let r = root as int;
        vstd::arithmetic::div_mod::lemma_fundamental_div_mod(square as int, n as int);
        vstd::arithmetic::div_mod::lemma_mod_bound(square as int, n as int);
        assert(q * n <= square < (q + 1) * n) by (nonlinear_arith)
            requires
                square == n * q + (square as int) % (n as int),
                0 <= (square as int) % (n as int) < n,
        ;
        assert(r * r * n <= q * n) by (nonlinear_arith)
            requires
                r * r <= q,
                n > 0,
        ;
        assert((q + 1) * n <= (r + 1) * (r + 1) * n) by (nonlinear_arith)
            requires
                q + 1 <= (r + 1) * (r + 1),
                n > 0,
        ;
        assert(v * v == r * r) by (nonlinear_arith)
            requires
                v == r || v == -r,
        ;
        if product == 0 {
            assert(square == 0) by (nonlinear_arith)
                requires
                    square == product * product,
                    product == 0,
            ;
            assert(q == 0) by (nonlinear_arith)
                requires
                    q * n <= 0,
                    n > 0,
                    q >= 0,
            ;
            assert(r == 0) by (nonlinear_arith)
                requires
                    r * r <= 0,
                    r >= 0,
            ;
        }
        assert(is_along(v as int, d as int, n as int, speed as int));
        lemma_along_unique(v as int, d as int, n as int, speed as int);
    }
    narrow(v)
}

/// A directed vector is as long as the speed asks for, but for the rounding
/// of its coordinates: it is no longer, and it would be longer with either
/// coordinate one farther from zero.
pub proof fn lemma_directed_length(from: Vec2, to: Vec2, speed: i32)
    requires
        from != to,
        speed > i32::MIN,
    ensures
        ({
            let v = spec_directed(from, to, speed);
            &&& v.x * v.x + v.y * v.y <= speed * speed
            &&& speed * speed < (size(v.x as int) + 1) * (size(v.x as int) + 1) + (size(v.y as int)
                + 1) * (size(v.y as int) + 1)
        }),
{
    let dx = to.x - from.x;
    let dy = to.y - from.y;
    let n = dx * dx + dy * dy;
    let s = speed as int;
    assert(n > 0) by (nonlinear_arith)
        requires
            n == dx * dx + dy * dy,
            dx != 0 || dy != 0,
    ;
    let x = along(dx, n, s);
    let y = along(dy, n, s);
    assert(is_along(x, dx, n, s)) by {
        lemma_along_exists(dx, dy, s);
    }
    assert(is_along(y, dy, n, s)) by {
        lemma_along_exists(dy, dx, s);
        assert(dy * dy + dx * dx == n);
    }
    let a = size(x);
    let b = size(y);
    assert(x * x == a * a && y * y == b * b) by (nonlinear_arith)
        requires
            a == size(x),
            b == size(y),
    ;
    assert((dx * s) * (dx * s) + (dy * s) * (dy * s) == n * (s * s)) by (nonlinear_arith)
        requires
            n == dx * dx + dy * dy,
    ;
    assert(a * a + b * b <= s * s) by (nonlinear_arith)
        requires
            n > 0,
            a * a * n + b * b * n <= n * (s * s),
    ;
    assert(s * s < (a + 1) * (a + 1) + (b + 1) * (b + 1)) by (nonlinear_arith)
        requires
            n > 0,
            n * (s * s) < (a + 1) * (a + 1) * n + (b + 1) * (b + 1) * n,
    ;
    let m = size(s);
    assert(m * m == s * s) by (nonlinear_arith)
        requires
            m == size(s),
    ;
    assert(a <= size(s)) by (nonlinear_arith)
        requires
            a * a + b * b <= s * s,
            0 <= a,
            0 <= b,
            size(s) >= 0,
            size(s) * size(s) == s * s,
    ;
    assert(b <= size(s)) by (nonlinear_arith)
        requires
            a * a + b * b <= s * s,
            0 <= a,
            0 <= b,
            size(s) >= 0,
            size(s) * size(s) == s * s,
    ;
}

/// There is such a coordinate for every vector that has a length.
pub proof fn lemma_along_exists(d: int, other: int, speed: int)
    requires
        d != 0 || other != 0,
    ensures
        is_along(along(d, d * d + other * other, speed), d, d * d + other * other, speed),
{
    let n = d * d + other * other;
    assert(n > 0) by (nonlinear_arith)
        requires
            n == d * d + other * other,
            d != 0 || other != 0,
    ;
    let p = d * speed;
    let square = p * p;
    assert(square >= 0) by (nonlinear_arith)
        requires
            square == p * p,
    ;
    let q = square / n;
    vstd::arithmetic::div_mod::lemma_fundamental_div_mod(square, n);
    vstd::arithmetic::div_mod::lemma_mod_bound(square, n);
    assert(q * n <= square < (q + 1) * n) by (nonlinear_arith)
        requires
            square == n * q + square % n,
            0 <= square % n < n,
    ;
    assert(q >= 0) by (nonlinear_arith)
        requires
            square < (q + 1) * n,
            square >= 0,
            n > 0,
    ;
    lemma_floor_sqrt_exists(q);
    let r = floor_sqrt(q);
    let v = if p >= 0 {
        r
    } else {
        -r
    };
    assert(r * r * n <= q * n) by (nonlinear_arith)
        requires
            r * r <= q,
            n > 0,
    ;
    assert((q + 1) * n <= (r + 1) * (r + 1) * n) by (nonlinear_arith)
        requires
            q + 1 <= (r + 1) * (r + 1),
            n > 0,
    ;
    assert(v * v == r * r) by (nonlinear_arith)
        requires
            v == r || v == -r,
    ;
    if p == 0 {
        assert(square == 0) by (nonlinear_arith)
            requires
                square == p * p,
                p == 0,
        ;
        assert(q == 0) by (nonlinear_arith)
            requires
                q * n <= square,
                square == 0,
                n > 0,
                q >= 0,
        ;
        assert(r == 0) by (nonlinear_arith)
            requires
                r * r <= q,
                q == 0,
                r >= 0,
        ;
    }
    assert(is_along(v, d, n, speed));
}

/// Every number that is not negative has a square root rounded down.
pub proof fn lemma_floor_sqrt_exists(n: int)
    requires
        n >= 0,
    ensures
        is_floor_sqrt(n, floor_sqrt(n)),
    decreases n,
{
    if n == 0 {
        assert(is_floor_sqrt(0, 0));
    } else {
        lemma_floor_sqrt_exists(n - 1);
        let r = floor_sqrt(n - 1);
        if (r + 1) * (r + 1) <= n {
            assert((r + 1) * (r + 1) == n);
            assert(n < (r + 2) * (r + 2)) by (nonlinear_arith)
                requires
                    n == (r + 1) * (r + 1),
                    r >= 0,
            ;
            assert(is_floor_sqrt(n, r + 1));
        } else {
            assert(is_floor_sqrt(n, r));
        }
    }
}

} // verus!
