//! Fixed-point 2D geometry: points, vectors, rotation by an angle in
//! thousandths of a degree, and an integer square root.
use vstd::prelude::*;
use vstd::math::abs;

verus! {

/// Sub-pixel units in one pixel.
pub const UNIT: i64 = 1000;

/// Largest coordinate magnitude, in sub-pixel units, that any position,
/// velocity or acceleration of a well-formed entity may have.
pub const COORD_MAX: i64 = 1_000_000_000;

/// Fixed-point one for sines and cosines.
pub const TRIG_ONE: i64 = 1_000_000;

/// Thousandths of a degree in one degree.
pub const MDEG: i64 = 1000;

/// A full turn, in thousandths of a degree.
pub const FULL_TURN: i64 = 360_000;

/// Half a turn, in thousandths of a degree.
pub const HALF_TURN: i64 = 180_000;

/// A quarter turn, in thousandths of a degree.
pub const QUARTER_TURN: i64 = 90_000;

/// An axis-aligned rectangle; width and height may be negative.
#[derive(Clone, Copy, PartialEq, Eq, Structural, Debug)]
pub struct Rect {
    pub x: i64,
    pub y: i64,
    pub width: i64,
    pub height: i64,
}

/// A position in sub-pixel units.
#[derive(Clone, Copy, PartialEq, Eq, Structural, Debug)]
pub struct Point {
    pub x: i64,
    pub y: i64,
}

/// A displacement in sub-pixel units (per tick for velocities, per tick
/// squared for accelerations).
#[derive(Clone, Copy, PartialEq, Eq, Structural, Debug)]
pub struct Vector {
    pub x: i64,
    pub y: i64,
}

/// Every coordinate of `(x, y)` lies in `[-lim, lim]`.
pub open spec fn within(x: int, y: int, lim: int) -> bool {
    -lim <= x <= lim && -lim <= y <= lim
}

/// Integer division of `a` by a positive `b`, rounded toward zero.
pub open spec fn div_to_zero(a: int, b: int) -> int {
    if a >= 0 {
        a / b
    } else {
        -((-a) / b)
    }
}

/// The angle `a` brought into `[0, FULL_TURN)`.
pub open spec fn norm_angle(a: int) -> int {
    a % (FULL_TURN as int)
}

/// Bhaskara's rational approximation of the sine on `[0, HALF_TURN]`,
/// scaled by `TRIG_ONE`: `4x(180 - x) / (40500 - x(180 - x))` for `x` in
/// degrees, rounded down.
pub open spec fn half_sine(m: int) -> int {
    let p = m * (HALF_TURN - m);
    (TRIG_ONE * 4 * p) / (40_500_000_000 - p)
}

/// Fixed-point sine of an angle in thousandths of a degree.
pub open spec fn sine(a: int) -> int {
    let m = norm_angle(a);
    if m < HALF_TURN {
        half_sine(m)
    } else {
        -half_sine(m - HALF_TURN)
    }
}

/// Fixed-point cosine of an angle in thousandths of a degree.
pub open spec fn cosine(a: int) -> int {
    sine(a + QUARTER_TURN)
}

/// The vector `(x, y)` rotated counter-clockwise by `a` thousandths of a
/// degree, each coordinate rounded toward zero.
pub open spec fn rotated(x: int, y: int, a: int) -> (int, int) {
    (
        div_to_zero(x * cosine(a) - y * sine(a), TRIG_ONE as int),
        div_to_zero(x * sine(a) + y * cosine(a), TRIG_ONE as int),
    )
}

proof fn lemma_half_sine_range(m: int)
    requires
        0 <= m <= HALF_TURN,
    ensures
        0 <= half_sine(m) <= TRIG_ONE,
        m == 0 ==> half_sine(m) == 0,
        m == HALF_TURN ==> half_sine(m) == 0,
        m == QUARTER_TURN ==> half_sine(m) == TRIG_ONE,
{
    let p = m * (HALF_TURN - m);
    assert(0 <= p <= 8_100_000_000) by (nonlinear_arith)
        requires
            p == m * (180_000 - m),
            0 <= m <= 180_000,
    ;
    let num = TRIG_ONE * 4 * p;
    let den = 40_500_000_000 - p;
    assert(den > 0);
    assert(0 <= num <= TRIG_ONE * den) by (nonlinear_arith)
        requires
            num == 1_000_000 * 4 * p,
            den == 40_500_000_000 - p,
            0 <= p <= 8_100_000_000,
    ;
    assert(0 <= num / den <= TRIG_ONE) by (nonlinear_arith)
        requires
            0 <= num <= 1_000_000 * den,
            den > 0,
    ;
    if m == QUARTER_TURN {
        assert(p == 8_100_000_000) by (nonlinear_arith)
            requires
                p == m * (180_000 - m),
                m == 90_000,
        ;
        assert(num == TRIG_ONE * den);
        vstd::arithmetic::div_mod::lemma_div_by_multiple(TRIG_ONE as int, den);
    }
    if m == 0 || m == HALF_TURN {
        assert(p == 0) by (nonlinear_arith)
            requires
                p == m * (180_000 - m),
                m == 0 || m == 180_000,
        ;
    }
}

/// Sines and cosines lie in `[-TRIG_ONE, TRIG_ONE]`.
pub proof fn lemma_sine_range(a: int)
    ensures
        -TRIG_ONE <= sine(a) <= TRIG_ONE,
        -TRIG_ONE <= cosine(a) <= TRIG_ONE,
{
    let m = norm_angle(a);
    if m < HALF_TURN {
        lemma_half_sine_range(m);
    } else {
        lemma_half_sine_range(m - HALF_TURN);
    }
    let m2 = norm_angle(a + QUARTER_TURN);
    if m2 < HALF_TURN {
        lemma_half_sine_range(m2);
    } else {
        lemma_half_sine_range(m2 - HALF_TURN);
    }
}

pub(crate) proof fn lemma_div_to_zero_bound(n: int, d: int, k: int)
    requires
        d > 0,
        k >= 0,
        -k * d <= n <= k * d,
    ensures
        -k <= div_to_zero(n, d) <= k,
{
    if n >= 0 {
        vstd::arithmetic::div_mod::lemma_div_is_ordered(n, k * d, d);
        vstd::arithmetic::div_mod::lemma_div_by_multiple(k, d);
        vstd::arithmetic::div_mod::lemma_div_pos_is_pos(n, d);
    } else {
        assert(-n <= k * d) by (nonlinear_arith)
            requires
                -k * d <= n,
        ;
        vstd::arithmetic::div_mod::lemma_div_is_ordered(-n, k * d, d);
        vstd::arithmetic::div_mod::lemma_div_by_multiple(k, d);
        vstd::arithmetic::div_mod::lemma_div_pos_is_pos(-n, d);
    }
}

/// A rotated vector has no coordinate larger than the sum of the original
/// coordinates' magnitudes.
pub proof fn lemma_rotated_bound(x: int, y: int, a: int)
    ensures
        within(rotated(x, y, a).0, rotated(x, y, a).1, (abs(x) + abs(y)) as int),
{
    lemma_sine_range(a);
    let c = cosine(a);
    let s = sine(a);
    let k = (abs(x) + abs(y)) as int;
    assert(-k * TRIG_ONE <= x * c - y * s <= k * TRIG_ONE) by (nonlinear_arith)
        requires
            -1_000_000 <= c <= 1_000_000,
            -1_000_000 <= s <= 1_000_000,
            k == abs(x) + abs(y),
    ;
    assert(-k * TRIG_ONE <= x * s + y * c <= k * TRIG_ONE) by (nonlinear_arith)
        requires
            -1_000_000 <= c <= 1_000_000,
            -1_000_000 <= s <= 1_000_000,
            k == abs(x) + abs(y),
    ;
    lemma_div_to_zero_bound(x * c - y * s, TRIG_ONE as int, k);
    lemma_div_to_zero_bound(x * s + y * c, TRIG_ONE as int, k);
}

/// Sine, scaled by `TRIG_ONE`, of `a` thousandths of a degree.
pub fn sine_of(a: i64) -> (r: i64)
    ensures
        r == sine(a as int),
        -TRIG_ONE <= r <= TRIG_ONE,
{
    let mut m: i64 = a % FULL_TURN;
    if m < 0 {
        m = m + FULL_TURN;
    }
    assert(m == norm_angle(a as int));
    let neg = m >= HALF_TURN;
    if neg {
        m = m - HALF_TURN;
    }
    proof {
        lemma_half_sine_range(m as int);
    }
    assert(0 <= m * (HALF_TURN - m) <= 8_100_000_000) by (nonlinear_arith)
        requires
            0 <= m <= 180_000,
    ;
    let p: i64 = m * (HALF_TURN - m);
    assert(0 <= TRIG_ONE * 4 * p <= 32_400_000_000_000_000) by (nonlinear_arith)
        requires
            0 <= p <= 8_100_000_000,
    ;
    let h: i64 = (TRIG_ONE * 4 * p) / (40_500_000_000 - p);
    if neg {
        -h
    } else {
        h
    }
}

/// Cosine, scaled by `TRIG_ONE`, of `a` thousandths of a degree.
pub fn cosine_of(a: i64) -> (r: i64)
    ensures
        r == cosine(a as int),
        -TRIG_ONE <= r <= TRIG_ONE,
{
    let mut m: i64 = a % FULL_TURN;
    if m < 0 {
        m = m + FULL_TURN;
    }
    proof {
        lemma_quarter_shift(a as int, m as int);
    }
    sine_of(m + QUARTER_TURN)
}

proof fn lemma_quarter_shift(a: int, m: int)
    requires
        m == norm_angle(a),
    ensures
        sine(a + QUARTER_TURN) == sine(m + QUARTER_TURN),
{
    vstd::arithmetic::div_mod::lemma_add_mod_noop(a, QUARTER_TURN as int, FULL_TURN as int);
    vstd::arithmetic::div_mod::lemma_add_mod_noop(m, QUARTER_TURN as int, FULL_TURN as int);
    vstd::arithmetic::div_mod::lemma_mod_twice(a, FULL_TURN as int);
}

/// `a / b` rounded toward zero, for a positive `b`.
pub(crate) fn div_toward_zero(a: i64, b: i64) -> (r: i64)
    requires
        b > 0,
        a > i64::MIN,
    ensures
        r == div_to_zero(a as int, b as int),
{
    if a >= 0 {
        a / b
    } else {
        let q: i64 = (-a) / b;
        let ghost na: int = -(a as int);
        assert(0 <= (q as int) <= na) by (nonlinear_arith)
            requires
                q as int == na / (b as int),
                b > 0,
                na > 0,
        ;
        -q
    }
}

/// The integer square root of `n`, rounded down.
pub open spec fn floor_sqrt(n: nat) -> nat
    decreases n,
{
    if n == 0 {
        0
    } else {
        let r = 2 * floor_sqrt(n / 4);
        if (r + 1) * (r + 1) <= n {
            (r + 1) as nat
        } else {
            r
        }
    }
}

/// `floor_sqrt(n)` is the largest integer whose square does not exceed `n`.
pub proof fn lemma_floor_sqrt(n: nat)
    ensures
        floor_sqrt(n) * floor_sqrt(n) <= n,
        n < (floor_sqrt(n) + 1) * (floor_sqrt(n) + 1),
    decreases n,
{
    if n > 0 {
        let q = n / 4;
        lemma_floor_sqrt(q);
        let s = floor_sqrt(q);
        assert(4 * q <= n < 4 * q + 4);
        let r = 2 * s;
        assert(r * r <= n && n < (r + 2) * (r + 2)) by (nonlinear_arith)
            requires
                s * s <= q < (s + 1) * (s + 1),
                4 * q <= n < 4 * q + 4,
                r == 2 * s,
        ;
        if (r + 1) * (r + 1) <= n {
            let f = floor_sqrt(n);
            assert(f == r + 1);
            assert(f * f <= n);
            assert((f + 1) * (f + 1) == (r + 2) * (r + 2));
            assert(n < (f + 1) * (f + 1));
        } else {
            let f = floor_sqrt(n);
            assert(f == r);
            assert(f * f <= n);
            assert((f + 1) * (f + 1) == (r + 1) * (r + 1));
            assert(n < (f + 1) * (f + 1));
        }
    } else {
        let f = floor_sqrt(n);
        assert(f == 0);
        assert(n < (f + 1) * (f + 1)) by (nonlinear_arith)
            requires
                f == 0,
                n == 0,
        ;
    }
}

/// Integer square root, rounded down.
pub fn isqrt(n: u64) -> (r: u64)
    ensures
        r == floor_sqrt(n as nat),
        (r as int) * (r as int) <= n < (r as int + 1) * (r as int + 1),
    decreases n,
{
    proof {
        lemma_floor_sqrt(n as nat);
    }
    if n == 0 {
        0
    } else {
        let s = isqrt(n / 4);
        proof {
            lemma_floor_sqrt((n / 4) as nat);
            assert(s <= 0x8000_0000) by (nonlinear_arith)
                requires
                    (s as int) * (s as int) <= n / 4,
                    n / 4 < 0x4000_0000_0000_0000,
            ;
        }
        let r: u64 = 2 * s;
        assert((r as int + 1) * (r as int + 1) <= 0x2_0000_0004_0000_0001) by (nonlinear_arith)
            requires
                0 <= r <= 0x1_0000_0000,
        ;
        let next: u128 = (r as u128 + 1) * (r as u128 + 1);
        if next <= n as u128 {
            r + 1
        } else {
            r
        }
    }
}

/// Squared distance between `(fx, fy)` and `(tx, ty)`.
pub open spec fn dist_sq(fx: int, fy: int, tx: int, ty: int) -> int {
    (tx - fx) * (tx - fx) + (ty - fy) * (ty - fy)
}

/// An aimed vector has no coordinate larger than its length.
pub proof fn lemma_aimed_bound(fx: int, fy: int, tx: int, ty: int, mag: int)
    requires
        mag >= 0,
    ensures
        within(aimed(fx, fy, tx, ty, mag).0, aimed(fx, fy, tx, ty, mag).1, mag),
{
    let dx = tx - fx;
    let dy = ty - fy;
    let d2 = dist_sq(fx, fy, tx, ty);
    assert(d2 >= 0) by (nonlinear_arith)
        requires
            d2 == dx * dx + dy * dy,
    ;
    lemma_floor_sqrt(d2 as nat);
    let len = floor_sqrt(d2 as nat) as int;
    if len > 0 {
        assert(-len <= dx <= len && -len <= dy <= len) by (nonlinear_arith)
            requires
                d2 == dx * dx + dy * dy,
                d2 < (len + 1) * (len + 1),
                len >= 0,
        ;
        assert(-mag * len <= mag * dx <= mag * len) by (nonlinear_arith)
            requires
                -len <= dx <= len,
                mag >= 0,
        ;
        assert(-mag * len <= mag * dy <= mag * len) by (nonlinear_arith)
            requires
                -len <= dy <= len,
                mag >= 0,
        ;
        lemma_div_to_zero_bound(mag * dx, len, mag);
        lemma_div_to_zero_bound(mag * dy, len, mag);
    }
}

/// The vector of length `mag` (rounded toward zero) pointing from
/// `(fx, fy)` toward `(tx, ty)`; when the two coincide, heading zero.
pub open spec fn aimed(fx: int, fy: int, tx: int, ty: int, mag: int) -> (int, int) {
    let len = floor_sqrt(dist_sq(fx, fy, tx, ty) as nat) as int;
    if len == 0 {
        (mag, 0)
    } else {
        (div_to_zero(mag * (tx - fx), len), div_to_zero(mag * (ty - fy), len))
    }
}

impl Point {
    /// The origin.
    pub fn zero() -> (r: Point)
        ensures
            r.x == 0 && r.y == 0,
    {
        Point { x: 0, y: 0 }
    }

    /// Moves the point by `v`.
    pub fn add_assign(&mut self, v: Vector)
        requires
            i64::MIN <= old(self).x + v.x <= i64::MAX,
            i64::MIN <= old(self).y + v.y <= i64::MAX,
        ensures
            final(self).x == old(self).x + v.x,
            final(self).y == old(self).y + v.y,
    {
        self.x = self.x + v.x;
        self.y = self.y + v.y;
    }
}

impl Vector {
    pub fn new(x: i64, y: i64) -> (r: Vector)
        ensures
            r.x == x && r.y == y,
    {
        Vector { x, y }
    }

    /// The zero vector.
    pub fn zero() -> (r: Vector)
        ensures
            r.x == 0 && r.y == 0,
    {
        Vector { x: 0, y: 0 }
    }

    /// Adds `rhs` to this vector.
    pub fn add_assign(&mut self, rhs: Vector)
        requires
            i64::MIN <= old(self).x + rhs.x <= i64::MAX,
            i64::MIN <= old(self).y + rhs.y <= i64::MAX,
        ensures
            final(self).x == old(self).x + rhs.x,
            final(self).y == old(self).y + rhs.y,
    {
        self.x = self.x + rhs.x;
        self.y = self.y + rhs.y;
    }

    /// This vector rotated counter-clockwise by `deg` thousandths of a
    /// degree.
    pub fn rotate(&self, deg: i64) -> (r: Vector)
        requires
            within(self.x as int, self.y as int, 4 * COORD_MAX as int),
        ensures
            (r.x as int, r.y as int) == rotated(self.x as int, self.y as int, deg as int),
            within(r.x as int, r.y as int, (abs(self.x as int) + abs(self.y as int)) as int),
    {
        proof {
            lemma_rotated_bound(self.x as int, self.y as int, deg as int);
        }
        let c = cosine_of(deg);
        let s = sine_of(deg);
        let x = self.x;
        let y = self.y;
        assert(within(x * c, y * s, 4 * COORD_MAX * TRIG_ONE as int)) by (nonlinear_arith)
            requires
                within(x as int, y as int, 4 * COORD_MAX as int),
                -TRIG_ONE <= c <= TRIG_ONE,
                -TRIG_ONE <= s <= TRIG_ONE,
        ;
        assert(within(x * s, y * c, 4 * COORD_MAX * TRIG_ONE as int)) by (nonlinear_arith)
            requires
                within(x as int, y as int, 4 * COORD_MAX as int),
                -TRIG_ONE <= c <= TRIG_ONE,
                -TRIG_ONE <= s <= TRIG_ONE,
        ;
        let rx = div_toward_zero(x * c - y * s, TRIG_ONE);
        let ry = div_toward_zero(x * s + y * c, TRIG_ONE);
        Vector { x: rx, y: ry }
    }

    /// The vector of length `mag` at heading `deg` thousandths of a degree.
    pub fn from_deg_and_mag(deg: i64, mag: i64) -> (r: Vector)
        requires
            0 <= mag <= COORD_MAX,
        ensures
            (r.x as int, r.y as int) == rotated(mag as int, 0, deg as int),
            within(r.x as int, r.y as int, mag as int),
    {
        Vector { x: mag, y: 0 }.rotate(deg)
    }

    /// The vector of length `mag` pointing from `from` toward `to`, with
    /// heading zero when the two points coincide.
    pub fn aimed(from: &Point, to: &Point, mag: i64) -> (r: Vector)
        requires
            within(from.x as int, from.y as int, COORD_MAX as int),
            within(to.x as int, to.y as int, COORD_MAX as int),
            0 <= mag <= COORD_MAX,
        ensures
            (r.x as int, r.y as int) == aimed(
                from.x as int,
                from.y as int,
                to.x as int,
                to.y as int,
                mag as int,
            ),
            within(r.x as int, r.y as int, mag as int),
    {
        proof {
            lemma_aimed_bound(from.x as int, from.y as int, to.x as int, to.y as int, mag as int);
        }
        let dx: i64 = to.x - from.x;
        let dy: i64 = to.y - from.y;
        assert(0 <= dx * dx <= 4_000_000_000_000_000_000) by (nonlinear_arith)
            requires
                -2_000_000_000 <= dx <= 2_000_000_000,
        ;
        assert(0 <= dy * dy <= 4_000_000_000_000_000_000) by (nonlinear_arith)
            requires
                -2_000_000_000 <= dy <= 2_000_000_000,
        ;
        let d2: i64 = dx * dx + dy * dy;
        let len = isqrt(d2 as u64);
        if len == 0 {
            Vector { x: mag, y: 0 }
        } else {
            assert(within(mag * dx, mag * dy, 2_000_000_000_000_000_000)) by (nonlinear_arith)
                requires
                    within(dx as int, dy as int, 2_000_000_000),
                    0 <= mag <= 1_000_000_000,
            ;
            assert(len <= 3_000_000_000) by (nonlinear_arith)
                requires
                    (len as int) * (len as int) <= d2,
                    d2 <= 8_000_000_000_000_000_000,
            ;
            let l = len as i64;
            Vector { x: div_toward_zero(mag * dx, l), y: div_toward_zero(mag * dy, l) }
        }
    }
}

} // verus!
