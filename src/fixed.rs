//! Fixed-point two-dimensional vectors and their rotation.
use vstd::prelude::*;

verus! {

/// Fixed-point units in one map cell (and in the number 1): 2^32, so one
/// unit is about 2.3e-10 of a cell.
pub const ONE: i64 = 4294967296;

/// Largest length allowed for a direction or camera-plane vector (16 cells).
pub const MAX_LEN: i64 = 68719476736;

pub open spec fn abs(a: int) -> int {
    if a < 0 {
        -a
    } else {
        a
    }
}

/// Division by `ONE` that rounds toward zero, as Rust's `/` does.
pub open spec fn div_one(a: int) -> int {
    if a >= 0 {
        a / (ONE as int)
    } else {
        -((-a) / (ONE as int))
    }
}

/// A point or a vector, in fixed-point units.
#[derive(Clone, Copy, Debug, PartialEq, Eq, Structural)]
pub struct Vec2 {
    pub x: i64,
    pub y: i64,
}

/// The cosine and sine of an angle, in fixed-point units.
#[derive(Clone, Copy, Debug, PartialEq, Eq, Structural)]
pub struct Turn {
    pub cos: i64,
    pub sin: i64,
}

impl Vec2 {
    pub fn new(x: i64, y: i64) -> (r: Vec2)
        ensures
            r.x == x,
            r.y == y,
    {
        Vec2 { x, y }
    }

    /// The squared length, in squared fixed-point units.
    pub open spec fn len_sq(self) -> int {
        self.x * self.x + self.y * self.y
    }

    /// Short enough that the ray caster's arithmetic cannot overflow.
    pub open spec fn bounded(self) -> bool {
        self.len_sq() <= MAX_LEN * MAX_LEN
    }

    /// The vector turned by `t`, each coordinate rounded toward zero.
    pub open spec fn rotated(self, t: Turn) -> Vec2 {
        Vec2 {
            x: div_one(self.x * t.cos - self.y * t.sin) as i64,
            y: div_one(self.x * t.sin + self.y * t.cos) as i64,
        }
    }

    /// The squared length of the vector with each coordinate moved one
    /// unit away from zero: an upper bound of `(|v| + √2 units)²`.
    pub open spec fn widened_len_sq(self) -> int {
        (abs(self.x as int) + 1) * (abs(self.x as int) + 1) + (abs(self.y as int) + 1) * (abs(
            self.y as int,
        ) + 1)
    }
}

impl Turn {
    /// A rotation matrix as close to length one as rounding allows:
    /// `(1 - 2 / ONE)² <= cos² + sin² <= 1`.
    pub open spec fn valid(self) -> bool {
        &&& (ONE - 2) * (ONE - 2) <= self.cos * self.cos + self.sin * self.sin
        &&& self.cos * self.cos + self.sin * self.sin <= ONE * ONE
    }

    /// No turn at all.
    pub fn identity() -> (t: Turn)
        ensures
            t.cos == ONE,
            t.sin == 0,
            t.valid(),
    {
        Turn { cos: ONE, sin: 0 }
    }

    pub fn is_valid(&self) -> (r: bool)
        ensures
            r == self.valid(),
    {
        if self.cos < -ONE || self.cos > ONE || self.sin < -ONE || self.sin > ONE {
            proof {
                if self.cos < -ONE || self.cos > ONE {
                    lemma_sq_exceeds(self.cos as int, self.sin as int);
                } else {
                    lemma_sq_exceeds(self.sin as int, self.cos as int);
                }
            }
            return false;
        }
        let c = self.cos as i128;
        let s = self.sin as i128;
        assert(0 <= c * c <= 0x1_0000_0000 * 0x1_0000_0000 && 0 <= s * s <= 0x1_0000_0000
            * 0x1_0000_0000) by (nonlinear_arith)
            requires
                -0x1_0000_0000 <= c <= 0x1_0000_0000,
                -0x1_0000_0000 <= s <= 0x1_0000_0000,
        ;
        let n = c * c + s * s;
        let one = ONE as i128;
        (one - 2) * (one - 2) <= n && n <= one * one
    }
}

proof fn lemma_sq_exceeds(a: int, b: int)
    requires
        a < -ONE || a > ONE,
    ensures
        a * a + b * b > ONE * ONE,
{
    assert(a * a + b * b > ONE * ONE) by (nonlinear_arith)
        requires
            a < -0x1_0000_0000 || a > 0x1_0000_0000,
            ONE == 0x1_0000_0000,
    ;
}

fn div_one_exec(a: i128) -> (r: i64)
    requires
        -(MAX_LEN * ONE) <= a <= MAX_LEN * ONE,
    ensures
        r == div_one(a as int),
{
    let one = ONE as i128;
    let q = if a >= 0 {
        a / one
    } else {
        -((-a) / one)
    };
    let ghost ai = a as int;
    let ghost oi = ONE as int;
    let ghost qi = q as int;
    assert(-(MAX_LEN as int) <= qi <= MAX_LEN) by (nonlinear_arith)
        requires
            ai >= 0 ==> qi == ai / oi,
            ai < 0 ==> qi == -((-ai) / oi),
            -(MAX_LEN * oi) <= ai <= MAX_LEN * oi,
            oi > 0,
    ;
    q as i64
}

proof fn lemma_div_one_lower(a: int)
    ensures
        (abs(div_one(a)) + 1) * ONE > abs(a),
        abs(div_one(a)) >= 0,
{
    let b = abs(a);
    let p = b / (ONE as int);
    assert(b < (p + 1) * ONE && p >= 0) by (nonlinear_arith)
        requires
            b >= 0,
            p == b / (ONE as int),
            ONE > 0,
    ;
    assert(abs(div_one(a)) == p);
}

proof fn lemma_div_one_sq(a: int)
    ensures
        div_one(a) * div_one(a) * (ONE * ONE) <= a * a,
{
    let q = div_one(a);
    let b = if a >= 0 { a } else { -a };
    assert(b >= 0);
    let p = b / (ONE as int);
    assert(0 <= p * ONE <= b) by (nonlinear_arith)
        requires
            b >= 0,
            p == b / (ONE as int),
    ;
    assert(q * q == p * p) by (nonlinear_arith)
        requires
            q == p || q == -p,
    ;
    assert(p * p * (ONE * ONE) <= b * b) by (nonlinear_arith)
        requires
            0 <= p * ONE <= b,
    ;
    assert(b * b == a * a) by (nonlinear_arith)
        requires
            b == a || b == -a,
    ;
}

/// Turns `v` by the matrix of `t`, from the coordinates of `v` before the call.
pub fn rotate(v: Vec2, t: Turn) -> (r: Vec2)
    requires
        v.bounded(),
        t.valid(),
    ensures
        r == v.rotated(t),
        r.len_sq() <= v.len_sq(),
        r.widened_len_sq() * (ONE * ONE) >= v.len_sq() * ((ONE - 2) * (ONE - 2)),
{
    proof {
        lemma_rotate_shrinks(v, t);
        lemma_rotate_length(v, t);
    }
    let (x, y) = (v.x as i128, v.y as i128);
    let (c, s) = (t.cos as i128, t.sin as i128);
    let a = x * c - y * s;
    let b = x * s + y * c;
    Vec2 { x: div_one_exec(a), y: div_one_exec(b) }
}

proof fn lemma_rotation_identity(x: int, y: int, c: int, s: int)
    ensures
        (x * c - y * s) * (x * c - y * s) + (x * s + y * c) * (x * s + y * c) == (x * x + y * y) * (
        c * c + s * s),
{
    let p1 = x * c;
    let p2 = y * s;
    let p3 = x * s;
    let p4 = y * c;
    assert((p1 - p2) * (p1 - p2) + (p3 + p4) * (p3 + p4) == p1 * p1 + p2 * p2 + p3 * p3 + p4 * p4
        - 2 * (p1 * p2) + 2 * (p3 * p4)) by (nonlinear_arith);
    assert(p1 * p2 == p3 * p4) by (nonlinear_arith)
        requires
            p1 == x * c,
            p2 == y * s,
            p3 == x * s,
            p4 == y * c,
    ;
    assert(p1 * p1 + p3 * p3 == (x * x) * (c * c + s * s)) by (nonlinear_arith)
        requires
            p1 == x * c,
            p3 == x * s,
    ;
    assert(p2 * p2 + p4 * p4 == (y * y) * (c * c + s * s)) by (nonlinear_arith)
        requires
            p2 == y * s,
            p4 == y * c,
    ;
    assert((x * x) * (c * c + s * s) + (y * y) * (c * c + s * s) == (x * x + y * y) * (c * c + s
        * s)) by (nonlinear_arith);
}

/// Turning by a valid matrix shortens a vector by no more than rounding:
/// with each coordinate of the result moved one unit away from zero, it is
/// at least `1 - 2 / ONE` times as long as before. Together with
/// `lemma_rotate_shrinks`, the length changes by less than three units.
pub proof fn lemma_rotate_length(v: Vec2, t: Turn)
    requires
        v.bounded(),
        t.valid(),
    ensures
        v.rotated(t).widened_len_sq() * (ONE * ONE) >= v.len_sq() * ((ONE - 2) * (ONE - 2)),
{
    lemma_rotate_shrinks(v, t);
    let x = v.x as int;
    let y = v.y as int;
    let c = t.cos as int;
    let s = t.sin as int;
    let a = x * c - y * s;
    let b = x * s + y * c;
    let o = ONE as int;
    lemma_rotation_identity(x, y, c, s);
    lemma_div_one_lower(a);
    lemma_div_one_lower(b);
    let r = v.rotated(t);
    let ka = abs(div_one(a)) + 1;
    let kb = abs(div_one(b)) + 1;
    assert(abs(r.x as int) == abs(div_one(a)));
    assert(abs(r.y as int) == abs(div_one(b)));
    assert(abs(a) * abs(a) == a * a) by (nonlinear_arith)
        requires
            abs(a) == a || abs(a) == -a,
    ;
    assert((ka * o) * (ka * o) >= a * a) by (nonlinear_arith)
        requires
            ka * o > abs(a),
            abs(a) >= 0,
            abs(a) * abs(a) == a * a,
    ;
    assert(abs(b) * abs(b) == b * b) by (nonlinear_arith)
        requires
            abs(b) == b || abs(b) == -b,
    ;
    assert((kb * o) * (kb * o) >= b * b) by (nonlinear_arith)
        requires
            kb * o > abs(b),
            abs(b) >= 0,
            abs(b) * abs(b) == b * b,
    ;
    assert(0 <= x * x + y * y) by (nonlinear_arith);
    assert((x * x + y * y) * ((o - 2) * (o - 2)) <= (x * x + y * y) * (c * c + s * s)) by (
    nonlinear_arith)
        requires
            0 <= x * x + y * y,
            (o - 2) * (o - 2) <= c * c + s * s,
    ;
    assert((ka * ka + kb * kb) * (o * o) == (ka * o) * (ka * o) + (kb * o) * (kb * o)) by (
    nonlinear_arith);
}

proof fn lemma_abs_from_sq(a: int, b: int, m: int)
    requires
        a * a + b * b <= m * m,
        m > 0,
    ensures
        -m <= a <= m,
{
    assert(0 <= b * b) by (nonlinear_arith);
    assert(-m <= a <= m) by (nonlinear_arith)
        requires
            a * a <= m * m,
            m > 0,
    ;
}

pub(crate) proof fn lemma_vec_components(v: Vec2)
    requires
        v.bounded(),
    ensures
        -MAX_LEN <= v.x <= MAX_LEN,
        -MAX_LEN <= v.y <= MAX_LEN,
{
    lemma_abs_from_sq(v.x as int, v.y as int, MAX_LEN as int);
    lemma_abs_from_sq(v.y as int, v.x as int, MAX_LEN as int);
}

pub(crate) proof fn lemma_turn_components(t: Turn)
    requires
        t.valid(),
    ensures
        -ONE <= t.cos <= ONE,
        -ONE <= t.sin <= ONE,
{
    lemma_abs_from_sq(t.cos as int, t.sin as int, ONE as int);
    lemma_abs_from_sq(t.sin as int, t.cos as int, ONE as int);
}

proof fn lemma_product_bound(a: int, c: int)
    requires
        -MAX_LEN <= a <= MAX_LEN,
        -ONE <= c <= ONE,
    ensures
        -(MAX_LEN * ONE) <= a * c <= MAX_LEN * ONE,
{
    assert(-(MAX_LEN * ONE) <= a * c <= MAX_LEN * ONE) by (nonlinear_arith)
        requires
            -MAX_LEN <= a <= MAX_LEN,
            -ONE <= c <= ONE,
    ;
}

/// Turning a vector by a matrix whose rows have length at most one never
/// makes it longer; in particular a bounded vector stays bounded.
pub proof fn lemma_rotate_shrinks(v: Vec2, t: Turn)
    requires
        v.bounded(),
        t.valid(),
    ensures
        v.rotated(t).len_sq() <= v.len_sq(),
        v.rotated(t).bounded(),
        -(MAX_LEN * ONE) <= v.x * t.cos - v.y * t.sin <= MAX_LEN * ONE,
        -(MAX_LEN * ONE) <= v.x * t.sin + v.y * t.cos <= MAX_LEN * ONE,
        -(MAX_LEN * ONE) <= v.x * t.cos <= MAX_LEN * ONE,
        -(MAX_LEN * ONE) <= v.y * t.sin <= MAX_LEN * ONE,
        -(MAX_LEN * ONE) <= v.x * t.sin <= MAX_LEN * ONE,
        -(MAX_LEN * ONE) <= v.y * t.cos <= MAX_LEN * ONE,
{
    lemma_vec_components(v);
    lemma_turn_components(t);
    lemma_product_bound(v.x as int, t.cos as int);
    lemma_product_bound(v.y as int, t.sin as int);
    lemma_product_bound(v.x as int, t.sin as int);
    lemma_product_bound(v.y as int, t.cos as int);
    let x = v.x as int;
    let y = v.y as int;
    let c = t.cos as int;
    let s = t.sin as int;
    let a = x * c - y * s;
    let b = x * s + y * c;
    let o = ONE as int;
    let m = MAX_LEN as int;
    lemma_rotation_identity(x, y, c, s);
    assert(0 <= x * x + y * y) by (nonlinear_arith);
    assert(0 <= c * c + s * s) by (nonlinear_arith);
    assert((x * x + y * y) * (c * c + s * s) <= (x * x + y * y) * (o * o)) by (nonlinear_arith)
        requires
            0 <= x * x + y * y,
            c * c + s * s <= o * o,
    ;
    assert(0 <= b * b) by (nonlinear_arith);
    assert(0 <= a * a) by (nonlinear_arith);
    assert(a * a <= (m * o) * (m * o)) by (nonlinear_arith)
        requires
            a * a + b * b <= (x * x + y * y) * (o * o),
            x * x + y * y <= m * m,
            0 <= b * b,
    ;
    assert(b * b <= (m * o) * (m * o)) by (nonlinear_arith)
        requires
            a * a + b * b <= (x * x + y * y) * (o * o),
            x * x + y * y <= m * m,
            0 <= a * a,
    ;
    assert(-(m * o) <= a <= m * o) by (nonlinear_arith)
        requires
            a * a <= (m * o) * (m * o),
            m * o > 0,
    ;
    assert(-(m * o) <= b <= m * o) by (nonlinear_arith)
        requires
            b * b <= (m * o) * (m * o),
            m * o > 0,
    ;
    lemma_div_one_sq(a);
    lemma_div_one_sq(b);
    let qa = div_one(a);
    let qb = div_one(b);
    assert(-(m * o) / o <= qa <= (m * o) / o);
    assert(-(m * o) / o <= qb <= (m * o) / o);
    assert(v.rotated(t).x == qa);
    assert(v.rotated(t).y == qb);
    assert((qa * qa + qb * qb) * (o * o) <= (x * x + y * y) * (o * o)) by (nonlinear_arith)
        requires
            qa * qa * (o * o) <= a * a,
            qb * qb * (o * o) <= b * b,
            a * a + b * b <= (x * x + y * y) * (o * o),
    ;
    assert(qa * qa + qb * qb <= x * x + y * y) by (nonlinear_arith)
        requires
            (qa * qa + qb * qb) * (o * o) <= (x * x + y * y) * (o * o),
            o > 0,
    ;
}

} // verus!
