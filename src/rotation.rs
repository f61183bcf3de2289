//! Fixed-point rotation of an integer motion vector.
//!
//! A rotation is held as its sine and cosine scaled by `SCALE` and rounded to
//! integers. Applying it computes the exact rational product and rounds half
//! away from zero, so the result depends on the integers alone.
use vstd::prelude::*;
use vstd::arithmetic::div_mod::lemma_fundamental_div_mod;

verus! {

/// Fixed-point scale of the sine and cosine: `2^40`.
pub const SCALE: i64 = 1099511627776;

/// Slack allowed between `sin^2 + cos^2` and `SCALE^2`, in units of `SCALE`.
pub const SLACK: i64 = 4;

/// Rounds `n / d` to the nearest integer, halves away from zero.
pub open spec fn round_div(n: int, d: int) -> int
    recommends
        d > 0,
{
    if n >= 0 {
        (2 * n + d) / (2 * d)
    } else {
        -((-2 * n + d) / (2 * d))
    }
}

/// The value of an `i32` that `v` saturates to.
pub open spec fn clamp_i32(v: int) -> int {
    if v < i32::MIN {
        i32::MIN as int
    } else if v > i32::MAX {
        i32::MAX as int
    } else {
        v
    }
}

/// A rotation by an angle, as `sin` and `cos` times `SCALE`.
///
/// It maps `(dx, dy)` to `(dx cos - dy sin, dx sin + dy cos)`: counter-clockwise
/// with the Y axis pointing up. Relative pointer motion has Y pointing down,
/// so on screen a positive angle turns motion clockwise: a quarter turn sends
/// `(10, 0)` to `(0, 10)`.
#[derive(Clone, Copy, Debug, PartialEq, Eq)]
pub struct Rotation {
    pub sin_q: i64,
    pub cos_q: i64,
}

impl Rotation {
    /// Both factors lie in `[-SCALE, SCALE]`, and `sin^2 + cos^2` is within
    /// `SLACK * SCALE` of `SCALE^2`: the pair is the rounding of a true angle.
    pub open spec fn wf(self) -> bool {
        &&& -SCALE <= self.sin_q <= SCALE
        &&& -SCALE <= self.cos_q <= SCALE
        &&& SCALE * SCALE - SLACK * SCALE <= self.sin_q * self.sin_q + self.cos_q * self.cos_q
        &&& self.sin_q * self.sin_q + self.cos_q * self.cos_q <= SCALE * SCALE + SLACK * SCALE
    }

    /// The rotation by the opposite angle.
    pub open spec fn inverse(self) -> Rotation {
        Rotation { sin_q: (-self.sin_q) as i64, cos_q: self.cos_q }
    }

    /// X component of `(dx, dy)` rotated, before saturation.
    pub open spec fn rotated_x(self, dx: int, dy: int) -> int {
        round_div(dx * self.cos_q - dy * self.sin_q, SCALE as int)
    }

    /// Y component of `(dx, dy)` rotated, before saturation.
    pub open spec fn rotated_y(self, dx: int, dy: int) -> int {
        round_div(dx * self.sin_q + dy * self.cos_q, SCALE as int)
    }

    /// The rotation by zero degrees.
    pub fn identity() -> (r: Rotation)
        ensures
            r.wf(),
            r.sin_q == 0,
            r.cos_q == SCALE,
    {
        let r = Rotation { sin_q: 0, cos_q: SCALE };
        proof {
            lemma_scale_square();
        }
        r
    }

    /// Builds a rotation from its scaled sine and cosine; `None` when the
    /// pair is not the rounding of an angle (see `wf`).
    pub fn from_fixed(sin_q: i64, cos_q: i64) -> (r: Option<Rotation>)
        ensures
            r == (if (Rotation { sin_q, cos_q }).wf() {
                Some(Rotation { sin_q, cos_q })
            } else {
                None
            }),
    {
        if sin_q < -SCALE || sin_q > SCALE || cos_q < -SCALE || cos_q > SCALE {
            return None;
        }
        let s = sin_q as i128;
        let c = cos_q as i128;
        let k = SCALE as i128;
        proof {
            lemma_scale_square();
            lemma_square_bound(s as int);
            lemma_square_bound(c as int);
        }
        let norm = s * s + c * c;
        let lo = k * k - (SLACK as i128) * k;
        let hi = k * k + (SLACK as i128) * k;
        if lo <= norm && norm <= hi {
            Some(Rotation { sin_q, cos_q })
        } else {
            None
        }
    }

    /// Rotates `(dx, dy)`; each component is rounded half away from zero
    /// and saturated to the `i32` range.
    pub fn rotate(&self, dx: i32, dy: i32) -> (r: (i32, i32))
        requires
            self.wf(),
        ensures
            r.0 == clamp_i32(self.rotated_x(dx as int, dy as int)),
            r.1 == clamp_i32(self.rotated_y(dx as int, dy as int)),
    {
        let x = dx as i128;
        let y = dy as i128;
        let s = self.sin_q as i128;
        let c = self.cos_q as i128;
        proof {
            lemma_product_bound(x, c);
            lemma_product_bound(y, s);
            lemma_product_bound(x, s);
            lemma_product_bound(y, c);
        }
        let nx = x * c - y * s;
        let ny = x * s + y * c;
        (saturate(round_div_exec(nx)), saturate(round_div_exec(ny)))
    }
}

proof fn lemma_scale_square()
    ensures
        SCALE * SCALE == 0x1_0000_0000_0000_0000_0000,
{
    assert(1099511627776int * 1099511627776int == 0x1_0000_0000_0000_0000_0000int);
}

proof fn lemma_square_bound(v: int)
    requires
        -SCALE <= v <= SCALE,
    ensures
        0 <= v * v <= 0x1_0000_0000_0000_0000_0000,
{
    assert(0 <= v * v <= 0x1_0000_0000_0000_0000_0000) by (nonlinear_arith)
        requires
            -1099511627776 <= v <= 1099511627776,
    ;
}

proof fn lemma_product_bound(a: i128, b: i128)
    requires
        i32::MIN <= a <= i32::MAX,
        -SCALE <= b <= SCALE,
    ensures
        -0x8000_0000 * SCALE <= a * b <= 0x8000_0000 * SCALE,
{
    assert(-0x8000_0000 * SCALE <= a * b <= 0x8000_0000 * SCALE) by (nonlinear_arith)
        requires
            -0x8000_0000 <= a <= 0x8000_0000,
            -SCALE <= b <= SCALE,
    ;
}

/// `q == x / d` for `x >= 0` and `d == 2 * SCALE` bounds `q` by `x`.
proof fn lemma_quotient_bound(x: int, d: int)
    requires
        0 <= x <= 0x200_0000_0000_0000_0000 + SCALE,
        d == 2 * SCALE,
    ensures
        0 <= x / d <= 0x1_0000_0000,
{
    lemma_fundamental_div_mod(x, d);
    vstd::arithmetic::div_mod::lemma_mod_pos_bound(x, d);
    vstd::arithmetic::div_mod::lemma_div_pos_is_pos(x, d);
    let q = x / d;
    assert(q <= 0x1_0000_0000) by (nonlinear_arith)
        requires
            x == d * q + x % d,
            0 <= x % d,
            d == 2 * SCALE,
            x <= 0x200_0000_0000_0000_0000 + SCALE,
    ;
}

/// `round_div(n, SCALE)` on a numerator of at most `2^72` in size.
fn round_div_exec(n: i128) -> (r: i128)
    requires
        -0x100_0000_0000_0000_0000 <= n <= 0x100_0000_0000_0000_0000,
    ensures
        r == round_div(n as int, SCALE as int),
        -0x1_0000_0000 <= r <= 0x1_0000_0000,
{
    let d = 2 * (SCALE as i128);
    if n >= 0 {
        let x = 2 * n + SCALE as i128;
        proof {
            lemma_quotient_bound(x as int, d as int);
        }
        x / d
    } else {
        let m = -n;
        let x = 2 * m + SCALE as i128;
        proof {
            lemma_quotient_bound(x as int, d as int);
        }
        -(x / d)
    }
}

fn saturate(v: i128) -> (r: i32)
    ensures
        r == clamp_i32(v as int),
{
    if v < i32::MIN as i128 {
        i32::MIN
    } else if v > i32::MAX as i128 {
        i32::MAX
    } else {
        v as i32
    }
}

/// The error of `round_div(n, SCALE)` is at most half a unit.
proof fn lemma_round_div_error(n: int)
    ensures
        -SCALE <= 2 * (n - round_div(n, SCALE as int) * SCALE) <= SCALE,
{
    let d = 2 * SCALE;
    if n >= 0 {
        let x = 2 * n + SCALE;
        lemma_fundamental_div_mod(x, d);
        vstd::arithmetic::div_mod::lemma_mod_pos_bound(x, d);
        let q = x / d;
        assert(-SCALE <= 2 * (n - q * SCALE) <= SCALE) by (nonlinear_arith)
            requires
                x == 2 * n + SCALE,
                x == d * q + x % d,
                0 <= x % d < d,
                d == 2 * SCALE,
        ;
    } else {
        let x = -2 * n + SCALE;
        lemma_fundamental_div_mod(x, d);
        vstd::arithmetic::div_mod::lemma_mod_pos_bound(x, d);
        let q = x / d;
        assert(-SCALE <= 2 * (n - (-q) * SCALE) <= SCALE) by (nonlinear_arith)
            requires
                x == -2 * n + SCALE,
                x == d * q + x % d,
                0 <= x % d < d,
                d == 2 * SCALE,
        ;
    }
}

proof fn lemma_mul_abs_le(x: int, y: int, bx: int, by_: int)
    requires
        -bx <= x <= bx,
        -by_ <= y <= by_,
    ensures
        -(bx * by_) <= x * y <= bx * by_,
{
    assert(-(bx * by_) <= x * y <= bx * by_) by (nonlinear_arith)
        requires
            -bx <= x <= bx,
            -by_ <= y <= by_,
    ;
}

/// Rounding `(m + p - q) / SCALE`, where `m / SCALE` is the integer `v` up to
/// a small drift and `p`, `q` are each at most `SCALE^2 / 2`, lands within one
/// of `v`.
proof fn lemma_back_within_one(v: int, a2: int, drift: int, p: int, q: int)
    requires
        SCALE * a2 == v * SCALE * SCALE + drift - p - q,
        -0x4_0000_0000 * SCALE <= drift <= 0x4_0000_0000 * SCALE,
        -(SCALE * SCALE) <= 2 * p <= SCALE * SCALE,
        -(SCALE * SCALE) <= 2 * q <= SCALE * SCALE,
    ensures
        -1 <= round_div(a2, SCALE as int) - v <= 1,
{
    let r = round_div(a2, SCALE as int);
    lemma_round_div_error(a2);
    let e = a2 - r * SCALE;
    lemma_mul_abs_le(2 * e, SCALE as int, SCALE as int, SCALE as int);
    lemma_scale_square();
    assert(-1 <= r - v <= 1) by (nonlinear_arith)
        requires
            SCALE * a2 == v * SCALE * SCALE + drift - p - q,
            e == a2 - r * SCALE,
            -(SCALE * SCALE) <= 2 * e * SCALE <= SCALE * SCALE,
            -0x4_0000_0000 * SCALE <= drift <= 0x4_0000_0000 * SCALE,
            -(SCALE * SCALE) <= 2 * p <= SCALE * SCALE,
            -(SCALE * SCALE) <= 2 * q <= SCALE * SCALE,
            SCALE == 1099511627776,
    ;
}

/// Rotating a motion vector by an angle and then by the opposite angle gives
/// back each component within one unit, whenever the first rotation did not
/// saturate.
pub proof fn lemma_rotate_then_inverse(r: Rotation, dx: i32, dy: i32)
    requires
        r.wf(),
        i32::MIN <= r.rotated_x(dx as int, dy as int) <= i32::MAX,
        i32::MIN <= r.rotated_y(dx as int, dy as int) <= i32::MAX,
    ensures
        ({
            let x1 = clamp_i32(r.rotated_x(dx as int, dy as int));
            let y1 = clamp_i32(r.rotated_y(dx as int, dy as int));
            let x2 = clamp_i32(r.inverse().rotated_x(x1, y1));
            let y2 = clamp_i32(r.inverse().rotated_y(x1, y1));
            -1 <= x2 - dx <= 1 && -1 <= y2 - dy <= 1
        }),
{
    let s = r.sin_q as int;
    let c = r.cos_q as int;
    let x = dx as int;
    let y = dy as int;
    let a = x * c - y * s;
    let b = x * s + y * c;
    let u = r.rotated_x(x, y);
    let w = r.rotated_y(x, y);
    lemma_round_div_error(a);
    lemma_round_div_error(b);
    let e1 = a - u * SCALE;
    let e2 = b - w * SCALE;
    lemma_mul_abs_le(2 * e1, c, SCALE as int, SCALE as int);
    lemma_mul_abs_le(2 * e2, s, SCALE as int, SCALE as int);
    lemma_mul_abs_le(2 * e1, s, SCALE as int, SCALE as int);
    lemma_mul_abs_le(2 * e2, c, SCALE as int, SCALE as int);
    let k = s * s + c * c - SCALE * SCALE;
    lemma_mul_abs_le(x, k, 0x8000_0000, SLACK * SCALE);
    lemma_mul_abs_le(y, k, 0x8000_0000, SLACK * SCALE);
    // Back along x: `SCALE * (u c + w s) == x (s^2 + c^2) - e1 c - e2 s`.
    let ax = u * c + w * s;
    assert(SCALE * ax == x * SCALE * SCALE + x * k - e1 * c - e2 * s) by (nonlinear_arith)
        requires
            e1 == a - u * SCALE,
            e2 == b - w * SCALE,
            a == x * c - y * s,
            b == x * s + y * c,
            k == s * s + c * c - SCALE * SCALE,
            ax == u * c + w * s,
    ;
    assert(2 * (e1 * c) == (2 * e1) * c && 2 * (e2 * s) == (2 * e2) * s) by (nonlinear_arith);
    assert(2 * (e2 * c) == (2 * e2) * c && 2 * (e1 * s) == (2 * e1) * s) by (nonlinear_arith);
    lemma_back_within_one(x, ax, x * k, e1 * c, e2 * s);
    // Back along y: `SCALE * (w c - u s) == y (s^2 + c^2) - e2 c + e1 s`.
    let ay = w * c - u * s;
    assert(SCALE * ay == (SCALE * w) * c - (SCALE * u) * s) by (nonlinear_arith)
        requires
            ay == w * c - u * s,
    ;
    assert(b * c - a * s == y * (s * s + c * c)) by (nonlinear_arith)
        requires
            a == x * c - y * s,
            b == x * s + y * c,
    ;
    assert((b - e2) * c - (a - e1) * s == b * c - a * s - e2 * c + e1 * s) by (nonlinear_arith);
    assert(y * (s * s + c * c) == y * SCALE * SCALE + y * k) by (nonlinear_arith)
        requires
            k == s * s + c * c - SCALE * SCALE,
    ;
    lemma_back_within_one(y, ay, y * k, e2 * c, -(e1 * s));
    let inv = r.inverse();
    assert(inv.sin_q == -s && inv.cos_q == c);
    assert(u * c - w * (-s) == ax && u * (-s) + w * c == ay) by (nonlinear_arith)
        requires
            ax == u * c + w * s,
            ay == w * c - u * s,
    ;
}

/// The rotation by zero degrees leaves every vector exactly as it was.
pub proof fn lemma_identity_is_exact(dx: i32, dy: i32)
    ensures
        ({
            let id = Rotation { sin_q: 0, cos_q: SCALE };
            clamp_i32(id.rotated_x(dx as int, dy as int)) == dx
                && clamp_i32(id.rotated_y(dx as int, dy as int)) == dy
        }),
{
    let id = Rotation { sin_q: 0, cos_q: SCALE };
    lemma_round_exact(dx as int);
    lemma_round_exact(dy as int);
    assert(dx as int * SCALE - dy as int * 0 == dx as int * SCALE);
    assert(dx as int * 0 + dy as int * SCALE == dy as int * SCALE);
}

/// A multiple of `SCALE` divides exactly.
proof fn lemma_round_exact(v: int)
    ensures
        round_div(v * SCALE, SCALE as int) == v,
{
    lemma_round_div_error(v * SCALE);
    let q = round_div(v * SCALE, SCALE as int);
    assert(q == v) by (nonlinear_arith)
        requires
            -SCALE <= 2 * (v * SCALE - q * SCALE) <= SCALE,
            SCALE > 0,
    ;
}

} // verus!
