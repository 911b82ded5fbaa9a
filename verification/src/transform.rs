//! Hierarchical 2D affine transforms over fixed-point integers.
//!
//! A `Transformation2D` is a 3x3 homogeneous matrix whose bottom row is
//! `[0, 0, w]`; it stands for the affine map `p -> (A p + t) / w` where `A`
//! is the upper-left 2x2 block and `t` the translation column.  Because the
//! accumulated scale lives in `w` and is divided out only when the matrix is
//! applied to a point, composing two matrices is exact integer arithmetic:
//! composition is associative on the nose, not merely up to rounding.
use vstd::prelude::*;

verus! {

use crate::interface::{Point, Transform};
use crate::{FX_ONE, MAT_MAX};

/// Largest magnitude of a translation component accepted in a `Transform`.
pub const POS_MAX: i64 = 0x10_0000_0000_0000;

/// Largest magnitude of a scale component accepted in a `Transform`.
pub const SCALE_MAX: i64 = 0x100_0000_0000;

/// The mathematical value of a transformation matrix: unbounded integer
/// entries of the rows `[m00, m01, m02]`, `[m10, m11, m12]`, `[0, 0, w]`.
pub struct MatSpec {
    pub m00: int,
    pub m01: int,
    pub m02: int,
    pub m10: int,
    pub m11: int,
    pub m12: int,
    pub w: int,
}

/// A homogeneous 2D transformation matrix with fixed-point integer entries.
#[derive(Clone, Copy, PartialEq, Eq, Structural, Debug)]
pub struct Transformation2D {
    pub m00: i64,
    pub m01: i64,
    pub m02: i64,
    pub m10: i64,
    pub m11: i64,
    pub m12: i64,
    pub w: i64,
}

impl View for Transformation2D {
    type V = MatSpec;

    open spec fn view(&self) -> MatSpec {
        MatSpec {
            m00: self.m00 as int,
            m01: self.m01 as int,
            m02: self.m02 as int,
            m10: self.m10 as int,
            m11: self.m11 as int,
            m12: self.m12 as int,
            w: self.w as int,
        }
    }
}

/// Integer division that truncates toward zero, the rounding used whenever a
/// fixed-point quotient is taken.
pub open spec fn div_tz(a: int, b: int) -> int
    recommends
        b >= 1,
{
    if a >= 0 {
        a / b
    } else {
        -((-a) / b)
    }
}

/// The exact product of two homogeneous matrices with bottom rows
/// `[0, 0, a.w]` and `[0, 0, b.w]`.
pub open spec fn mat_mul(a: MatSpec, b: MatSpec) -> MatSpec {
    MatSpec {
        m00: a.m00 * b.m00 + a.m01 * b.m10,
        m01: a.m00 * b.m01 + a.m01 * b.m11,
        m02: a.m00 * b.m02 + a.m01 * b.m12 + a.m02 * b.w,
        m10: a.m10 * b.m00 + a.m11 * b.m10,
        m11: a.m10 * b.m01 + a.m11 * b.m11,
        m12: a.m10 * b.m02 + a.m11 * b.m12 + a.m12 * b.w,
        w: a.w * b.w,
    }
}

/// Whether every entry of the matrix is small enough to be stored and to be
/// multiplied once more without leaving `i128`, and the homogeneous entry is
/// positive so that applying the matrix may divide by it.
pub open spec fn mat_in_bounds(m: MatSpec) -> bool {
    &&& -(MAT_MAX as int) <= m.m00 <= MAT_MAX as int
    &&& -(MAT_MAX as int) <= m.m01 <= MAT_MAX as int
    &&& -(MAT_MAX as int) <= m.m02 <= MAT_MAX as int
    &&& -(MAT_MAX as int) <= m.m10 <= MAT_MAX as int
    &&& -(MAT_MAX as int) <= m.m11 <= MAT_MAX as int
    &&& -(MAT_MAX as int) <= m.m12 <= MAT_MAX as int
    &&& 1 <= m.w <= MAT_MAX as int
}

/// Whether the parts of a local transform lie within the ranges accepted by
/// `to_transformation`: bounded translation and scale, and a rotation whose
/// cosine and sine are at most one in magnitude.
pub open spec fn transform_wf(t: Transform) -> bool {
    &&& -(POS_MAX as int) <= t.pos.x as int <= POS_MAX as int
    &&& -(POS_MAX as int) <= t.pos.y as int <= POS_MAX as int
    &&& -(SCALE_MAX as int) <= t.scale.x as int <= SCALE_MAX as int
    &&& -(SCALE_MAX as int) <= t.scale.y as int <= SCALE_MAX as int
    &&& -(FX_ONE as int) <= t.angle.cos as int <= FX_ONE as int
    &&& -(FX_ONE as int) <= t.angle.sin as int <= FX_ONE as int
}

/// The matrix of a local transform: the product displacement x scale x
/// rotation, each fixed-point product rounded toward zero once.
pub open spec fn compose_spec(t: Transform) -> MatSpec {
    MatSpec {
        m00: div_tz(t.scale.x as int * t.angle.cos as int, FX_ONE as int),
        m01: div_tz(-(t.scale.x as int * t.angle.sin as int), FX_ONE as int),
        m02: t.pos.x as int,
        m10: div_tz(t.scale.y as int * t.angle.sin as int, FX_ONE as int),
        m11: div_tz(t.scale.y as int * t.angle.cos as int, FX_ONE as int),
        m12: t.pos.y as int,
        w: FX_ONE as int,
    }
}

/// The matrix of the identity transform.
pub open spec fn mat_identity() -> MatSpec {
    MatSpec {
        m00: FX_ONE as int,
        m01: 0,
        m02: 0,
        m10: 0,
        m11: FX_ONE as int,
        m12: 0,
        w: FX_ONE as int,
    }
}

/// The numerator of the x coordinate of a transformed point, before the
/// division by the homogeneous entry.
pub open spec fn apply_num_x(m: MatSpec, p: Point) -> int {
    m.m00 * p.x as int + m.m01 * p.y as int + m.m02 * FX_ONE as int
}

/// The numerator of the y coordinate of a transformed point.
pub open spec fn apply_num_y(m: MatSpec, p: Point) -> int {
    m.m10 * p.x as int + m.m11 * p.y as int + m.m12 * FX_ONE as int
}

/// The x coordinate, in fixed-point units, of the image of `p` under `m`.
pub open spec fn apply_x_spec(m: MatSpec, p: Point) -> int {
    div_tz(apply_num_x(m, p), m.w)
}

/// The y coordinate, in fixed-point units, of the image of `p` under `m`.
pub open spec fn apply_y_spec(m: MatSpec, p: Point) -> int {
    div_tz(apply_num_y(m, p), m.w)
}

/// Whether the image of `p` under `m` stays within the admissible
/// coordinate range.
pub open spec fn apply_in_range(m: MatSpec, p: Point) -> bool {
    &&& -(MAT_MAX as int) <= apply_x_spec(m, p) <= MAT_MAX as int
    &&& -(MAT_MAX as int) <= apply_y_spec(m, p) <= MAT_MAX as int
}

/// The image of `p` under `m` as a fixed-point point; exact whenever the
/// image is in range.
pub open spec fn applied(m: MatSpec, p: Point) -> Point {
    Point { x: apply_x_spec(m, p) as i64, y: apply_y_spec(m, p) as i64 }
}

/// The exact product of two admissible `i64` values, carried out in `i128`.
pub(crate) fn mul64(x: i64, y: i64) -> (r: i128)
    requires
        -MAT_MAX <= x <= MAT_MAX,
        -MAT_MAX <= y <= MAT_MAX,
    ensures
        r == x as int * y as int,
        -0x1000_0000_0000_0000_0000_0000_0000_0000 <= r <= 0x1000_0000_0000_0000_0000_0000_0000_0000,
{
    proof {
        assert(-(0x4000_0000_0000_0000 as int) * (0x4000_0000_0000_0000 as int) <= x as int
            * y as int <= (0x4000_0000_0000_0000 as int) * (0x4000_0000_0000_0000 as int))
            by (nonlinear_arith)
            requires
                -(0x4000_0000_0000_0000 as int) <= x as int <= 0x4000_0000_0000_0000 as int,
                -(0x4000_0000_0000_0000 as int) <= y as int <= 0x4000_0000_0000_0000 as int,
        ;
    }
    (x as i128) * (y as i128)
}

/// Division of a bounded `i128` by a positive `i64`, truncating toward zero.
pub(crate) fn div_tz_exec(a: i128, b: i128) -> (r: i128)
    requires
        1 <= b,
        a != i128::MIN,
    ensures
        r == div_tz(a as int, b as int),
{
    if a < 0 {
        let mag: i128 = -a;
        -(mag / b)
    } else {
        a / b
    }
}

impl Transformation2D {
    /// Multiplies two transformation matrices exactly, or reports that some
    /// entry of the product leaves the admissible range.
    pub fn try_multiply(&self, other: &Transformation2D) -> (r: Option<Transformation2D>)
        requires
            mat_in_bounds(self@),
            mat_in_bounds(other@),
        ensures
            match r {
                Some(m) => m@ == mat_mul(self@, other@) && mat_in_bounds(m@),
                None => !mat_in_bounds(mat_mul(self@, other@)),
            },
    {
        let m00: i128 = mul64(self.m00, other.m00) + mul64(self.m01, other.m10);
        let m01: i128 = mul64(self.m00, other.m01) + mul64(self.m01, other.m11);
        let m02: i128 = mul64(self.m00, other.m02) + mul64(self.m01, other.m12) + mul64(
            self.m02,
            other.w,
        );
        let m10: i128 = mul64(self.m10, other.m00) + mul64(self.m11, other.m10);
        let m11: i128 = mul64(self.m10, other.m01) + mul64(self.m11, other.m11);
        let m12: i128 = mul64(self.m10, other.m02) + mul64(self.m11, other.m12) + mul64(
            self.m12,
            other.w,
        );
        let w: i128 = mul64(self.w, other.w);
        proof {
            assert(1 <= self.w as int * other.w as int) by (nonlinear_arith)
                requires
                    1 <= self.w as int,
                    1 <= other.w as int,
            ;
        }
        let lim: i128 = MAT_MAX as i128;
        if -lim <= m00 && m00 <= lim && -lim <= m01 && m01 <= lim && -lim <= m02 && m02 <= lim
            && -lim <= m10 && m10 <= lim && -lim <= m11 && m11 <= lim && -lim <= m12 && m12 <= lim
            && w <= lim {
            Some(
                Transformation2D {
                    m00: m00 as i64,
                    m01: m01 as i64,
                    m02: m02 as i64,
                    m10: m10 as i64,
                    m11: m11 as i64,
                    m12: m12 as i64,
                    w: w as i64,
                },
            )
        } else {
            None
        }
    }

    /// Multiplies two transformation matrices whose product is known to stay
    /// within the admissible entry range.
    pub fn multiply(&self, other: &Transformation2D) -> (r: Transformation2D)
        requires
            mat_in_bounds(self@),
            mat_in_bounds(other@),
            mat_in_bounds(mat_mul(self@, other@)),
        ensures
            r@ == mat_mul(self@, other@),
            mat_in_bounds(r@),
    {
        match self.try_multiply(other) {
            Some(m) => m,
            None => {
                proof {
                    assert(false);
                }
                vstd::pervasive::unreached()
            },
        }
    }

    /// Applies the matrix to a point, reporting a point whose image leaves
    /// the admissible coordinate range: both coordinates of the numerator
    /// are taken exactly, then divided by the homogeneous entry, truncating
    /// toward zero (the perspective divide of the third homogeneous
    /// coordinate happens in just this place).
    pub fn try_apply_to(&self, pt: Point) -> (r: Option<Point>)
        requires
            mat_in_bounds(self@),
            -MAT_MAX <= pt.x <= MAT_MAX,
            -MAT_MAX <= pt.y <= MAT_MAX,
        ensures
            match r {
                Some(q) => apply_in_range(self@, pt) && q.x as int == apply_x_spec(self@, pt)
                    && q.y as int == apply_y_spec(self@, pt),
                None => !apply_in_range(self@, pt),
            },
    {
        let u: i128 = mul64(self.m00, pt.x) + mul64(self.m01, pt.y) + mul64(self.m02, FX_ONE);
        let v: i128 = mul64(self.m10, pt.x) + mul64(self.m11, pt.y) + mul64(self.m12, FX_ONE);
        let x: i128 = div_tz_exec(u, self.w as i128);
        let y: i128 = div_tz_exec(v, self.w as i128);
        let lim: i128 = MAT_MAX as i128;
        if -lim <= x && x <= lim && -lim <= y && y <= lim {
            Some(Point { x: x as i64, y: y as i64 })
        } else {
            None
        }
    }

    /// Applies the matrix to a point whose image is known to stay within
    /// the admissible coordinate range.
    pub fn apply_to(&self, pt: Point) -> (r: Point)
        requires
            mat_in_bounds(self@),
            -MAT_MAX <= pt.x <= MAT_MAX,
            -MAT_MAX <= pt.y <= MAT_MAX,
            apply_in_range(self@, pt),
        ensures
            r.x as int == apply_x_spec(self@, pt),
            r.y as int == apply_y_spec(self@, pt),
    {
        match self.try_apply_to(pt) {
            Some(q) => q,
            None => {
                proof {
                    assert(false);
                }
                vstd::pervasive::unreached()
            },
        }
    }
}

impl Transform {
    /// Builds the single matrix of this transform, combining displacement,
    /// scale and rotation in that construction order; each of the four
    /// scale-times-rotation entries is rounded toward zero once.
    pub fn to_transformation(&self) -> (r: Transformation2D)
        requires
            transform_wf(*self),
        ensures
            r@ == compose_spec(*self),
            mat_in_bounds(r@),
    {
        let sxc: i128 = mul64(self.scale.x, self.angle.cos);
        let sxs: i128 = mul64(self.scale.x, self.angle.sin);
        let sys: i128 = mul64(self.scale.y, self.angle.sin);
        let syc: i128 = mul64(self.scale.y, self.angle.cos);
        proof {
            lemma_scaled_rotation_bound(self.scale.x as int, self.angle.cos as int);
            lemma_scaled_rotation_bound(self.scale.x as int, self.angle.sin as int);
            lemma_scaled_rotation_bound(self.scale.y as int, self.angle.sin as int);
            lemma_scaled_rotation_bound(self.scale.y as int, self.angle.cos as int);
        }
        let m00: i128 = div_tz_exec(sxc, FX_ONE as i128);
        let m01: i128 = div_tz_exec(-sxs, FX_ONE as i128);
        let m10: i128 = div_tz_exec(sys, FX_ONE as i128);
        let m11: i128 = div_tz_exec(syc, FX_ONE as i128);
        proof {
            lemma_div_tz_bounded(sxc as int, FX_ONE as int, SCALE_MAX as int);
            lemma_div_tz_bounded(-(sxs as int), FX_ONE as int, SCALE_MAX as int);
            lemma_div_tz_bounded(sys as int, FX_ONE as int, SCALE_MAX as int);
            lemma_div_tz_bounded(syc as int, FX_ONE as int, SCALE_MAX as int);
        }
        Transformation2D {
            m00: m00 as i64,
            m01: m01 as i64,
            m02: self.pos.x,
            m10: m10 as i64,
            m11: m11 as i64,
            m12: self.pos.y,
            w: FX_ONE,
        }
    }
}

/// The product of a bounded scale component and a bounded rotation
/// component stays within `SCALE_MAX` scene units.
proof fn lemma_scaled_rotation_bound(s: int, r: int)
    requires
        -(SCALE_MAX as int) <= s <= SCALE_MAX as int,
        -(FX_ONE as int) <= r <= FX_ONE as int,
    ensures
        -((SCALE_MAX as int) * (FX_ONE as int)) <= s * r <= (SCALE_MAX as int) * (FX_ONE as int),
{
    assert(-((SCALE_MAX as int) * (FX_ONE as int)) <= s * r <= (SCALE_MAX as int) * (
    FX_ONE as int)) by (nonlinear_arith)
        requires
            -(SCALE_MAX as int) <= s <= SCALE_MAX as int,
            -(FX_ONE as int) <= r <= FX_ONE as int,
    ;
}

/// A quotient truncated toward zero is bounded by any bound on the dividend
/// divided by the divisor: if `|a| <= k * b` then `|div_tz(a, b)| <= k`.
pub proof fn lemma_div_tz_bounded(a: int, b: int, k: int)
    requires
        1 <= b,
        0 <= k,
        -(k * b) <= a <= k * b,
    ensures
        -k <= div_tz(a, b) <= k,
{
    vstd::arithmetic::div_mod::lemma_div_multiples_vanish(k, b);
    assert((b * k) / b == k);
    assert(k * b == b * k) by (nonlinear_arith);
    if a >= 0 {
        vstd::arithmetic::div_mod::lemma_div_is_ordered(a, k * b, b);
        vstd::arithmetic::div_mod::lemma_div_pos_is_pos(a, b);
        assert(a / b <= (k * b) / b);
    } else {
        vstd::arithmetic::div_mod::lemma_div_is_ordered(-a, k * b, b);
        vstd::arithmetic::div_mod::lemma_div_pos_is_pos(-a, b);
        assert((-a) / b <= (k * b) / b);
    }
}

/// Whether the parts of a local transform lie within the accepted ranges;
/// the executable twin of `transform_wf`.
pub fn transform_wf_check(t: &Transform) -> (b: bool)
    ensures
        b == transform_wf(*t),
{
    -POS_MAX <= t.pos.x && t.pos.x <= POS_MAX && -POS_MAX <= t.pos.y && t.pos.y <= POS_MAX
        && -SCALE_MAX <= t.scale.x && t.scale.x <= SCALE_MAX && -SCALE_MAX <= t.scale.y
        && t.scale.y <= SCALE_MAX && -FX_ONE <= t.angle.cos && t.angle.cos <= FX_ONE && -FX_ONE
        <= t.angle.sin && t.angle.sin <= FX_ONE
}

/// The identity transform composes to the identity matrix, which is both
/// admissible and well formed.
pub proof fn lemma_identity_composes()
    ensures
        transform_wf(Transform::identity_spec()),
        compose_spec(Transform::identity_spec()) == mat_identity(),
        mat_in_bounds(mat_identity()),
{
    let t = Transform::identity_spec();
    assert(t.scale.x as int * t.angle.cos as int == 4096int * 4096int);
    assert(div_tz(4096int * 4096int, 4096int) == 4096int);
    assert(t.scale.x as int * t.angle.sin as int == 0int);
    assert(div_tz(0int, 4096int) == 0int);
    
}

/// Composition of transformation matrices is associative: multiplying a
/// chain of transforms left-to-right, as the scene flattener does, yields
/// exactly the same matrix as pre-composing the chain in any other
/// grouping.
/// Distributing one factor over a sum of two products.
proof fn lemma_expand_row2(x: int, y: int, p: int, q: int, c: int)
    ensures
        (x * p + y * q) * c == x * (p * c) + y * (q * c),
{
    vstd::arithmetic::mul::lemma_mul_is_distributive_add_other_way(c, x * p, y * q);
    vstd::arithmetic::mul::lemma_mul_is_associative(x, p, c);
    vstd::arithmetic::mul::lemma_mul_is_associative(y, q, c);
}

/// Distributing one factor over a sum of three products.
proof fn lemma_expand_row3(x: int, y: int, z: int, p: int, q: int, s: int, c: int)
    ensures
        (x * p + y * q + z * s) * c == x * (p * c) + y * (q * c) + z * (s * c),
{
    vstd::arithmetic::mul::lemma_mul_is_distributive_add_other_way(c, x * p + y * q, z * s);
    vstd::arithmetic::mul::lemma_mul_is_distributive_add_other_way(c, x * p, y * q);
    vstd::arithmetic::mul::lemma_mul_is_associative(x, p, c);
    vstd::arithmetic::mul::lemma_mul_is_associative(y, q, c);
    vstd::arithmetic::mul::lemma_mul_is_associative(z, s, c);
}

/// Factoring one factor out of a sum of two products.
proof fn lemma_collect_row2(x: int, p: int, q: int, u: int, v: int)
    ensures
        x * (p * u + q * v) == x * (p * u) + x * (q * v),
{
    vstd::arithmetic::mul::lemma_mul_is_distributive_add(x, p * u, q * v);
}

/// Factoring one factor out of a sum of three products.
proof fn lemma_collect_row3(x: int, p: int, q: int, s: int, u: int, v: int, t: int)
    ensures
        x * (p * u + q * v + s * t) == x * (p * u) + x * (q * v) + x * (s * t),
{
    vstd::arithmetic::mul::lemma_mul_is_distributive_add(x, p * u + q * v, s * t);
    vstd::arithmetic::mul::lemma_mul_is_distributive_add(x, p * u, q * v);
}

/// One entry of the associativity proof: the upper 2x2 block.
proof fn lemma_assoc_entry2(x: int, y: int, p: int, q: int, r: int, s: int, u: int, v: int)
    ensures
        (x * p + y * r) * u + (x * q + y * s) * v == x * (p * u + q * v) + y * (r * u + s * v),
{
    lemma_expand_row2(x, y, p, r, u);
    lemma_expand_row2(x, y, q, s, v);
    lemma_collect_row2(x, p, q, u, v);
    lemma_collect_row2(y, r, s, u, v);
    vstd::arithmetic::mul::lemma_mul_is_associative(x, p, u);
    vstd::arithmetic::mul::lemma_mul_is_associative(x, q, v);
    vstd::arithmetic::mul::lemma_mul_is_associative(y, r, u);
    vstd::arithmetic::mul::lemma_mul_is_associative(y, s, v);
}

/// One entry of the associativity proof: a translation column entry.
proof fn lemma_assoc_entry3(
    x: int,
    y: int,
    z: int,
    p: int,
    q: int,
    r: int,
    s: int,
    t2: int,
    t3: int,
    u: int,
    v: int,
    w: int,
    ww: int,
)
    ensures
        (x * p + y * r) * u + (x * q + y * s) * v + (x * t2 + y * t3 + z * w) * ww == x * (p * u
            + q * v + t2 * ww) + y * (r * u + s * v + t3 * ww) + z * (w * ww),
{
    lemma_expand_row2(x, y, p, r, u);
    lemma_expand_row2(x, y, q, s, v);
    lemma_expand_row3(x, y, z, t2, t3, w, ww);
    lemma_collect_row3(x, p, q, t2, u, v, ww);
    lemma_collect_row3(y, r, s, t3, u, v, ww);
    vstd::arithmetic::mul::lemma_mul_is_associative(x, p, u);
    vstd::arithmetic::mul::lemma_mul_is_associative(x, q, v);
    vstd::arithmetic::mul::lemma_mul_is_associative(x, t2, ww);
    vstd::arithmetic::mul::lemma_mul_is_associative(y, r, u);
    vstd::arithmetic::mul::lemma_mul_is_associative(y, s, v);
    vstd::arithmetic::mul::lemma_mul_is_associative(y, t3, ww);
    vstd::arithmetic::mul::lemma_mul_is_associative(z, w, ww);
}

pub proof fn lemma_multiply_associative(a: MatSpec, b: MatSpec, c: MatSpec)
    ensures
        mat_mul(mat_mul(a, b), c) == mat_mul(a, mat_mul(b, c)),
{
    lemma_assoc_entry2(a.m00, a.m01, b.m00, b.m01, b.m10, b.m11, c.m00, c.m10);
    lemma_assoc_entry2(a.m00, a.m01, b.m00, b.m01, b.m10, b.m11, c.m01, c.m11);
    lemma_assoc_entry2(a.m10, a.m11, b.m00, b.m01, b.m10, b.m11, c.m00, c.m10);
    lemma_assoc_entry2(a.m10, a.m11, b.m00, b.m01, b.m10, b.m11, c.m01, c.m11);
    lemma_assoc_entry3(
        a.m00,
        a.m01,
        a.m02,
        b.m00,
        b.m01,
        b.m10,
        b.m11,
        b.m02,
        b.m12,
        c.m02,
        c.m12,
        b.w,
        c.w,
    );
    lemma_assoc_entry3(
        a.m10,
        a.m11,
        a.m12,
        b.m00,
        b.m01,
        b.m10,
        b.m11,
        b.m02,
        b.m12,
        c.m02,
        c.m12,
        b.w,
        c.w,
    );
    vstd::arithmetic::mul::lemma_mul_is_associative(a.w, b.w, c.w);
}

/// Applying a primitive under the left-to-right composition of three
/// transforms moves every point exactly as applying it under the
/// pre-composed right-to-left chain: nesting depth does not change vertex
/// positions.
pub proof fn lemma_nested_application_equal(a: MatSpec, b: MatSpec, c: MatSpec, p: Point)
    ensures
        apply_x_spec(mat_mul(mat_mul(a, b), c), p) == apply_x_spec(mat_mul(a, mat_mul(b, c)), p),
        apply_y_spec(mat_mul(mat_mul(a, b), c), p) == apply_y_spec(mat_mul(a, mat_mul(b, c)), p),
{
    lemma_multiply_associative(a, b, c);
}

} // verus!
