//! Compiling a flattened frame into GPU-ready draw data: a textured quad
//! for every image, a stroked cubic for every curve, and the ordered,
//! resource-keyed draw list over shared vertex and index buffers.
use vstd::prelude::*;

verus! {

use crate::color::{linear_of, Color};
use crate::interface::{Bezier, Img, Object, Point, Rect};
use crate::renderers::RenderingError;
use crate::transform::{
    apply_in_range, applied, div_tz, div_tz_exec, mat_in_bounds, MatSpec, Transformation2D,
};
use crate::{FX_ONE, MAT_MAX};

/// What the compositor reads of a decoded image: its pixel dimensions.
/// Decoding itself is the resource loader's business.
#[derive(Clone, Copy, PartialEq, Eq, Structural, Debug)]
pub struct TextureInfo {
    pub width: u32,
    pub height: u32,
}

/// The texture registry: a mapping from numeric image id to the decoded
/// image's dimensions, owned by the resource-loading collaborator and only
/// read here.  Later insertions shadow earlier ones.
pub struct TextureRegistry {
    entries: Vec<(u32, TextureInfo)>,
}

/// First match wins: the registry entry for `id`, if any.
pub open spec fn lookup_seq(s: Seq<(u32, TextureInfo)>, id: u32) -> Option<TextureInfo>
    decreases s.len(),
{
    if s.len() == 0 {
        None
    } else if s[0].0 == id {
        Some(s[0].1)
    } else {
        lookup_seq(s.subrange(1, s.len() as int), id)
    }
}

impl TextureRegistry {
    /// The registry entry for `id`, if any.
    pub closed spec fn lookup(&self, id: u32) -> Option<TextureInfo> {
        lookup_seq(self.entries@, id)
    }

    /// Whether every registered image has at least one pixel in each
    /// direction, as a decoded image does.
    pub closed spec fn wf(&self) -> bool {
        forall|k: int|
            0 <= k < self.entries@.len() ==> (#[trigger] self.entries@[k]).1.width >= 1
                && self.entries@[k].1.height >= 1
    }

    /// An empty registry.
    pub fn new() -> (r: TextureRegistry)
        ensures
            r.wf(),
            forall|id: u32| r.lookup(id) == None::<TextureInfo>,
    {
        TextureRegistry { entries: Vec::new() }
    }

    /// Registers (or replaces) the dimensions stored under an id.
    pub fn insert(&mut self, id: u32, info: TextureInfo)
        requires
            old(self).wf(),
            info.width >= 1,
            info.height >= 1,
        ensures
            final(self).wf(),
            final(self).lookup(id) == Some(info),
            forall|other: u32|
                other != id ==> final(self).lookup(other) == old(self).lookup(other),
    {
        let ghost s0 = self.entries@;
        self.entries.insert(0, (id, info));
        proof {
            assert(self.entries@.subrange(1, self.entries@.len() as int) =~= s0);
            assert(self.entries@[0] == (id, info));
        }
    }

    /// Looks an id up; a well-formed registry only hands out images with
    /// at least one pixel in each direction.
    pub fn get(&self, id: u32) -> (r: Option<TextureInfo>)
        ensures
            r == self.lookup(id),
            self.wf() && r is Some ==> r->Some_0.width >= 1 && r->Some_0.height >= 1,
    {
        proof {
            assert(self.entries@.skip(0) =~= self.entries@);
        }
        let mut k: usize = 0;
        while k < self.entries.len()
            invariant
                k <= self.entries@.len(),
                lookup_seq(self.entries@, id) == lookup_seq(
                    self.entries@.skip(k as int),
                    id,
                ),
            decreases self.entries@.len() - k,
        {
            let ghost pre = self.entries@.skip(k as int);
            proof {
                assert(pre[0] == self.entries@[k as int]);
                assert(pre.subrange(1, pre.len() as int) =~= self.entries@.skip(k as int + 1));
            }
            let e = self.entries[k];
            if e.0 == id {
                return Some(e.1);
            }
            k = k + 1;
        }
        proof {
            assert(self.entries@.skip(k as int) =~= Seq::<(u32, TextureInfo)>::empty());
        }
        None
    }
}

/// A vertex of a textured quad: a transformed position and the texture
/// coordinates it samples, both in fixed-point units.
#[derive(Clone, Copy, PartialEq, Eq, Structural, Debug)]
pub struct TextureVertex {
    pub position: Point,
    pub tex_coords: Point,
}

/// A vertex of stroke geometry: a position and a linear-space color.
#[derive(Clone, Copy, Debug)]
pub struct ColorVertex {
    pub position: Point,
    pub color: [u32; 3],
}

/// The unit rect, the subrect an image shows when none is given.
pub open spec fn default_subrect() -> Rect {
    Rect { x: 0, y: 0, w: FX_ONE as i64, h: FX_ONE as i64 }
}

/// The subrect of an image primitive, falling back to the full unit rect.
pub open spec fn subrect_or_default(img: Img) -> Rect {
    match img.subrect {
        Some(r) => r,
        None => default_subrect(),
    }
}

/// The height of an image's unit quad: the image's aspect ratio corrected
/// by the output resolution's aspect ratio, in fixed-point units (the
/// width is one scene unit).
pub open spec fn quad_h_spec(info: TextureInfo, rw: u32, rh: u32) -> int {
    div_tz(
        FX_ONE as int * (info.height as int * rw as int),
        info.width as int * rh as int,
    )
}

/// Corner `k` of the untransformed quad, counterclockwise from bottom
/// left; `hh` is half the quad height and half the quad width is half a
/// scene unit.
pub open spec fn quad_corner(hh: int, k: int) -> Point {
    if k == 0 {
        Point { x: -2048i64, y: (-hh) as i64 }
    } else if k == 1 {
        Point { x: 2048i64, y: (-hh) as i64 }
    } else if k == 2 {
        Point { x: 2048i64, y: hh as i64 }
    } else {
        Point { x: -2048i64, y: hh as i64 }
    }
}

/// The texture coordinates of corner `k`: the subrect's edges, with the
/// vertical axis flipped.
pub open spec fn quad_tex(r: Rect, k: int) -> Point {
    if k == 0 {
        Point { x: r.x, y: (FX_ONE as int - r.y as int) as i64 }
    } else if k == 1 {
        Point { x: r.w, y: (FX_ONE as int - r.y as int) as i64 }
    } else if k == 2 {
        Point { x: r.w, y: (FX_ONE as int - r.h as int) as i64 }
    } else {
        Point { x: r.x, y: (FX_ONE as int - r.h as int) as i64 }
    }
}

/// Whether building the quad of an image stays within machine range: the
/// quad height, the flipped texture coordinates, and the four transformed
/// corners all fit.
pub open spec fn quad_ok(img: Img, m: MatSpec, info: TextureInfo, rw: u32, rh: u32) -> bool {
    let r = subrect_or_default(img);
    let qh = quad_h_spec(info, rw, rh);
    let hh = div_tz(qh, 2);
    &&& qh <= MAT_MAX as int
    &&& i64::MIN <= FX_ONE as int - r.y as int <= i64::MAX
    &&& i64::MIN <= FX_ONE as int - r.h as int <= i64::MAX
    &&& apply_in_range(m, quad_corner(hh, 0))
    &&& apply_in_range(m, quad_corner(hh, 1))
    &&& apply_in_range(m, quad_corner(hh, 2))
    &&& apply_in_range(m, quad_corner(hh, 3))
}

/// The four vertices of an image's quad under transform `m`, bottom-left,
/// bottom-right, top-right, top-left.
pub open spec fn quad_vertex_spec(img: Img, m: MatSpec, info: TextureInfo, rw: u32, rh: u32, k: int) -> TextureVertex {
    let r = subrect_or_default(img);
    let hh = div_tz(quad_h_spec(info, rw, rh), 2);
    TextureVertex { position: applied(m, quad_corner(hh, k)), tex_coords: quad_tex(r, k) }
}

/// Subrect default: an image primitive without a subrect maps texture
/// coordinates over the full unit rect, from `(0, 0)` at the top-left
/// sample to `(1, 1)` at the bottom-right one.
pub proof fn lemma_subrect_default(img: Img, m: MatSpec, info: TextureInfo, rw: u32, rh: u32)
    requires
        img.subrect is None,
    ensures
        quad_vertex_spec(img, m, info, rw, rh, 0).tex_coords == (Point {
            x: 0,
            y: FX_ONE as i64,
        }),
        quad_vertex_spec(img, m, info, rw, rh, 1).tex_coords == (Point {
            x: FX_ONE as i64,
            y: FX_ONE as i64,
        }),
        quad_vertex_spec(img, m, info, rw, rh, 2).tex_coords == (Point { x: FX_ONE as i64, y: 0 }),
        quad_vertex_spec(img, m, info, rw, rh, 3).tex_coords == (Point { x: 0, y: 0 }),
{
}

/// A compiled image primitive: the registry id it samples and its four
/// transformed vertices, drawn as two triangles over the shared quad
/// index pattern.
#[derive(Clone, Copy, Debug)]
pub struct TexturedQuad {
    pub texture_id: u32,
    pub vertices: [TextureVertex; 4],
}

/// Builds the textured quad of an image primitive: a unit-wide quad whose
/// height corrects the image's aspect ratio by the output resolution's,
/// mapped to the subrect (or the full unit rect), with all four corners
/// transformed.  Fails with `MissingResource` exactly when the registry
/// does not know the id, and with `NumericOverflow` exactly when some
/// value leaves the fixed-point range.
pub fn image_quad(
    img: &Img,
    t: &Transformation2D,
    registry: &TextureRegistry,
    resolution_w: u32,
    resolution_h: u32,
) -> (r: Result<TexturedQuad, RenderingError>)
    requires
        registry.wf(),
        mat_in_bounds(t@),
        resolution_w >= 1,
        resolution_h >= 1,
    ensures
        match r {
            Ok(q) => {
                &&& registry.lookup(img.id) is Some
                &&& quad_ok(*img, t@, registry.lookup(img.id)->Some_0, resolution_w, resolution_h)
                &&& q.texture_id == img.id
                &&& forall|k: int|
                    0 <= k < 4 ==> q.vertices@[k] == quad_vertex_spec(
                        *img,
                        t@,
                        registry.lookup(img.id)->Some_0,
                        resolution_w,
                        resolution_h,
                        k,
                    )
            },
            Err(e) => {
                ||| (e == RenderingError::MissingResource(img.id) && registry.lookup(img.id)
                    is None)
                ||| (e == RenderingError::NumericOverflow && registry.lookup(img.id) is Some
                    && !quad_ok(
                    *img,
                    t@,
                    registry.lookup(img.id)->Some_0,
                    resolution_w,
                    resolution_h,
                ))
            },
        },
{
    let info = match registry.get(img.id) {
        Some(info) => info,
        None => {
            return Err(RenderingError::MissingResource(img.id));
        },
    };
    proof {
        assert(1 <= info.width as int * resolution_h as int <= 0x1_0000_0000_0000_0000)
            by (nonlinear_arith)
            requires
                1 <= (info.width as int) <= 0x1_0000_0000,
                1 <= (resolution_h as int) <= 0x1_0000_0000,
        ;
        assert(0 <= info.height as int * resolution_w as int <= 0x1_0000_0000_0000_0000)
            by (nonlinear_arith)
            requires
                1 <= (info.height as int) <= 0x1_0000_0000,
                1 <= (resolution_w as int) <= 0x1_0000_0000,
        ;
    }
    let numer: i128 = (FX_ONE as i128) * ((info.height as i128) * (resolution_w as i128));
    let denom: i128 = (info.width as i128) * (resolution_h as i128);
    let qh: i128 = div_tz_exec(numer, denom);
    proof {
        vstd::arithmetic::div_mod::lemma_div_pos_is_pos(numer as int, denom as int);
    }
    if qh > MAT_MAX as i128 {
        return Err(RenderingError::NumericOverflow);
    }
    let hh: i128 = qh / 2;
    proof {
        vstd::arithmetic::div_mod::lemma_div_pos_is_pos(qh as int, 2);
        vstd::arithmetic::div_mod::lemma_div_is_ordered_by_denominator(qh as int, 1, 2);
        assert(hh as int == div_tz(qh as int, 2));
    }
    let hh64: i64 = hh as i64;
    let r: Rect = match img.subrect {
        Some(r) => r,
        None => Rect { x: 0, y: 0, w: FX_ONE, h: FX_ONE },
    };
    let v0: i64 = match FX_ONE.checked_sub(r.y) {
        Some(v) => v,
        None => {
            return Err(RenderingError::NumericOverflow);
        },
    };
    let v1: i64 = match FX_ONE.checked_sub(r.h) {
        Some(v) => v,
        None => {
            return Err(RenderingError::NumericOverflow);
        },
    };
    let c0 = Point { x: -2048, y: -hh64 };
    let c1 = Point { x: 2048, y: -hh64 };
    let c2 = Point { x: 2048, y: hh64 };
    let c3 = Point { x: -2048, y: hh64 };
    let p0 = match t.try_apply_to(c0) {
        Some(p) => p,
        None => {
            return Err(RenderingError::NumericOverflow);
        },
    };
    let p1 = match t.try_apply_to(c1) {
        Some(p) => p,
        None => {
            return Err(RenderingError::NumericOverflow);
        },
    };
    let p2 = match t.try_apply_to(c2) {
        Some(p) => p,
        None => {
            return Err(RenderingError::NumericOverflow);
        },
    };
    let p3 = match t.try_apply_to(c3) {
        Some(p) => p,
        None => {
            return Err(RenderingError::NumericOverflow);
        },
    };
    let vertices: [TextureVertex; 4] = [
        TextureVertex { position: p0, tex_coords: Point { x: r.x, y: v0 } },
        TextureVertex { position: p1, tex_coords: Point { x: r.w, y: v0 } },
        TextureVertex { position: p2, tex_coords: Point { x: r.w, y: v1 } },
        TextureVertex { position: p3, tex_coords: Point { x: r.x, y: v1 } },
    ];
    Ok(TexturedQuad { texture_id: img.id, vertices })
}


/// The square of an integer.
pub open spec fn sq(x: int) -> int {
    x * x
}

/// Whether `s` is the integer square root of `x`, rounded down.
pub open spec fn is_floor_sqrt(s: int, x: int) -> bool {
    0 <= s && sq(s) <= x < sq(s + 1)
}

/// The integer square root of `x`, rounded down.
pub open spec fn floor_sqrt_of(x: int) -> int {
    choose|s: int| is_floor_sqrt(s, x)
}

/// The integer square root is unique.
pub proof fn lemma_floor_sqrt_unique(s1: int, s2: int, x: int)
    requires
        is_floor_sqrt(s1, x),
        is_floor_sqrt(s2, x),
    ensures
        s1 == s2,
{
    assert(s1 == s2) by (nonlinear_arith)
        requires
            0 <= s1,
            0 <= s2,
            s1 * s1 <= x,
            x < (s1 + 1) * (s1 + 1),
            s2 * s2 <= x,
            x < (s2 + 1) * (s2 + 1),
    ;
}

/// The integer square root, rounded down, by bisection.
fn isqrt(x: u128) -> (r: u64)
    ensures
        r as int == floor_sqrt_of(x as int),
        is_floor_sqrt(r as int, x as int),
{
    let mut lo: u128 = 0;
    let mut hi: u128 = 0x1_0000_0000_0000_0000;
    proof {
        assert((0x1_0000_0000_0000_0000 as int) * (0x1_0000_0000_0000_0000 as int)
            > u128::MAX as int) by (nonlinear_arith);
    }
    while hi - lo > 1
        invariant
            lo < hi <= 0x1_0000_0000_0000_0000,
            sq(lo as int) <= x as int,
            (x as int) < sq(hi as int),
        decreases hi - lo,
    {
        let mid: u128 = lo + (hi - lo) / 2;
        proof {
            assert(lo < mid < hi);
            assert(mid * mid < 0x1_0000_0000_0000_0000_0000_0000_0000_0000) by (nonlinear_arith)
                requires
                    mid < 0x1_0000_0000_0000_0000,
            ;
        }
        if mid * mid <= x {
            lo = mid;
        } else {
            hi = mid;
        }
    }
    proof {
        assert(hi as int == lo as int + 1);
        assert(is_floor_sqrt(lo as int, x as int));
        lemma_floor_sqrt_unique(floor_sqrt_of(x as int), lo as int, x as int);
        assert(lo < 0x1_0000_0000_0000_0000) by {
            if lo == 0x1_0000_0000_0000_0000 {
                assert(sq(lo as int) > u128::MAX as int);
            }
        }
    }
    lo as u64
}

/// The squared distance of two fixed-point points.
pub open spec fn dist2_spec(a: Point, b: Point) -> int {
    sq(a.x as int - b.x as int) + sq(a.y as int - b.y as int)
}

/// The squared distance of two admissible points, exactly.
fn dist2(a: Point, b: Point) -> (r: u128)
    requires
        -MAT_MAX <= a.x <= MAT_MAX,
        -MAT_MAX <= a.y <= MAT_MAX,
        -MAT_MAX <= b.x <= MAT_MAX,
        -MAT_MAX <= b.y <= MAT_MAX,
    ensures
        r as int == dist2_spec(a, b),
{
    let dx: i128 = a.x as i128 - b.x as i128;
    let dy: i128 = a.y as i128 - b.y as i128;
    let dxa: i128 = if dx < 0 {
        -dx
    } else {
        dx
    };
    let dya: i128 = if dy < 0 {
        -dy
    } else {
        dy
    };
    proof {
        assert((dxa as int) * (dxa as int) == (dx as int) * (dx as int)) by (nonlinear_arith)
            requires
                dxa as int == dx as int || dxa as int == -(dx as int),
        ;
        assert((dya as int) * (dya as int) == (dy as int) * (dy as int)) by (nonlinear_arith)
            requires
                dya as int == dy as int || dya as int == -(dy as int),
        ;
        assert(0 <= (dxa as int) * (dxa as int)
            <= 0x4000_0000_0000_0000_0000_0000_0000_0000) by (nonlinear_arith)
            requires
                0 <= dxa as int <= 0x8000_0000_0000_0000,
        ;
        assert(0 <= (dya as int) * (dya as int)
            <= 0x4000_0000_0000_0000_0000_0000_0000_0000) by (nonlinear_arith)
            requires
                0 <= dya as int <= 0x8000_0000_0000_0000,
        ;
    }
    (dxa as u128) * (dxa as u128) + (dya as u128) * (dya as u128)
}

/// The squared distances the unit basis vectors are moved by `m`, and
/// their minimum: the squared linear scale factor of the transform.
pub open spec fn d2x_spec(m: MatSpec) -> int {
    dist2_spec(
        applied(m, Point { x: FX_ONE as i64, y: 0 }),
        applied(m, Point { x: 0, y: 0 }),
    )
}

pub open spec fn d2y_spec(m: MatSpec) -> int {
    dist2_spec(
        applied(m, Point { x: 0, y: FX_ONE as i64 }),
        applied(m, Point { x: 0, y: 0 }),
    )
}

pub open spec fn d2min_spec(m: MatSpec) -> int {
    if d2x_spec(m) <= d2y_spec(m) {
        d2x_spec(m)
    } else {
        d2y_spec(m)
    }
}

/// The stroke width of a curve under `m`: its thickness scaled by the
/// transform's linear scale factor, the smaller of the distances the unit
/// basis vectors are moved.
pub open spec fn width_spec(bez: Bezier, m: MatSpec) -> int {
    div_tz(bez.thickness as int * floor_sqrt_of(d2min_spec(m)), FX_ONE as int)
}

/// The midpoint of two points, each coordinate rounded toward zero.
pub open spec fn mid_spec(a: Point, b: Point) -> Point {
    Point {
        x: div_tz(a.x as int + b.x as int, 2) as i64,
        y: div_tz(a.y as int + b.y as int, 2) as i64,
    }
}

/// The midpoint of two admissible points.
fn mid(a: Point, b: Point) -> (r: Point)
    requires
        -MAT_MAX <= a.x <= MAT_MAX,
        -MAT_MAX <= a.y <= MAT_MAX,
        -MAT_MAX <= b.x <= MAT_MAX,
        -MAT_MAX <= b.y <= MAT_MAX,
    ensures
        r == mid_spec(a, b),
        -MAT_MAX <= r.x <= MAT_MAX,
        -MAT_MAX <= r.y <= MAT_MAX,
{
    let sx: i128 = a.x as i128 + b.x as i128;
    let sy: i128 = a.y as i128 + b.y as i128;
    let mx: i128 = div_tz_exec(sx, 2);
    let my: i128 = div_tz_exec(sy, 2);
    proof {
        crate::transform::lemma_div_tz_bounded(sx as int, 2, MAT_MAX as int);
        crate::transform::lemma_div_tz_bounded(sy as int, 2, MAT_MAX as int);
    }
    Point { x: mx as i64, y: my as i64 }
}

/// Whether preparing the stroke of a curve under `m` stays within machine
/// range: the control points and their images fit, the basis-vector
/// images fit, and the scaled width fits.
pub open spec fn stroke_ok(bez: Bezier, m: MatSpec) -> bool {
    &&& -MAT_MAX <= bez.points@[0].x <= MAT_MAX && -MAT_MAX <= bez.points@[0].y <= MAT_MAX
    &&& -MAT_MAX <= bez.points@[1].x <= MAT_MAX && -MAT_MAX <= bez.points@[1].y <= MAT_MAX
    &&& -MAT_MAX <= bez.points@[2].x <= MAT_MAX && -MAT_MAX <= bez.points@[2].y <= MAT_MAX
    &&& apply_in_range(m, bez.points@[0])
    &&& apply_in_range(m, bez.points@[1])
    &&& apply_in_range(m, bez.points@[2])
    &&& apply_in_range(m, Point { x: 0, y: 0 })
    &&& apply_in_range(m, Point { x: FX_ONE as i64, y: 0 })
    &&& apply_in_range(m, Point { x: 0, y: FX_ONE as i64 })
    &&& -(MAT_MAX as int) <= width_spec(bez, m) <= MAT_MAX as int
}

/// A compiled curve primitive, ready for a stroke tessellator: the cubic
/// control points (already transformed), the stroke width in fixed-point
/// units, and the linear-space color.
#[derive(Clone, Copy, Debug)]
pub struct StrokeSpec {
    pub start: Point,
    pub ctrl1: Point,
    pub ctrl2: Point,
    pub end: Point,
    pub width: i64,
    pub color: [u32; 3],
}

/// The compiled stroke of a curve under `m`: the three control points are
/// transformed, then promoted to the cubic through their midpoints.
pub open spec fn stroke_spec(bez: Bezier, m: MatSpec) -> StrokeSpec {
    let q0 = applied(m, bez.points@[0]);
    let q1 = applied(m, bez.points@[1]);
    let q2 = applied(m, bez.points@[2]);
    StrokeSpec {
        start: q0,
        ctrl1: mid_spec(q0, q1),
        ctrl2: mid_spec(q1, q2),
        end: q2,
        width: width_spec(bez, m) as i64,
        color: [linear_of(bez.color.r), linear_of(bez.color.g), linear_of(bez.color.b)],
    }
}

/// Builds the stroke of a curve primitive: control points transformed by
/// the effective transform, promoted from the quadratic control polygon
/// to the cubic `q0, mid(q0,q1), mid(q1,q2), q2`, with the thickness
/// scaled by the transform's linear scale factor and the color converted
/// to linear space.  Fails exactly when some value leaves the fixed-point
/// range.
pub fn bezier_stroke(bez: &Bezier, t: &Transformation2D) -> (r: Result<
    StrokeSpec,
    RenderingError,
>)
    requires
        mat_in_bounds(t@),
    ensures
        match r {
            Ok(ss) => stroke_ok(*bez, t@) && ss == stroke_spec(*bez, t@),
            Err(e) => e == RenderingError::NumericOverflow && !stroke_ok(*bez, t@),
        },
{
    let p0 = bez.points[0];
    let p1 = bez.points[1];
    let p2 = bez.points[2];
    if !(-MAT_MAX <= p0.x && p0.x <= MAT_MAX && -MAT_MAX <= p0.y && p0.y <= MAT_MAX && -MAT_MAX
        <= p1.x && p1.x <= MAT_MAX && -MAT_MAX <= p1.y && p1.y <= MAT_MAX && -MAT_MAX <= p2.x
        && p2.x <= MAT_MAX && -MAT_MAX <= p2.y && p2.y <= MAT_MAX) {
        return Err(RenderingError::NumericOverflow);
    }
    let q0 = match t.try_apply_to(p0) {
        Some(q) => q,
        None => {
            return Err(RenderingError::NumericOverflow);
        },
    };
    let q1 = match t.try_apply_to(p1) {
        Some(q) => q,
        None => {
            return Err(RenderingError::NumericOverflow);
        },
    };
    let q2 = match t.try_apply_to(p2) {
        Some(q) => q,
        None => {
            return Err(RenderingError::NumericOverflow);
        },
    };
    let origin = match t.try_apply_to(Point { x: 0, y: 0 }) {
        Some(q) => q,
        None => {
            return Err(RenderingError::NumericOverflow);
        },
    };
    let unit_x = match t.try_apply_to(Point { x: FX_ONE, y: 0 }) {
        Some(q) => q,
        None => {
            return Err(RenderingError::NumericOverflow);
        },
    };
    let unit_y = match t.try_apply_to(Point { x: 0, y: FX_ONE }) {
        Some(q) => q,
        None => {
            return Err(RenderingError::NumericOverflow);
        },
    };
    proof {
        assert(p0 == bez.points@[0]);
        assert(p1 == bez.points@[1]);
        assert(p2 == bez.points@[2]);
        assert(q0 == applied(t@, bez.points@[0]));
        assert(q1 == applied(t@, bez.points@[1]));
        assert(q2 == applied(t@, bez.points@[2]));
        assert(origin == applied(t@, Point { x: 0, y: 0 }));
        assert(unit_x == applied(t@, Point { x: FX_ONE as i64, y: 0 }));
        assert(unit_y == applied(t@, Point { x: 0, y: FX_ONE as i64 }));
    }
    let d2x: u128 = dist2(unit_x, origin);
    let d2y: u128 = dist2(unit_y, origin);
    let d2min: u128 = if d2x <= d2y {
        d2x
    } else {
        d2y
    };
    proof {
        assert(d2x as int == d2x_spec(t@));
        assert(d2y as int == d2y_spec(t@));
        assert(d2min as int == d2min_spec(t@));
    }
    let s: u64 = isqrt(d2min);
    proof {
        assert(-0x8000_0000_0000_0000_0000_0000_0000_0000
            < (bez.thickness as int) * (s as int)
            < 0x8000_0000_0000_0000_0000_0000_0000_0000) by (nonlinear_arith)
            requires
                -0x8000_0000_0000_0000 <= (bez.thickness as int) <= 0x8000_0000_0000_0000,
                0 <= (s as int) < 0x1_0000_0000_0000_0000,
        ;
    }
    let w128: i128 = (bez.thickness as i128) * (s as i128);
    let w: i128 = div_tz_exec(w128, FX_ONE as i128);
    proof {
        assert(s as int == floor_sqrt_of(d2min_spec(t@)));
        assert(w as int == width_spec(*bez, t@));
    }
    if !(-(MAT_MAX as i128) <= w && w <= MAT_MAX as i128) {
        return Err(RenderingError::NumericOverflow);
    }
    let color = bez.color.to_linear_rgb();
    proof {
        assert(color =~= stroke_spec(*bez, t@).color);
    }
    Ok(
        StrokeSpec {
            start: q0,
            ctrl1: mid(q0, q1),
            ctrl2: mid(q1, q2),
            end: q2,
            width: w as i64,
            color,
        },
    )
}


/// A compiled drawable: a textured quad or a stroke awaiting tessellation.
#[derive(Clone, Copy, Debug)]
pub enum DrawItem {
    Quad(TexturedQuad),
    Stroke(StrokeSpec),
}

/// The four quad vertices of an image under `m`, as one value.
pub open spec fn quad_spec(img: Img, m: MatSpec, info: TextureInfo, rw: u32, rh: u32) -> TexturedQuad {
    TexturedQuad {
        texture_id: img.id,
        vertices: [
            quad_vertex_spec(img, m, info, rw, rh, 0),
            quad_vertex_spec(img, m, info, rw, rh, 1),
            quad_vertex_spec(img, m, info, rw, rh, 2),
            quad_vertex_spec(img, m, info, rw, rh, 3),
        ],
    }
}

/// What one flattened primitive compiles to: a quad, a stroke, nothing
/// (text is skipped), or the error that stops the frame.
pub open spec fn item_of_pair(o: Object, m: MatSpec, reg: TextureRegistry, rw: u32, rh: u32) -> Result<Option<DrawItem>, RenderingError> {
    match o {
        Object::Text(_) => Ok(None),
        Object::Img(img) => {
            if reg.lookup(img.id) is None {
                Err(RenderingError::MissingResource(img.id))
            } else if quad_ok(img, m, reg.lookup(img.id)->Some_0, rw, rh) {
                Ok(Some(DrawItem::Quad(quad_spec(img, m, reg.lookup(img.id)->Some_0, rw, rh))))
            } else {
                Err(RenderingError::NumericOverflow)
            }
        },
        Object::Bezier(b) => {
            if stroke_ok(b, m) {
                Ok(Some(DrawItem::Stroke(stroke_spec(b, m))))
            } else {
                Err(RenderingError::NumericOverflow)
            }
        },
    }
}

/// The contribution of one compiled primitive to the draw-item list.
pub open spec fn opt_item_seq(o: Option<DrawItem>) -> Seq<DrawItem> {
    match o {
        Some(d) => seq![d],
        None => Seq::empty(),
    }
}

/// Compiling a flattened primitive list: primitives in order, text
/// skipped, stopped by the first failing primitive's error.
pub open spec fn compile_spec(pairs: Seq<(Object, MatSpec)>, reg: TextureRegistry, rw: u32, rh: u32) -> Result<Seq<DrawItem>, RenderingError>
    decreases pairs.len(),
{
    if pairs.len() == 0 {
        Ok(Seq::empty())
    } else {
        match item_of_pair(pairs[0].0, pairs[0].1, reg, rw, rh) {
            Err(e) => Err(e),
            Ok(opt) => match compile_spec(pairs.subrange(1, pairs.len() as int), reg, rw, rh) {
                Err(e) => Err(e),
                Ok(t) => Ok(opt_item_seq(opt) + t),
            },
        }
    }
}

/// What remains of the compilation once `done` items are already built.
pub open spec fn compile_cont(done: Seq<DrawItem>, rest: Result<Seq<DrawItem>, RenderingError>) -> Result<Seq<DrawItem>, RenderingError> {
    match rest {
        Ok(t) => Ok(done + t),
        Err(e) => Err(e),
    }
}

/// Compiles the ordered primitive list of one frame into draw items: a
/// textured quad per image (a missing registry id is a hard error), a
/// stroke per curve, nothing for text.  The first failing primitive
/// aborts the frame with its error.
pub fn compile_draw_items(
    objects: &Vec<(&Object, Transformation2D)>,
    registry: &TextureRegistry,
    resolution_w: u32,
    resolution_h: u32,
) -> (r: Result<Vec<DrawItem>, RenderingError>)
    requires
        registry.wf(),
        resolution_w >= 1,
        resolution_h >= 1,
        forall|k: int|
            0 <= k < objects@.len() ==> mat_in_bounds((#[trigger] objects@[k]).1@),
    ensures
        match r {
            Ok(v) => compile_spec(
                crate::flatten::pairs_view(objects@),
                *registry,
                resolution_w,
                resolution_h,
            ) == Ok::<Seq<DrawItem>, RenderingError>(v@),
            Err(e) => compile_spec(
                crate::flatten::pairs_view(objects@),
                *registry,
                resolution_w,
                resolution_h,
            ) == Err::<Seq<DrawItem>, RenderingError>(e),
        },
{
    let ghost pv = crate::flatten::pairs_view(objects@);
    let mut out: Vec<DrawItem> = Vec::new();
    let mut k: usize = 0;
    proof {
        assert(pv.skip(0) =~= pv);
        if compile_spec(pv, *registry, resolution_w, resolution_h) is Ok {
            let t = compile_spec(pv, *registry, resolution_w, resolution_h)->Ok_0;
            assert(Seq::<DrawItem>::empty() + t =~= t);
        }
    }
    while k < objects.len()
        invariant
            k <= objects@.len(),
            pv == crate::flatten::pairs_view(objects@),
            registry.wf(),
            resolution_w >= 1,
            resolution_h >= 1,
            forall|k2: int|
                0 <= k2 < objects@.len() ==> mat_in_bounds((#[trigger] objects@[k2]).1@),
            compile_spec(pv, *registry, resolution_w, resolution_h) == compile_cont(
                out@,
                compile_spec(pv.skip(k as int), *registry, resolution_w, resolution_h),
            ),
        decreases objects@.len() - k,
    {
        let ghost rest = pv.skip(k as int);
        proof {
            assert(rest[0] == pv[k as int]);
            assert(pv[k as int] == (*objects@[k as int].0, objects@[k as int].1@));
            assert(rest.subrange(1, rest.len() as int) =~= pv.skip(k as int + 1));
        }
        let pair = objects[k];
        let ghost out0 = out@;
        match pair.0 {
            Object::Text(_) => {
                proof {
                    assert(item_of_pair(rest[0].0, rest[0].1, *registry, resolution_w,
                        resolution_h) == Ok::<Option<DrawItem>, RenderingError>(None));
                    if compile_spec(pv.skip(k as int + 1), *registry, resolution_w,
                        resolution_h) is Ok {
                        let t = compile_spec(pv.skip(k as int + 1), *registry, resolution_w,
                            resolution_h)->Ok_0;
                        assert(opt_item_seq(None) + t =~= t);
                    }
                }
            },
            Object::Img(img) => {
                match image_quad(img, &pair.1, registry, resolution_w, resolution_h) {
                    Ok(q) => {
                        out.push(DrawItem::Quad(q));
                        proof {
                            let info = registry.lookup(img.id)->Some_0;
                            assert(q.vertices =~= quad_spec(*img, pair.1@, info, resolution_w,
                                resolution_h).vertices);
                            assert(q == quad_spec(*img, pair.1@, info, resolution_w,
                                resolution_h));
                            if compile_spec(pv.skip(k as int + 1), *registry, resolution_w,
                                resolution_h) is Ok {
                                let t = compile_spec(pv.skip(k as int + 1), *registry,
                                    resolution_w, resolution_h)->Ok_0;
                                assert(out0 + (opt_item_seq(Some(DrawItem::Quad(q))) + t) =~= out@
                                    + t);
                            }
                        }
                    },
                    Err(e) => {
                        proof {
                            assert(compile_spec(rest, *registry, resolution_w, resolution_h)
                                == Err::<Seq<DrawItem>, RenderingError>(e));
                        }
                        return Err(e);
                    },
                }
            },
            Object::Bezier(b) => {
                match bezier_stroke(b, &pair.1) {
                    Ok(ss) => {
                        out.push(DrawItem::Stroke(ss));
                        proof {
                            if compile_spec(pv.skip(k as int + 1), *registry, resolution_w,
                                resolution_h) is Ok {
                                let t = compile_spec(pv.skip(k as int + 1), *registry,
                                    resolution_w, resolution_h)->Ok_0;
                                assert(out0 + (opt_item_seq(Some(DrawItem::Stroke(ss))) + t)
                                    =~= out@ + t);
                            }
                        }
                    },
                    Err(e) => {
                        proof {
                            assert(compile_spec(rest, *registry, resolution_w, resolution_h)
                                == Err::<Seq<DrawItem>, RenderingError>(e));
                        }
                        return Err(e);
                    },
                }
            },
        }
        k = k + 1;
    }
    proof {
        assert(pv.skip(k as int) =~= Seq::<(Object, MatSpec)>::empty());
        assert(compile_spec(pv.skip(k as int), *registry, resolution_w, resolution_h)
            == Ok::<Seq<DrawItem>, RenderingError>(Seq::empty()));
        assert(out@ + Seq::<DrawItem>::empty() =~= out@);
    }
    Ok(out)
}


/// The two GPU pipelines a batch can run on: texture sampling for image
/// quads, solid color triangles for strokes.
#[derive(Clone, Copy, PartialEq, Eq, Structural, Debug)]
pub enum PipelineKind {
    Textured,
    Stroke,
}

/// The triangle mesh a stroke tessellates to, with indices local to its
/// own vertex range.
pub struct StrokeMesh {
    pub vertices: Vec<ColorVertex>,
    pub indices: Vec<u16>,
}

/// One draw call: a pipeline, the texture binding it samples (textured
/// batches only, keyed by registry id), which shared buffers it reads,
/// and the vertex and index sub-ranges that belong to it.
#[derive(Clone, Copy, Debug)]
pub struct RenderSettings {
    pub pipeline: PipelineKind,
    pub bind_group: Option<u32>,
    pub vertices_buffer_id: usize,
    pub indices_buffer_id: usize,
    pub vertices_range: (usize, usize),
    pub indices_range: (usize, usize),
}

/// The compiled draw data of one frame: one shared vertex/index buffer
/// pair per pipeline kind, and the ordered draw list over them.
pub struct RenderData {
    pub texture_vertices: Vec<TextureVertex>,
    pub texture_indices: Vec<u16>,
    pub triangle_vertices: Vec<ColorVertex>,
    pub triangle_indices: Vec<u16>,
    pub render_order: Vec<RenderSettings>,
}

/// How many of the items are strokes.
pub open spec fn count_strokes(s: Seq<DrawItem>) -> nat
    decreases s.len(),
{
    if s.len() == 0 {
        0
    } else {
        count_strokes(s.drop_last()) + (if s.last() is Stroke {
            1nat
        } else {
            0nat
        })
    }
}

/// The quad vertices of the items, concatenated in item order.
pub open spec fn tex_verts_spec(s: Seq<DrawItem>) -> Seq<TextureVertex>
    decreases s.len(),
{
    if s.len() == 0 {
        Seq::empty()
    } else {
        tex_verts_spec(s.drop_last()) + (match s.last() {
            DrawItem::Quad(q) => q.vertices@,
            DrawItem::Stroke(_) => Seq::empty(),
        })
    }
}

/// The stroke vertices of the first `j` meshes, concatenated.
pub open spec fn tri_verts_spec(meshes: Seq<StrokeMesh>, j: int) -> Seq<ColorVertex>
    decreases j,
{
    if j <= 0 {
        Seq::empty()
    } else {
        tri_verts_spec(meshes, j - 1) + meshes[j - 1].vertices@
    }
}

/// The stroke indices of the first `j` meshes, concatenated.
pub open spec fn tri_idx_spec(meshes: Seq<StrokeMesh>, j: int) -> Seq<u16>
    decreases j,
{
    if j <= 0 {
        Seq::empty()
    } else {
        tri_idx_spec(meshes, j - 1) + meshes[j - 1].indices@
    }
}

/// The vertex index pattern of every quad: two triangles.
pub open spec fn rect_indices() -> Seq<u16> {
    seq![0u16, 1u16, 2u16, 0u16, 2u16, 3u16]
}

/// The draw call that item `k` becomes: a quad draws four fresh vertices
/// of the shared quad buffer over the shared quad index pattern, bound to
/// its texture; a stroke draws its own mesh's sub-range of the shared
/// triangle buffers.
pub open spec fn batch_spec(items: Seq<DrawItem>, meshes: Seq<StrokeMesh>, k: int) -> RenderSettings {
    match items[k] {
        DrawItem::Quad(q) => RenderSettings {
            pipeline: PipelineKind::Textured,
            bind_group: Some(q.texture_id),
            vertices_buffer_id: 0,
            indices_buffer_id: 1,
            vertices_range: (
                tex_verts_spec(items.take(k)).len() as usize,
                (tex_verts_spec(items.take(k)).len() + 4) as usize,
            ),
            indices_range: (0, 6),
        },
        DrawItem::Stroke(_) => {
            let j = count_strokes(items.take(k)) as int;
            RenderSettings {
                pipeline: PipelineKind::Stroke,
                bind_group: None,
                vertices_buffer_id: 2,
                indices_buffer_id: 3,
                vertices_range: (
                    tri_verts_spec(meshes, j).len() as usize,
                    tri_verts_spec(meshes, j + 1).len() as usize,
                ),
                indices_range: (
                    tri_idx_spec(meshes, j).len() as usize,
                    tri_idx_spec(meshes, j + 1).len() as usize,
                ),
            }
        },
    }
}

/// A prefix has no more strokes than the whole.
proof fn lemma_count_strokes_mono(s: Seq<DrawItem>, j: int)
    requires
        0 <= j <= s.len(),
    ensures
        count_strokes(s.take(j)) <= count_strokes(s),
    decreases s.len(),
{
    if j == s.len() {
        assert(s.take(j) =~= s);
    } else {
        assert(s.take(j) =~= s.drop_last().take(j));
        lemma_count_strokes_mono(s.drop_last(), j);
    }
}

impl RenderData {
    /// Lays the compiled draw items out over the shared buffers: one batch
    /// per item, in item order, each referencing its own sub-range, with
    /// all quad geometry in one vertex buffer and all stroke geometry in
    /// another.  `meshes` holds the tessellated mesh of each stroke item,
    /// in item order.  Adjacent batches that share a pipeline and binding
    /// are not coalesced: submission order must follow depth order, and
    /// one draw call per primitive keeps that evident.
    pub fn new(items: &Vec<DrawItem>, meshes: &Vec<StrokeMesh>) -> (rd: RenderData)
            requires
            meshes@.len() == count_strokes(items@),
        ensures
            rd.render_order@.len() == items@.len(),
            forall|k: int|
                0 <= k < items@.len() ==> rd.render_order@[k] == batch_spec(items@, meshes@, k),
            rd.texture_vertices@ == tex_verts_spec(items@),
            rd.texture_indices@ == rect_indices(),
            rd.triangle_vertices@ == tri_verts_spec(meshes@, meshes@.len() as int),
            rd.triangle_indices@ == tri_idx_spec(meshes@, meshes@.len() as int),
    {
        let mut texture_vertices: Vec<TextureVertex> = Vec::new();
        let mut triangle_vertices: Vec<ColorVertex> = Vec::new();
        let mut triangle_indices: Vec<u16> = Vec::new();
        let mut render_order: Vec<RenderSettings> = Vec::new();
        let mut texture_indices: Vec<u16> = Vec::new();
        texture_indices.push(0);
        texture_indices.push(1);
        texture_indices.push(2);
        texture_indices.push(0);
        texture_indices.push(2);
        texture_indices.push(3);
        proof {
            assert(texture_indices@ =~= rect_indices());
            assert(items@.take(0) =~= Seq::<DrawItem>::empty());
        }
        let mut strokes_done: usize = 0;
        let mut k: usize = 0;
        while k < items.len()
            invariant
                k <= items@.len(),
                meshes@.len() == count_strokes(items@),
                strokes_done == count_strokes(items@.take(k as int)),
                strokes_done <= meshes@.len(),
                render_order@.len() == k,
                forall|i: int|
                    0 <= i < k ==> render_order@[i] == batch_spec(items@, meshes@, i),
                texture_vertices@ == tex_verts_spec(items@.take(k as int)),
                triangle_vertices@ == tri_verts_spec(meshes@, strokes_done as int),
                triangle_indices@ == tri_idx_spec(meshes@, strokes_done as int),
                texture_indices@ == rect_indices(),
            decreases items@.len() - k,
        {
            let ghost pre = items@.take(k as int);
            proof {
                assert(items@.take(k as int + 1) =~= pre.push(items@[k as int]));
                assert(items@.take(k as int + 1).drop_last() =~= pre);
                lemma_count_strokes_mono(items@, k as int + 1);
            }
            let item = &items[k];
            match item {
                DrawItem::Quad(q) => {
                    let base = texture_vertices.len();
                    texture_vertices.push(q.vertices[0]);
                    texture_vertices.push(q.vertices[1]);
                    texture_vertices.push(q.vertices[2]);
                    texture_vertices.push(q.vertices[3]);
                    let end = texture_vertices.len();
                    render_order.push(
                        RenderSettings {
                            pipeline: PipelineKind::Textured,
                            bind_group: Some(q.texture_id),
                            vertices_buffer_id: 0,
                            indices_buffer_id: 1,
                            vertices_range: (base, end),
                            indices_range: (0, 6),
                        },
                    );
                    proof {
                        assert(texture_vertices@ =~= tex_verts_spec(items@.take(k as int + 1)));
                        assert(count_strokes(items@.take(k as int + 1)) == strokes_done);
                        assert(render_order@.last() == batch_spec(items@, meshes@, k as int));
                    }
                },
                DrawItem::Stroke(_) => {
                    proof {
                        assert(count_strokes(items@.take(k as int + 1)) == strokes_done + 1);
                        assert(strokes_done < meshes@.len());
                    }
                    let mesh_total: usize = meshes.len();
                    proof {
                        assert(meshes@.len() == mesh_total);
                    }
                    let mesh = &meshes[strokes_done];
                    let vbase = triangle_vertices.len();
                    let ibase = triangle_indices.len();
                    let mut i: usize = 0;
                    while i < mesh.vertices.len()
                        invariant
                            i <= mesh.vertices@.len(),
                            mesh == &meshes@[strokes_done as int],
                            strokes_done < meshes@.len(),
                            triangle_vertices@ == tri_verts_spec(meshes@, strokes_done as int)
                                + mesh.vertices@.take(i as int),
                        decreases mesh.vertices@.len() - i,
                    {
                        triangle_vertices.push(mesh.vertices[i]);
                        proof {
                            assert(mesh.vertices@.take(i as int + 1) =~= mesh.vertices@.take(
                                i as int,
                            ).push(mesh.vertices@[i as int]));
                            assert(triangle_vertices@ =~= tri_verts_spec(meshes@, strokes_done as int)
                                + mesh.vertices@.take(i as int + 1));
                        }
                        i = i + 1;
                    }
                    let mut i2: usize = 0;
                    while i2 < mesh.indices.len()
                        invariant
                            i2 <= mesh.indices@.len(),
                            mesh == &meshes@[strokes_done as int],
                            strokes_done < meshes@.len(),
                            triangle_indices@ == tri_idx_spec(meshes@, strokes_done as int)
                                + mesh.indices@.take(i2 as int),
                        decreases mesh.indices@.len() - i2,
                    {
                        triangle_indices.push(mesh.indices[i2]);
                        proof {
                            assert(mesh.indices@.take(i2 as int + 1) =~= mesh.indices@.take(
                                i2 as int,
                            ).push(mesh.indices@[i2 as int]));
                            assert(triangle_indices@ =~= tri_idx_spec(meshes@, strokes_done as int)
                                + mesh.indices@.take(i2 as int + 1));
                        }
                        i2 = i2 + 1;
                    }
                    let vend = triangle_vertices.len();
                    let iend = triangle_indices.len();
                    render_order.push(
                        RenderSettings {
                            pipeline: PipelineKind::Stroke,
                            bind_group: None,
                            vertices_buffer_id: 2,
                            indices_buffer_id: 3,
                            vertices_range: (vbase, vend),
                            indices_range: (ibase, iend),
                        },
                    );
                    strokes_done = strokes_done + 1;
                    proof {
                        assert(mesh.vertices@.take(mesh.vertices@.len() as int) =~= mesh.vertices@);
                        assert(mesh.indices@.take(mesh.indices@.len() as int) =~= mesh.indices@);
                        assert(triangle_vertices@ =~= tri_verts_spec(meshes@, strokes_done as int));
                        assert(triangle_indices@ =~= tri_idx_spec(meshes@, strokes_done as int));
                        assert(texture_vertices@ =~= tex_verts_spec(items@.take(k as int + 1)));
                        assert(count_strokes(items@.take(k as int + 1)) == strokes_done);
                        assert(render_order@.last() == batch_spec(items@, meshes@, k as int));
                    }
                },
            }
            k = k + 1;
        }
        proof {
            assert(items@.take(k as int) =~= items@);
            assert(strokes_done == meshes@.len());
        }
        RenderData { texture_vertices, texture_indices, triangle_vertices, triangle_indices, render_order }
    }
}

} // verus!
