//! Runs the real stroke tessellator over a prepared stroke: the library
//! fixes the cubic control points, the width and the color; lyon turns
//! them into triangles, exactly as the rendering shell does.
use booglanim::color::Color;
use booglanim::interface::{Bezier, Point, Rotation, Transform};
use booglanim::render_data::{bezier_stroke, DrawItem, StrokeSpec};
use booglanim::FX_ONE;

use lyon::path::Path;
use lyon::tessellation::{
    BuffersBuilder, LineCap, StrokeOptions, StrokeTessellator, StrokeVertex, VertexBuffers,
};

fn fx_to_f32(v: i64) -> f32 {
    v as f32 / FX_ONE as f32
}

fn tessellate(ss: &StrokeSpec) -> Vec<[f32; 2]> {
    let mut builder = Path::builder();
    builder.begin(lyon::geom::point(fx_to_f32(ss.start.x), fx_to_f32(ss.start.y)));
    builder.cubic_bezier_to(
        lyon::geom::point(fx_to_f32(ss.ctrl1.x), fx_to_f32(ss.ctrl1.y)),
        lyon::geom::point(fx_to_f32(ss.ctrl2.x), fx_to_f32(ss.ctrl2.y)),
        lyon::geom::point(fx_to_f32(ss.end.x), fx_to_f32(ss.end.y)),
    );
    builder.end(false);
    let path = builder.build();

    let mut tessellator = StrokeTessellator::new();
    let mut geometry: VertexBuffers<[f32; 2], u16> = VertexBuffers::new();
    let options = StrokeOptions::default()
        .with_line_width(fx_to_f32(ss.width))
        .with_line_cap(LineCap::Round)
        .with_tolerance(0.001);
    tessellator
        .tessellate_path(
            &path,
            &options,
            &mut BuffersBuilder::new(&mut geometry, |vertex: StrokeVertex| {
                vertex.position().to_array()
            }),
        )
        .unwrap();
    geometry.vertices
}

#[test]
fn collinear_stroke_spans_expected_extent() {
    // Control points (0,0), (1,0), (2,0) with thickness one half under
    // the identity transform: the stroke covers x in [0,2] and stays
    // within half a thickness of the x axis (round caps may extend the
    // ends by half a thickness).
    let thickness = FX_ONE / 2;
    let bez = Bezier {
        thickness,
        color: Color::new(255, 255, 255),
        points: [
            Point { x: 0, y: 0 },
            Point { x: FX_ONE, y: 0 },
            Point { x: 2 * FX_ONE, y: 0 },
        ],
    };
    let identity = Transform {
        pos: Point { x: 0, y: 0 },
        scale: Point { x: FX_ONE, y: FX_ONE },
        angle: Rotation { cos: FX_ONE, sin: 0 },
    }
        .to_transformation();
    let ss = bezier_stroke(&bez, &identity).unwrap();
    // the promoted cubic runs through the midpoints of the control polygon
    assert_eq!(ss.start, Point { x: 0, y: 0 });
    assert_eq!(ss.ctrl1, Point { x: FX_ONE / 2, y: 0 });
    assert_eq!(ss.ctrl2, Point { x: 3 * FX_ONE / 2, y: 0 });
    assert_eq!(ss.end, Point { x: 2 * FX_ONE, y: 0 });
    // the identity moves unit vectors by exactly one unit, so the width
    // is the thickness itself
    assert_eq!(ss.width, thickness);

    let vertices = tessellate(&ss);
    assert!(!vertices.is_empty());
    let t = fx_to_f32(thickness);
    let tol = 0.002;
    let mut min_x = f32::MAX;
    let mut max_x = f32::MIN;
    let mut min_y = f32::MAX;
    let mut max_y = f32::MIN;
    for v in &vertices {
        min_x = min_x.min(v[0]);
        max_x = max_x.max(v[0]);
        min_y = min_y.min(v[1]);
        max_y = max_y.max(v[1]);
    }
    // spans x in [0, 2] ...
    assert!(min_x <= 0.0 + tol, "min_x = {}", min_x);
    assert!(max_x >= 2.0 - tol, "max_x = {}", max_x);
    // ... without leaving the cap-extended hull ...
    assert!(min_x >= 0.0 - t / 2.0 - tol, "min_x = {}", min_x);
    assert!(max_x <= 2.0 + t / 2.0 + tol, "max_x = {}", max_x);
    // ... and y stays within half a thickness of the axis
    assert!(min_y >= -t / 2.0 - tol, "min_y = {}", min_y);
    assert!(max_y <= t / 2.0 + tol, "max_y = {}", max_y);
    assert!(min_y <= -t / 2.0 + tol, "min_y = {}", min_y);
    assert!(max_y >= t / 2.0 - tol, "max_y = {}", max_y);
}

#[test]
fn scaled_transform_scales_stroke_width() {
    // A uniform scale of three triples the stroke width.
    let bez = Bezier {
        thickness: FX_ONE,
        color: Color::new(0, 128, 255),
        points: [
            Point { x: 0, y: 0 },
            Point { x: FX_ONE, y: 0 },
            Point { x: 2 * FX_ONE, y: 0 },
        ],
    };
    let scaled = Transform {
        pos: Point { x: 0, y: 0 },
        scale: Point { x: 3 * FX_ONE, y: 3 * FX_ONE },
        angle: Rotation { cos: FX_ONE, sin: 0 },
    }
        .to_transformation();
    let ss = bezier_stroke(&bez, &scaled).unwrap();
    assert_eq!(ss.width, 3 * FX_ONE);
    assert_eq!(ss.end, Point { x: 6 * FX_ONE, y: 0 });
    // the color rides along in linear space
    assert_eq!(ss.color, Color::new(0, 128, 255).to_linear_rgb());
}

#[test]
fn nonuniform_scale_uses_the_smaller_axis() {
    // Scales 2 and 5: the width follows the smaller movement of the two
    // unit basis vectors.
    let bez = Bezier {
        thickness: FX_ONE,
        color: Color::new(1, 2, 3),
        points: [
            Point { x: 0, y: 0 },
            Point { x: FX_ONE, y: 0 },
            Point { x: 2 * FX_ONE, y: 0 },
        ],
    };
    let t = Transform {
        pos: Point { x: 0, y: 0 },
        scale: Point { x: 5 * FX_ONE, y: 2 * FX_ONE },
        angle: Rotation { cos: FX_ONE, sin: 0 },
    }
        .to_transformation();
    let ss = bezier_stroke(&bez, &t).unwrap();
    assert_eq!(ss.width, 2 * FX_ONE);
}

#[test]
fn draw_item_variants_are_reachable() {
    // the enum compiled items travel in is plain data
    let ss = StrokeSpec {
        start: Point { x: 0, y: 0 },
        ctrl1: Point { x: 1, y: 0 },
        ctrl2: Point { x: 2, y: 0 },
        end: Point { x: 3, y: 0 },
        width: 1,
        color: [0, 0, 0],
    };
    match DrawItem::Stroke(ss) {
        DrawItem::Stroke(s) => assert_eq!(s.end, Point { x: 3, y: 0 }),
        DrawItem::Quad(_) => panic!("expected a stroke"),
    }
}
