//! The structs that form the interface between the UI and the renderer.
//! The UI sends a `VideoDescription` — an ordered list of frames, each a tree
//! of groups (`Node`) whose leaves are drawable primitives (`Object`) — and
//! the renderer turns every frame into one raster image.
//!
//! Every coordinate-like field is a fixed-point integer counted in units of
//! `1 / FX_ONE` scene units (see the crate root).
use vstd::prelude::*;

pub use crate::color::Color;

verus! {

/// A point in scene coordinates, in fixed-point units.
#[derive(Clone, Copy, PartialEq, Eq, Structural, Debug)]
pub struct Point {
    pub x: i64,
    pub y: i64,
}

/// An axis-aligned rectangle given by its left/top corner `(x, y)` and its
/// right/bottom corner `(w, h)`, all in fixed-point units of the unit square.
#[derive(Clone, Copy, PartialEq, Eq, Structural, Debug)]
pub struct Rect {
    pub x: i64,
    pub y: i64,
    pub w: i64,
    pub h: i64,
}

/// A rotation, given by the fixed-point cosine and sine of the angle.
///
/// The renderer only ever consumes the cosine and sine of a node's angle, so
/// the description carries exactly those two values; both must lie in
/// `[-FX_ONE, FX_ONE]`.
#[derive(Clone, Copy, PartialEq, Eq, Structural, Debug)]
pub struct Rotation {
    pub cos: i64,
    pub sin: i64,
}

/// A node's local transform: translation, non-uniform scale and rotation,
/// applied to child geometry in the fixed order scale, then rotate, then
/// translate.
#[derive(Clone, Copy, PartialEq, Eq, Structural, Debug)]
pub struct Transform {
    pub pos: Point,
    pub scale: Point,
    pub angle: Rotation,
}

/// A group in the scene tree.  An invisible node hides its entire subtree.
pub struct Node {
    /// Relative depth contribution; a child's combined depth is the sum of
    /// the depths of all its ancestors and its own.
    pub z: i64,
    pub transform: Transform,
    pub visible: bool,
    pub children: Vec<Container>,
}

/// A child of a node: either another group or a drawable leaf.
pub enum Container {
    Node(Node),
    Leaf(Object),
}

/// A drawable primitive.
pub enum Object {
    Bezier(Bezier),
    Img(Img),
    Text(Text),
}

/// Horizontal alignment of a text block.
#[derive(Clone, Copy, PartialEq, Eq, Structural, Debug)]
pub enum Alignment {
    Left,
    Center,
    Right,
}

/// A text block.  Text rendering is not implemented: the compositor skips
/// these leaves without emitting geometry.
pub struct Text {
    pub content: String,
    pub alignment: Alignment,
    pub width: i64,
}

/// A reference to an image in the texture registry.  Without a subrect the
/// whole unit rect `[0,0]-[1,1]` of the texture is shown.
#[derive(Clone, Copy, PartialEq, Eq, Structural, Debug)]
pub struct Img {
    pub id: u32,
    pub subrect: Option<Rect>,
}

/// A stroked curve through three control points: the quadratic control
/// polygon is elevated to the cubic `p0, mid(p0,p1), mid(p1,p2), p2`.
#[derive(Clone, Copy, Debug)]
pub struct Bezier {
    pub thickness: i64,
    pub color: Color,
    pub points: [Point; 3],
}

/// A sound cue; out of scope for the frame pipeline and carried through
/// untouched.
#[derive(Clone, Copy, PartialEq, Eq, Structural, Debug)]
pub struct AudioDescription {
    pub id: u32,
    pub start: usize,
    pub end: Option<usize>,
    pub looping: bool,
}

/// The camera of a frame: a translation of the whole scene and a zoom.
#[derive(Clone, Copy, PartialEq, Eq, Structural, Debug)]
pub struct Camera {
    pub pos: Point,
    pub zoom: i64,
}

/// Per-frame settings: background color and camera.
#[derive(Clone, Copy, PartialEq, Eq, Structural, Debug)]
pub struct Settings {
    pub bg: Color,
    pub camera: Camera,
}

/// The default background color: black.
pub fn bg() -> (c: Color)
    ensures
        c == (Color { r: 0, g: 0, b: 0 }),
{
    Color::new(0, 0, 0)
}

/// The default camera: no displacement, unit zoom.
pub fn camera() -> (c: Camera)
    ensures
        c.pos == (Point { x: 0, y: 0 }),
        c.zoom == crate::FX_ONE,
{
    Camera { pos: Point { x: 0, y: 0 }, zoom: crate::FX_ONE }
}

/// One frame of the video: the root nodes of the scene tree plus settings.
pub struct FrameDescription {
    pub things: Vec<Node>,
    pub settings: Settings,
}

/// The whole video: its frames in presentation order, its sound cues, and
/// the frame rate.
pub struct VideoDescription {
    pub frames: Vec<FrameDescription>,
    pub sounds: Vec<AudioDescription>,
    pub fps: usize,
}

impl Transform {
    /// The identity transform: no displacement, unit scale, zero angle.
    pub fn identity() -> (t: Transform)
        ensures
            t == Transform::identity_spec(),
    {
        Transform {
            pos: Point { x: 0, y: 0 },
            scale: Point { x: crate::FX_ONE, y: crate::FX_ONE },
            angle: Rotation { cos: crate::FX_ONE, sin: 0 },
        }
    }

    /// The identity transform as a specification value.
    pub open spec fn identity_spec() -> Transform {
        Transform {
            pos: Point { x: 0, y: 0 },
            scale: Point { x: crate::FX_ONE as i64, y: crate::FX_ONE as i64 },
            angle: Rotation { cos: crate::FX_ONE as i64, sin: 0 },
        }
    }
}

} // verus!
