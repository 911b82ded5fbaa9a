//! End-to-end tests of the frame pipeline: flattening, depth ordering,
//! visibility pruning, quad building and batching.
use booglanim::flatten::frame_description_to_objects;
use booglanim::interface::{
    Alignment, Bezier, Camera, Container, FrameDescription, Img, Node, Object, Point, Rect,
    Rotation, Settings, Text, Transform,
};
use booglanim::color::Color;
use booglanim::render_data::{
    compile_draw_items, DrawItem, PipelineKind, StrokeMesh, TextureInfo, TextureRegistry,
};
use booglanim::renderers::RenderingError;
use booglanim::FX_ONE;

fn identity_transform() -> Transform {
    Transform {
        pos: Point { x: 0, y: 0 },
        scale: Point { x: FX_ONE, y: FX_ONE },
        angle: Rotation { cos: FX_ONE, sin: 0 },
    }
}

fn plain_node(z: i64, visible: bool, children: Vec<Container>) -> Node {
    Node { z, transform: identity_transform(), visible, children }
}

fn default_settings() -> Settings {
    Settings {
        bg: Color::new(0, 0, 0),
        camera: Camera { pos: Point { x: 0, y: 0 }, zoom: FX_ONE },
    }
}

fn img_leaf(id: u32) -> Container {
    Container::Leaf(Object::Img(Img { id, subrect: None }))
}

#[test]
fn single_image_quad_batch() {
    // One visible root with one image leaf; the registry holds id 1 as a
    // 2x1 image, so the quad is half as tall as it is wide.
    let frame = FrameDescription {
        things: vec![plain_node(0, true, vec![img_leaf(1)])],
        settings: default_settings(),
    };
    let mut registry = TextureRegistry::new();
    registry.insert(1, TextureInfo { width: 2, height: 1 });
    let objects = frame_description_to_objects(&frame).unwrap();
    assert_eq!(objects.len(), 1);
    let items = compile_draw_items(&objects, &registry, 100, 100).unwrap();
    assert_eq!(items.len(), 1);
    match &items[0] {
        DrawItem::Quad(q) => {
            assert_eq!(q.texture_id, 1);
            // width one scene unit, height one half: corners at (+-2048, +-1024)
            assert_eq!(q.vertices[0].position, Point { x: -2048, y: -1024 });
            assert_eq!(q.vertices[1].position, Point { x: 2048, y: -1024 });
            assert_eq!(q.vertices[2].position, Point { x: 2048, y: 1024 });
            assert_eq!(q.vertices[3].position, Point { x: -2048, y: 1024 });
        },
        DrawItem::Stroke(_) => panic!("expected a quad"),
    }
    let rd = booglanim::render_data::RenderData::new(&items, &vec![]);
    assert_eq!(rd.render_order.len(), 1);
    let settings = &rd.render_order[0];
    assert_eq!(settings.pipeline, PipelineKind::Textured);
    assert_eq!(settings.bind_group, Some(1));
    assert_eq!(settings.vertices_buffer_id, 0);
    assert_eq!(settings.indices_buffer_id, 1);
    assert_eq!(settings.vertices_range, (0, 4));
    assert_eq!(settings.indices_range, (0, 6));
    assert_eq!(rd.texture_vertices.len(), 4);
    assert_eq!(rd.texture_indices, vec![0, 1, 2, 0, 2, 3]);
}

#[test]
fn invisible_root_yields_zero_batches() {
    let frame = FrameDescription {
        things: vec![plain_node(0, false, vec![img_leaf(1)])],
        settings: default_settings(),
    };
    let mut registry = TextureRegistry::new();
    registry.insert(1, TextureInfo { width: 2, height: 1 });
    let objects = frame_description_to_objects(&frame).unwrap();
    assert_eq!(objects.len(), 0);
    let items = compile_draw_items(&objects, &registry, 100, 100).unwrap();
    let rd = booglanim::render_data::RenderData::new(&items, &vec![]);
    assert_eq!(rd.render_order.len(), 0);
}

#[test]
fn invisible_node_prunes_visible_descendants() {
    // The invisible node's child is itself visible, but the whole subtree
    // must be pruned.
    let inner = plain_node(0, true, vec![img_leaf(1)]);
    let hidden = plain_node(0, false, vec![Container::Node(inner)]);
    let frame =
        FrameDescription { things: vec![hidden], settings: default_settings() };
    let objects = frame_description_to_objects(&frame).unwrap();
    assert_eq!(objects.len(), 0);
}

#[test]
fn missing_resource_aborts_frame() {
    let frame = FrameDescription {
        things: vec![plain_node(0, true, vec![img_leaf(99)])],
        settings: default_settings(),
    };
    let registry = TextureRegistry::new();
    let objects = frame_description_to_objects(&frame).unwrap();
    let r = compile_draw_items(&objects, &registry, 100, 100);
    assert_eq!(r.err(), Some(RenderingError::MissingResource(99)));
}

#[test]
fn depth_orders_output_ascending() {
    // Three roots at depths +1, -1 and 0: the flattened output must come
    // back sorted by combined depth.
    let frame = FrameDescription {
        things: vec![
            plain_node(FX_ONE, true, vec![img_leaf(10)]),
            plain_node(-FX_ONE, true, vec![img_leaf(20)]),
            plain_node(0, true, vec![img_leaf(30)]),
        ],
        settings: default_settings(),
    };
    let objects = frame_description_to_objects(&frame).unwrap();
    let ids: Vec<u32> = objects
        .iter()
        .map(|(o, _)| match o {
            Object::Img(img) => img.id,
            _ => panic!("expected images"),
        })
        .collect();
    assert_eq!(ids, vec![20, 30, 10]);
}

#[test]
fn equal_depths_keep_discovery_order() {
    // Two roots at the same depth, each with two leaves: ties keep the
    // breadth-first discovery order.
    let frame = FrameDescription {
        things: vec![
            plain_node(0, true, vec![img_leaf(1), img_leaf(2)]),
            plain_node(0, true, vec![img_leaf(3), img_leaf(4)]),
        ],
        settings: default_settings(),
    };
    let objects = frame_description_to_objects(&frame).unwrap();
    let ids: Vec<u32> = objects
        .iter()
        .map(|(o, _)| match o {
            Object::Img(img) => img.id,
            _ => panic!("expected images"),
        })
        .collect();
    assert_eq!(ids, vec![1, 2, 3, 4]);
}

#[test]
fn nested_depths_accumulate() {
    // A child node's depth adds to its parent's; the grandchild leaf at
    // combined depth -1+3 = +2 sorts after the leaf at depth 0.
    let deep = plain_node(3 * FX_ONE, true, vec![img_leaf(7)]);
    let parent = plain_node(-FX_ONE, true, vec![Container::Node(deep)]);
    let frame = FrameDescription {
        things: vec![parent, plain_node(0, true, vec![img_leaf(8)])],
        settings: default_settings(),
    };
    let objects = frame_description_to_objects(&frame).unwrap();
    let ids: Vec<u32> = objects
        .iter()
        .map(|(o, _)| match o {
            Object::Img(img) => img.id,
            _ => panic!("expected images"),
        })
        .collect();
    assert_eq!(ids, vec![8, 7]);
}

#[test]
fn text_is_skipped_without_error() {
    let text_leaf = Container::Leaf(Object::Text(Text {
        content: String::from("hello"),
        alignment: Alignment::Center,
        width: FX_ONE,
    }));
    let frame = FrameDescription {
        things: vec![plain_node(0, true, vec![text_leaf, img_leaf(1)])],
        settings: default_settings(),
    };
    let mut registry = TextureRegistry::new();
    registry.insert(1, TextureInfo { width: 1, height: 1 });
    let objects = frame_description_to_objects(&frame).unwrap();
    assert_eq!(objects.len(), 2);
    let items = compile_draw_items(&objects, &registry, 100, 100).unwrap();
    assert_eq!(items.len(), 1);
}

#[test]
fn subrect_defaults_to_unit_rect() {
    let frame = FrameDescription {
        things: vec![plain_node(0, true, vec![img_leaf(1)])],
        settings: default_settings(),
    };
    let mut registry = TextureRegistry::new();
    registry.insert(1, TextureInfo { width: 1, height: 1 });
    let objects = frame_description_to_objects(&frame).unwrap();
    let items = compile_draw_items(&objects, &registry, 100, 100).unwrap();
    match &items[0] {
        DrawItem::Quad(q) => {
            assert_eq!(q.vertices[0].tex_coords, Point { x: 0, y: FX_ONE });
            assert_eq!(q.vertices[1].tex_coords, Point { x: FX_ONE, y: FX_ONE });
            assert_eq!(q.vertices[2].tex_coords, Point { x: FX_ONE, y: 0 });
            assert_eq!(q.vertices[3].tex_coords, Point { x: 0, y: 0 });
        },
        DrawItem::Stroke(_) => panic!("expected a quad"),
    }
}

#[test]
fn explicit_subrect_maps_edges() {
    let leaf = Container::Leaf(Object::Img(Img {
        id: 1,
        subrect: Some(Rect { x: 1024, y: 0, w: 2048, h: FX_ONE }),
    }));
    let frame = FrameDescription {
        things: vec![plain_node(0, true, vec![leaf])],
        settings: default_settings(),
    };
    let mut registry = TextureRegistry::new();
    registry.insert(1, TextureInfo { width: 1, height: 1 });
    let objects = frame_description_to_objects(&frame).unwrap();
    let items = compile_draw_items(&objects, &registry, 100, 100).unwrap();
    match &items[0] {
        DrawItem::Quad(q) => {
            assert_eq!(q.vertices[0].tex_coords, Point { x: 1024, y: FX_ONE });
            assert_eq!(q.vertices[1].tex_coords, Point { x: 2048, y: FX_ONE });
            assert_eq!(q.vertices[2].tex_coords, Point { x: 2048, y: 0 });
            assert_eq!(q.vertices[3].tex_coords, Point { x: 1024, y: 0 });
        },
        DrawItem::Stroke(_) => panic!("expected a quad"),
    }
}

#[test]
fn stroke_batch_follows_quad_batch_in_order() {
    // A quad at depth 0 and a stroke at depth 1: two batches, in depth
    // order, each referencing its own sub-range.
    let bez = Container::Leaf(Object::Bezier(Bezier {
        thickness: FX_ONE,
        color: Color::new(255, 0, 0),
        points: [
            Point { x: 0, y: 0 },
            Point { x: FX_ONE, y: 0 },
            Point { x: 2 * FX_ONE, y: 0 },
        ],
    }));
    let frame = FrameDescription {
        things: vec![
            plain_node(0, true, vec![img_leaf(1)]),
            plain_node(FX_ONE, true, vec![bez]),
        ],
        settings: default_settings(),
    };
    let mut registry = TextureRegistry::new();
    registry.insert(1, TextureInfo { width: 1, height: 1 });
    let objects = frame_description_to_objects(&frame).unwrap();
    let items = compile_draw_items(&objects, &registry, 100, 100).unwrap();
    assert_eq!(items.len(), 2);
    // a small hand-made mesh stands in for the tessellator here
    let mesh = StrokeMesh {
        vertices: vec![
            booglanim::render_data::ColorVertex {
                position: Point { x: 0, y: 0 },
                color: [0, 0, 0],
            };
            5
        ],
        indices: vec![0, 1, 2, 1, 2, 3, 2, 3, 4],
    };
    let rd = booglanim::render_data::RenderData::new(&items, &vec![mesh]);
    assert_eq!(rd.render_order.len(), 2);
    assert_eq!(rd.render_order[0].pipeline, PipelineKind::Textured);
    assert_eq!(rd.render_order[1].pipeline, PipelineKind::Stroke);
    assert_eq!(rd.render_order[1].bind_group, None);
    assert_eq!(rd.render_order[1].vertices_buffer_id, 2);
    assert_eq!(rd.render_order[1].indices_buffer_id, 3);
    assert_eq!(rd.render_order[1].vertices_range, (0, 5));
    assert_eq!(rd.render_order[1].indices_range, (0, 9));
    assert_eq!(rd.triangle_vertices.len(), 5);
    assert_eq!(rd.triangle_indices.len(), 9);
}

#[test]
fn registry_insert_replaces_and_get_finds() {
    let mut registry = TextureRegistry::new();
    assert_eq!(registry.get(5), None);
    registry.insert(5, TextureInfo { width: 10, height: 20 });
    assert_eq!(registry.get(5), Some(TextureInfo { width: 10, height: 20 }));
    registry.insert(5, TextureInfo { width: 30, height: 40 });
    assert_eq!(registry.get(5), Some(TextureInfo { width: 30, height: 40 }));
    assert_eq!(registry.get(6), None);
}

#[test]
fn oversized_transform_is_rejected() {
    // a scale far beyond the admissible range cannot be composed
    let huge = Transform {
        pos: Point { x: 0, y: 0 },
        scale: Point { x: i64::MAX / 2, y: FX_ONE },
        angle: Rotation { cos: FX_ONE, sin: 0 },
    };
    let frame = FrameDescription {
        things: vec![Node { z: 0, transform: huge, visible: true, children: vec![img_leaf(1)] }],
        settings: default_settings(),
    };
    let r = frame_description_to_objects(&frame);
    assert_eq!(r.err(), Some(RenderingError::NumericOverflow));
}

#[test]
fn nesting_depth_is_bounded_by_fixed_point_range() {
    // every composition multiplies the homogeneous entry by one unit of
    // scale: four nested groups still fit, five overflow the range
    fn nest(depth: usize) -> Node {
        let mut node = plain_node(0, true, vec![img_leaf(1)]);
        let mut d = depth;
        while d > 1 {
            node = plain_node(0, true, vec![Container::Node(node)]);
            d -= 1;
        }
        node
    }
    let mut registry = TextureRegistry::new();
    registry.insert(1, TextureInfo { width: 1, height: 1 });
    let shallow = FrameDescription { things: vec![nest(4)], settings: default_settings() };
    let objects = frame_description_to_objects(&shallow).unwrap();
    assert_eq!(objects.len(), 1);
    let deep = FrameDescription { things: vec![nest(5)], settings: default_settings() };
    assert_eq!(
        frame_description_to_objects(&deep).err(),
        Some(RenderingError::NumericOverflow)
    );
}
