//! Tests of the fixed-point transform algebra, the color linearization,
//! the export timing and the playback decisions.
use booglanim::color::{Color, COLOR_ONE};
use booglanim::interface::{Point, Rotation, Transform};
use booglanim::renderers::{classify_surface_error, letterbox_quad, SurfaceAction, SurfaceErrorKind};
use booglanim::signals::{advance_playback, apply_set_frame, next_frame, pause, play, prev_frame, reverse, stop, SetFrame};
use booglanim::interface::{bg, camera};
use booglanim::video::{ExportStep, VideoSequencer};
use booglanim::FX_ONE;

fn transform(px: i64, py: i64, sx: i64, sy: i64, cos: i64, sin: i64) -> Transform {
    Transform {
        pos: Point { x: px, y: py },
        scale: Point { x: sx, y: sy },
        angle: Rotation { cos, sin },
    }
}

#[test]
fn translation_moves_points() {
    let t = transform(FX_ONE, 2 * FX_ONE, FX_ONE, FX_ONE, FX_ONE, 0);
    let m = t.to_transformation();
    let p = m.apply_to(Point { x: 0, y: 0 });
    assert_eq!(p, Point { x: FX_ONE, y: 2 * FX_ONE });
    let q = m.apply_to(Point { x: FX_ONE, y: 0 });
    assert_eq!(q, Point { x: 2 * FX_ONE, y: 2 * FX_ONE });
}

#[test]
fn quarter_turn_rotates_points() {
    // cos 90 deg = 0, sin 90 deg = 1: the unit x vector maps to +y.
    let t = transform(0, 0, FX_ONE, FX_ONE, 0, FX_ONE);
    let m = t.to_transformation();
    let p = m.apply_to(Point { x: FX_ONE, y: 0 });
    assert_eq!(p, Point { x: 0, y: FX_ONE });
}

#[test]
fn scale_is_applied_before_translation() {
    let t = transform(FX_ONE, 0, 2 * FX_ONE, 2 * FX_ONE, FX_ONE, 0);
    let m = t.to_transformation();
    let p = m.apply_to(Point { x: FX_ONE, y: FX_ONE });
    assert_eq!(p, Point { x: 3 * FX_ONE, y: 2 * FX_ONE });
}

#[test]
fn composition_is_associative_exactly() {
    let a = transform(5 * FX_ONE, -3 * FX_ONE, 2 * FX_ONE, FX_ONE / 2, FX_ONE, 0)
        .to_transformation();
    let b = transform(0, FX_ONE, FX_ONE, FX_ONE, 0, FX_ONE).to_transformation();
    let c = transform(-FX_ONE, 0, 3 * FX_ONE, 3 * FX_ONE, 2896, 2896).to_transformation();
    let left = a.multiply(&b).multiply(&c);
    let right = a.multiply(&b.multiply(&c));
    assert_eq!(left, right);
    let p = Point { x: 7 * FX_ONE, y: -2 * FX_ONE };
    assert_eq!(left.apply_to(p), right.apply_to(p));
}

#[test]
fn linearize_black_and_white() {
    assert_eq!(Color::new(0, 0, 0).to_linear_rgb(), [0, 0, 0]);
    assert_eq!(Color::new(255, 255, 255).to_linear_rgb(), [COLOR_ONE, COLOR_ONE, COLOR_ONE]);
}

#[test]
fn linearize_exact_values() {
    // below the threshold the transfer is linear, above it a power law
    assert_eq!(Color::new(10, 11, 128).to_linear_rgb(), [3035, 3347, 215861]);
    assert_eq!(Color::new(200, 254, 0).to_linear_rgb(), [577580, 991102, 0]);
}

#[test]
fn linearize_is_monotonic_on_samples() {
    let mut last = 0u32;
    let mut c = 0u32;
    while c <= 255 {
        let v = Color::new(c as u8, 0, 0).to_linear_rgb()[0];
        assert!(v >= last);
        last = v;
        c += 1;
    }
}

#[test]
fn export_stamps_every_frame_at_k_over_fps() {
    // 90000 time-base units per second at 16 frames per second: exactly
    // 5625 units per frame.
    let mut seq = VideoSequencer::new(3, 16, 1, 90000).unwrap();
    assert_eq!(seq.next_step(), ExportStep::Encode { frame_index: 0, pts: 0 });
    seq.frame_encoded();
    assert_eq!(seq.next_step(), ExportStep::Encode { frame_index: 1, pts: 5625 });
    seq.frame_encoded();
    assert_eq!(seq.next_step(), ExportStep::Encode { frame_index: 2, pts: 11250 });
    seq.frame_encoded();
    assert_eq!(seq.next_step(), ExportStep::Finish);
}

#[test]
fn export_stamp_rounds_down_within_one_unit() {
    // 90000 / 7 = 12857.14...: the stamp is the floor, one unit under.
    let mut seq = VideoSequencer::new(2, 7, 1, 90000).unwrap();
    assert_eq!(seq.next_step(), ExportStep::Encode { frame_index: 0, pts: 0 });
    seq.frame_encoded();
    assert_eq!(seq.next_step(), ExportStep::Encode { frame_index: 1, pts: 12857 });
}

#[test]
fn playback_builders_match_requests() {
    assert!(play().playing && !play().reverse && play().frame.is_none());
    assert!(!pause().playing);
    assert_eq!(stop().frame, Some(SetFrame::At(0)));
    assert_eq!(next_frame().frame, Some(SetFrame::Forward(1)));
    assert_eq!(prev_frame().frame, Some(SetFrame::Back(1)));
    assert!(reverse().playing && reverse().reverse);
}

#[test]
fn set_frame_saturates_at_both_ends() {
    assert_eq!(apply_set_frame(3, SetFrame::At(7), 10), 7);
    assert_eq!(apply_set_frame(9, SetFrame::Forward(5), 10), 10);
    assert_eq!(apply_set_frame(2, SetFrame::Forward(1), 10), 3);
    assert_eq!(apply_set_frame(2, SetFrame::Back(5), 10), 0);
    assert_eq!(apply_set_frame(5, SetFrame::Back(2), 10), 3);
}

#[test]
fn playback_halts_at_the_ends() {
    // at the last frame going forward: halt
    assert_eq!(advance_playback(9, true, false, 10, true), (9, false));
    // at the first frame going backward: halt
    assert_eq!(advance_playback(0, true, true, 10, true), (0, false));
    // in the middle, one step per elapsed period
    assert_eq!(advance_playback(4, true, false, 10, true), (5, true));
    assert_eq!(advance_playback(4, true, true, 10, true), (3, true));
    // no period elapsed: hold
    assert_eq!(advance_playback(4, true, false, 10, false), (4, true));
    // paused: hold
    assert_eq!(advance_playback(4, false, false, 10, true), (4, false));
}

#[test]
fn surface_errors_classify_as_specified() {
    assert_eq!(classify_surface_error(SurfaceErrorKind::Lost), SurfaceAction::Reconfigure);
    assert_eq!(classify_surface_error(SurfaceErrorKind::Outdated), SurfaceAction::Reconfigure);
    assert_eq!(classify_surface_error(SurfaceErrorKind::OutOfMemory), SurfaceAction::Exit);
    assert_eq!(classify_surface_error(SurfaceErrorKind::Timeout), SurfaceAction::SkipFrame);
}

#[test]
fn letterbox_shrinks_the_wide_axis() {
    // window twice as wide as the square frame: x extent is halved
    let quad = letterbox_quad(200, 100, 100, 100);
    assert_eq!(quad[0].position, Point { x: -2048, y: -FX_ONE });
    assert_eq!(quad[2].position, Point { x: 2048, y: FX_ONE });
    // window half as wide as the frame: y extent is halved
    let quad2 = letterbox_quad(100, 200, 100, 100);
    assert_eq!(quad2[0].position, Point { x: -FX_ONE, y: -2048 });
    assert_eq!(quad2[2].position, Point { x: FX_ONE, y: 2048 });
}

#[test]
fn default_background_and_camera() {
    let b = bg();
    assert_eq!((b.r, b.g, b.b), (0, 0, 0));
    let c = camera();
    assert_eq!(c.pos, Point { x: 0, y: 0 });
    assert_eq!(c.zoom, FX_ONE);
}

#[test]
fn fresh_app_data_is_stopped_and_empty() {
    let data = booglanim::app_data::AppData::new();
    assert!(!data.playing);
    assert_eq!(data.frame, 0);
    assert_eq!(data.frames.len(), 0);
    assert_eq!(data.fps, 0);
    assert_eq!(data.media_resources.images.get(1), None);
    assert_eq!(data.media_resources.sounds.len(), 0);
}
