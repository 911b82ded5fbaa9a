//! Error classification and the pure decisions of the two renderers: how a
//! frame presentation failure is handled, and how a finished raster frame is
//! letterboxed onto a window of a different aspect ratio.
use vstd::prelude::*;

verus! {

/// The kinds of presentation failure a window surface can report; mirrors
/// the surface errors of the GPU library that the shell links against.
#[derive(Clone, Copy, PartialEq, Eq, Structural, Debug)]
pub enum SurfaceErrorKind {
    /// The surface was lost and must be recreated.
    Lost,
    /// The surface no longer matches the window and must be reconfigured.
    Outdated,
    /// The device is out of memory.
    OutOfMemory,
    /// Acquiring the next surface texture timed out.
    Timeout,
}

/// An error of the frame pipeline.
#[derive(Clone, Copy, PartialEq, Eq, Structural, Debug)]
pub enum RenderingError {
    /// A primitive referenced an image id that the texture registry does
    /// not hold; fatal to the frame or export.
    MissingResource(u32),
    /// Stroke tessellation produced degenerate geometry; fatal to the frame
    /// or export.
    TessellationFailure,
    /// A fixed-point value left the representable range; fatal to the frame
    /// or export.
    NumericOverflow,
    /// The codec or muxer failed; raised by the encoding shell, fatal to
    /// the export, which must still finalize the encoder so the partial
    /// file stays valid.
    EncoderError,
    /// Presenting to the window failed; interactive path only.
    SurfaceError(SurfaceErrorKind),
    /// The renderer is busy with an export; recoverable, the interactive
    /// path presents a stale or blank frame instead.
    RendererLockError,
}


use crate::interface::Point;
use crate::render_data::TextureVertex;
use crate::transform::div_tz;
use crate::FX_ONE;

/// What the interactive loop does about a presentation failure.
#[derive(Clone, Copy, PartialEq, Eq, Structural, Debug)]
pub enum SurfaceAction {
    /// Recoverable: reconfigure the surface at its current size and try
    /// again next frame.
    Reconfigure,
    /// Fatal: the render loop terminates.
    Exit,
    /// Transient: skip this frame and try again next tick.
    SkipFrame,
}

/// Classifies a presentation failure: a lost or outdated surface is
/// recreated, out-of-memory ends the loop, a timeout only skips the
/// frame.  Only the interactive path ever sees these; an export never
/// presents to a window.
pub fn classify_surface_error(kind: SurfaceErrorKind) -> (r: SurfaceAction)
    ensures
        kind == SurfaceErrorKind::Lost || kind == SurfaceErrorKind::Outdated
            ==> r == SurfaceAction::Reconfigure,
        kind == SurfaceErrorKind::OutOfMemory ==> r == SurfaceAction::Exit,
        kind == SurfaceErrorKind::Timeout ==> r == SurfaceAction::SkipFrame,
{
    match kind {
        SurfaceErrorKind::Lost => SurfaceAction::Reconfigure,
        SurfaceErrorKind::Outdated => SurfaceAction::Reconfigure,
        SurfaceErrorKind::OutOfMemory => SurfaceAction::Exit,
        SurfaceErrorKind::Timeout => SurfaceAction::SkipFrame,
    }
}

/// Whether the window is relatively narrower than the rendered frame:
/// the window's aspect ratio is below the frame's.
pub open spec fn window_narrower(ww: int, wh: int, bw: int, bh: int) -> bool {
    ww * bh < bw * wh
}

/// The fixed-point ratio of the window's aspect ratio to the frame's.
pub open spec fn ratio_win_over_buf(ww: int, wh: int, bw: int, bh: int) -> int {
    div_tz(ww * bh * FX_ONE as int, wh * bw)
}

/// The fixed-point ratio of the frame's aspect ratio to the window's.
pub open spec fn ratio_buf_over_win(ww: int, wh: int, bw: int, bh: int) -> int {
    div_tz(bw * wh * FX_ONE as int, bh * ww)
}

/// Corner `k` of the letterboxed screen quad: the frame is scaled to the
/// largest size that fits the window without distortion, so one axis
/// spans the full window and the other is shrunk by the aspect-ratio
/// quotient.
pub open spec fn letterbox_vertex_spec(ww: int, wh: int, bw: int, bh: int, k: int) -> TextureVertex {
    let f = FX_ONE as int;
    let e = if window_narrower(ww, wh, bw, bh) {
        ratio_win_over_buf(ww, wh, bw, bh)
    } else {
        ratio_buf_over_win(ww, wh, bw, bh)
    };
    let pos = if window_narrower(ww, wh, bw, bh) {
        if k == 0 {
            Point { x: (-f) as i64, y: (-e) as i64 }
        } else if k == 1 {
            Point { x: f as i64, y: (-e) as i64 }
        } else if k == 2 {
            Point { x: f as i64, y: e as i64 }
        } else {
            Point { x: (-f) as i64, y: e as i64 }
        }
    } else {
        if k == 0 {
            Point { x: (-e) as i64, y: (-f) as i64 }
        } else if k == 1 {
            Point { x: e as i64, y: (-f) as i64 }
        } else if k == 2 {
            Point { x: e as i64, y: f as i64 }
        } else {
            Point { x: (-e) as i64, y: f as i64 }
        }
    };
    let tex = if k == 0 {
        Point { x: 0, y: FX_ONE as i64 }
    } else if k == 1 {
        Point { x: FX_ONE as i64, y: FX_ONE as i64 }
    } else if k == 2 {
        Point { x: FX_ONE as i64, y: 0 }
    } else {
        Point { x: 0, y: 0 }
    };
    TextureVertex { position: pos, tex_coords: tex }
}

/// The screen quad that presents a finished frame on a window of another
/// shape: aspect-preserving, centered, clamped to the unit square on the
/// longer axis.
pub fn letterbox_quad(window_w: u32, window_h: u32, buffer_w: u32, buffer_h: u32) -> (r: [
    TextureVertex; 4])
    requires
        1 <= window_w,
        1 <= window_h,
        1 <= buffer_w,
        1 <= buffer_h,
    ensures
        forall|k: int|
            0 <= k < 4 ==> r@[k] == letterbox_vertex_spec(
                window_w as int,
                window_h as int,
                buffer_w as int,
                buffer_h as int,
                k,
            ),
{
    let ww: i128 = window_w as i128;
    let wh: i128 = window_h as i128;
    let bw: i128 = buffer_w as i128;
    let bh: i128 = buffer_h as i128;
    proof {
        lemma_ratio_bounds(ww as int, wh as int, bw as int, bh as int);
        lemma_ratio_bounds(bw as int, bh as int, ww as int, wh as int);
    }
    let narrower = ww * bh < bw * wh;
    let e: i128 = if narrower {
        proof {
            assert(((ww as int) * (bh as int)) * (FX_ONE as int) <= ((wh as int) * (
            bw as int)) * (FX_ONE as int) && ((wh as int) * (bw as int)) * (FX_ONE as int) == (
            FX_ONE as int) * ((wh as int) * (bw as int)) && (ww as int) * (bh as int) * (
            FX_ONE as int) == ((ww as int) * (bh as int)) * (FX_ONE as int)) by (nonlinear_arith)
                requires
                    (ww as int) * (bh as int) < (bw as int) * (wh as int),
                    0 <= (ww as int) * (bh as int),
                    1 <= (wh as int) * (bw as int),
                    (bw as int) * (wh as int) == (wh as int) * (bw as int),
            ;
            crate::transform::lemma_div_tz_bounded(
                (ww as int) * (bh as int) * (FX_ONE as int),
                (wh as int) * (bw as int),
                FX_ONE as int,
            );
        }
        crate::transform::div_tz_exec(ww * bh * (FX_ONE as i128), wh * bw)
    } else {
        proof {
            assert(((bw as int) * (wh as int)) * (FX_ONE as int) <= ((bh as int) * (
            ww as int)) * (FX_ONE as int) && ((bh as int) * (ww as int)) * (FX_ONE as int) == (
            FX_ONE as int) * ((bh as int) * (ww as int)) && (bw as int) * (wh as int) * (
            FX_ONE as int) == ((bw as int) * (wh as int)) * (FX_ONE as int)) by (nonlinear_arith)
                requires
                    (bw as int) * (wh as int) <= (ww as int) * (bh as int),
                    0 <= (bw as int) * (wh as int),
                    1 <= (bh as int) * (ww as int),
                    (ww as int) * (bh as int) == (bh as int) * (ww as int),
            ;
            crate::transform::lemma_div_tz_bounded(
                (bw as int) * (wh as int) * (FX_ONE as int),
                (bh as int) * (ww as int),
                FX_ONE as int,
            );
        }
        crate::transform::div_tz_exec(bw * wh * (FX_ONE as i128), bh * ww)
    };
    let e64: i64 = e as i64;
    let f: i64 = FX_ONE;
    if narrower {
        [
            TextureVertex { position: Point { x: -f, y: -e64 }, tex_coords: Point { x: 0, y: f } },
            TextureVertex { position: Point { x: f, y: -e64 }, tex_coords: Point { x: f, y: f } },
            TextureVertex { position: Point { x: f, y: e64 }, tex_coords: Point { x: f, y: 0 } },
            TextureVertex { position: Point { x: -f, y: e64 }, tex_coords: Point { x: 0, y: 0 } },
        ]
    } else {
        [
            TextureVertex { position: Point { x: -e64, y: -f }, tex_coords: Point { x: 0, y: f } },
            TextureVertex { position: Point { x: e64, y: -f }, tex_coords: Point { x: f, y: f } },
            TextureVertex { position: Point { x: e64, y: f }, tex_coords: Point { x: f, y: 0 } },
            TextureVertex { position: Point { x: -e64, y: f }, tex_coords: Point { x: 0, y: 0 } },
        ]
    }
}

/// Both aspect quotients are nonnegative, fit comfortably, and the
/// products feeding them stay inside `i128`.
proof fn lemma_ratio_bounds(ww: int, wh: int, bw: int, bh: int)
    requires
        1 <= ww < 0x1_0000_0000,
        1 <= wh < 0x1_0000_0000,
        1 <= bw < 0x1_0000_0000,
        1 <= bh < 0x1_0000_0000,
    ensures
        1 <= wh * bw < 0x1_0000_0000_0000_0000,
        1 <= ww * bh < 0x1_0000_0000_0000_0000,
        0 <= ww * bh * (FX_ONE as int) < 0x1_0000_0000_0000_0000_0000,
{
    assert(1 <= wh * bw < 0x1_0000_0000_0000_0000) by (nonlinear_arith)
        requires
            1 <= wh < 0x1_0000_0000,
            1 <= bw < 0x1_0000_0000,
    ;
    assert(1 <= ww * bh < 0x1_0000_0000_0000_0000) by (nonlinear_arith)
        requires
            1 <= ww < 0x1_0000_0000,
            1 <= bh < 0x1_0000_0000,
    ;
    assert(0x1000 * (ww * bh) < 0x1_0000_0000_0000_0000_0000 && 0 <= 0x1000 * (ww * bh)
        && ww * bh * 0x1000 == 0x1000 * (ww * bh)) by (nonlinear_arith)
        requires
            1 <= ww * bh < 0x1_0000_0000_0000_0000,
    ;
}

} // verus!
