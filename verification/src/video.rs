//! The video sequencer: drives a deterministic, frame-sequential export.
//! Frames are encoded strictly in index order; frame `k`'s presentation
//! timestamp is `k / fps` seconds, aligned to the encoder's time base by
//! rounding down, so each stamp sits within one time-base unit of the
//! exact instant and stamps never decrease.
//!
//! The shell around this drives the loop: it renders the frame the
//! sequencer asks for, hands the raster to the encoder at the returned
//! stamp, reports progress with the frame's index, and — even when it
//! stops early — finalizes the encoder so a truncated file stays valid.
use vstd::prelude::*;

verus! {

use crate::renderers::RenderingError;

/// The presentation timestamp of frame `k`, in units of the encoder time
/// base `tb_num / tb_den` seconds: the exact time `k / fps` rounded down
/// to a whole number of time-base units.
pub open spec fn pts_spec(k: int, fps: int, tb_num: int, tb_den: int) -> int {
    (k * tb_den) / (fps * tb_num)
}

/// Frame cadence: the stamp of frame `k` undershoots the exact instant
/// `k / fps` by less than one time-base unit, stated over the common
/// denominator `fps * tb_num * tb_den`:
/// `pts * num / den <= k / fps < (pts + 1) * num / den`.
pub proof fn lemma_frame_cadence(k: int, fps: int, tb_num: int, tb_den: int)
    requires
        0 <= k,
        1 <= fps,
        1 <= tb_num,
        1 <= tb_den,
    ensures
        pts_spec(k, fps, tb_num, tb_den) * (fps * tb_num) <= k * tb_den,
        k * tb_den < (pts_spec(k, fps, tb_num, tb_den) + 1) * (fps * tb_num),
{
    let d = fps * tb_num;
    assert(1 <= fps * tb_num) by (nonlinear_arith)
        requires
            1 <= fps,
            1 <= tb_num,
    ;
    assert(0 <= k * tb_den) by (nonlinear_arith)
        requires
            0 <= k,
            1 <= tb_den,
    ;
    vstd::arithmetic::div_mod::lemma_fundamental_div_mod(k * tb_den, d);
    vstd::arithmetic::div_mod::lemma_mod_bound(k * tb_den, d);
    let q = (k * tb_den) / d;
    assert(k * tb_den == d * q + (k * tb_den) % d);
    assert(q * d == d * q) by (nonlinear_arith);
    assert((q + 1) * d == d * q + d) by (nonlinear_arith);
}

/// Timestamps never decrease along the frame sequence.
pub proof fn lemma_pts_monotonic(k1: int, k2: int, fps: int, tb_num: int, tb_den: int)
    requires
        0 <= k1 <= k2,
        1 <= fps,
        1 <= tb_num,
        1 <= tb_den,
    ensures
        pts_spec(k1, fps, tb_num, tb_den) <= pts_spec(k2, fps, tb_num, tb_den),
{
    let d = fps * tb_num;
    assert(1 <= fps * tb_num) by (nonlinear_arith)
        requires
            1 <= fps,
            1 <= tb_num,
    ;
    assert(k1 * tb_den <= k2 * tb_den) by (nonlinear_arith)
        requires
            k1 <= k2,
            1 <= tb_den,
    ;
    vstd::arithmetic::div_mod::lemma_div_is_ordered(k1 * tb_den, k2 * tb_den, d);
}

/// With a time base at least as fine as the frame period, timestamps
/// strictly increase: consecutive frames never share a stamp.
pub proof fn lemma_pts_strictly_increasing(k: int, fps: int, tb_num: int, tb_den: int)
    requires
        0 <= k,
        1 <= fps,
        1 <= tb_num,
        1 <= tb_den,
        fps * tb_num <= tb_den,
    ensures
        pts_spec(k, fps, tb_num, tb_den) < pts_spec(k + 1, fps, tb_num, tb_den),
{
    let d = fps * tb_num;
    assert(1 <= fps * tb_num) by (nonlinear_arith)
        requires
            1 <= fps,
            1 <= tb_num,
    ;
    assert(0 <= k * tb_den) by (nonlinear_arith)
        requires
            0 <= k,
            1 <= tb_den,
    ;
    assert((k + 1) * tb_den == k * tb_den + tb_den) by (nonlinear_arith);
    vstd::arithmetic::div_mod::lemma_div_is_ordered(k * tb_den + d, k * tb_den + tb_den, d);
    vstd::arithmetic::div_mod::lemma_hoist_over_denominator(k * tb_den, 1, d as nat);
    assert(k * tb_den + 1 * d == k * tb_den + d);
}

/// The stamp arithmetic stays far inside the unsigned 128-bit range.
proof fn lemma_u128_products(k: int, tb_den: int, fps: int, tb_num: int)
    requires
        0 <= k < 0x1_0000_0000_0000_0000,
        1 <= tb_den < 0x1_0000_0000,
        1 <= fps < 0x1_0000_0000_0000_0000,
        1 <= tb_num < 0x1_0000_0000,
    ensures
        0 <= k * tb_den < 0x1_0000_0000_0000_0000_0000_0000,
        1 <= fps * tb_num < 0x1_0000_0000_0000_0000_0000_0000,
{
    assert(0 <= k * tb_den < 0x1_0000_0000_0000_0000_0000_0000) by (nonlinear_arith)
        requires
            0 <= k < 0x1_0000_0000_0000_0000,
            1 <= tb_den < 0x1_0000_0000,
    ;
    assert(1 <= fps * tb_num < 0x1_0000_0000_0000_0000_0000_0000) by (nonlinear_arith)
        requires
            1 <= fps < 0x1_0000_0000_0000_0000,
            1 <= tb_num < 0x1_0000_0000,
    ;
}

/// What the export loop does next: encode one more frame at a stamp, or
/// finalize the encoder.
#[derive(Clone, Copy, PartialEq, Eq, Structural, Debug)]
pub enum ExportStep {
    Encode { frame_index: usize, pts: u64 },
    Finish,
}

/// The sequencer of one export: how many frames are done, how many there
/// are, and the stream timing.
pub struct VideoSequencer {
    frames_done: usize,
    total: usize,
    fps: usize,
    tb_num: u32,
    tb_den: u32,
}

impl VideoSequencer {
    /// The timing and progress invariant of a live sequencer.
    pub closed spec fn wf(&self) -> bool {
        &&& self.frames_done <= self.total
        &&& 1 <= self.fps
        &&& 1 <= self.tb_num
        &&& 1 <= self.tb_den
        &&& pts_spec(self.total as int, self.fps as int, self.tb_num as int, self.tb_den as int)
            <= u64::MAX
    }

    pub closed spec fn frames_done_spec(&self) -> int {
        self.frames_done as int
    }

    pub closed spec fn total_spec(&self) -> int {
        self.total as int
    }

    pub closed spec fn timing_spec(&self) -> (int, int, int) {
        (self.fps as int, self.tb_num as int, self.tb_den as int)
    }

    /// Starts an export of `total` frames at `fps` frames per second,
    /// stamped in the encoder time base `tb_num / tb_den` seconds.
    /// Fails exactly when the last frame's stamp would not fit.
    pub fn new(total: usize, fps: usize, tb_num: u32, tb_den: u32) -> (r: Result<
        VideoSequencer,
        RenderingError,
    >)
        requires
            1 <= fps,
            1 <= tb_num,
            1 <= tb_den,
        ensures
            match r {
                Ok(s) => {
                    &&& s.wf()
                    &&& s.frames_done_spec() == 0
                    &&& s.total_spec() == total as int
                    &&& s.timing_spec() == (fps as int, tb_num as int, tb_den as int)
                    &&& pts_spec(total as int, fps as int, tb_num as int, tb_den as int)
                        <= u64::MAX
                },
                Err(e) => e == RenderingError::NumericOverflow && pts_spec(
                    total as int,
                    fps as int,
                    tb_num as int,
                    tb_den as int,
                ) > u64::MAX,
            },
    {
        proof {
            lemma_u128_products(total as int, tb_den as int, fps as int, tb_num as int);
        }
        let num: u128 = (total as u128) * (tb_den as u128);
        let den: u128 = (fps as u128) * (tb_num as u128);
        let last: u128 = num / den;
        if last > u64::MAX as u128 {
            return Err(RenderingError::NumericOverflow);
        }
        Ok(VideoSequencer { frames_done: 0, total, fps, tb_num, tb_den })
    }

    /// The next thing the export loop must do: encode frame `frames_done`
    /// at its stamp, or, when every frame is done, finalize the encoder.
    pub fn next_step(&self) -> (r: ExportStep)
        requires
            self.wf(),
        ensures
            self.frames_done_spec() < self.total_spec() ==> r == (ExportStep::Encode {
                frame_index: self.frames_done_spec() as usize,
                pts: pts_spec(
                    self.frames_done_spec(),
                    self.timing_spec().0,
                    self.timing_spec().1,
                    self.timing_spec().2,
                ) as u64,
            }),
            self.frames_done_spec() >= self.total_spec() ==> r == ExportStep::Finish,
    {
        if self.frames_done < self.total {
            proof {
                lemma_u128_products(
                    self.frames_done as int,
                    self.tb_den as int,
                    self.fps as int,
                    self.tb_num as int,
                );
            }
            let num: u128 = (self.frames_done as u128) * (self.tb_den as u128);
            let den: u128 = (self.fps as u128) * (self.tb_num as u128);
            let pts: u128 = num / den;
            proof {
                lemma_pts_monotonic(
                    self.frames_done as int,
                    self.total as int,
                    self.fps as int,
                    self.tb_num as int,
                    self.tb_den as int,
                );
            }
            ExportStep::Encode { frame_index: self.frames_done, pts: pts as u64 }
        } else {
            ExportStep::Finish
        }
    }

    /// Records that the frame the sequencer asked for was rendered and
    /// encoded; the shell reports progress with that frame's index.
    pub fn frame_encoded(&mut self)
        requires
            old(self).wf(),
            old(self).frames_done_spec() < old(self).total_spec(),
        ensures
            final(self).wf(),
            final(self).frames_done_spec() == old(self).frames_done_spec() + 1,
            final(self).total_spec() == old(self).total_spec(),
            final(self).timing_spec() == old(self).timing_spec(),
    {
        self.frames_done = self.frames_done + 1;
    }
}

} // verus!
