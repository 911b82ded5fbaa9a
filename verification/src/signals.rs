//! The messages the shell sends to the rendering thread, and the pure
//! playback decisions the rendering thread makes on each tick.  The shell
//! owns the channels and the clock; everything that decides what happens
//! next lives here.
use vstd::prelude::*;

pub use crate::app_data::{Audio, MediaResources};

verus! {

use crate::interface::VideoDescription;

/// A request from the shell to the rendering thread.
pub enum Signal {
    ExportVideo(ExportVideo),
    SetPlayback(Playback),
    UpdateVideoDescription(VideoDescription),
    UpdateMediaResources(MediaResources),
}

/// A request to export the current video to a file path.
pub struct ExportVideo {
    pub path: String,
}

/// How a playback request moves the play head.
#[derive(Clone, Copy, PartialEq, Eq, Structural, Debug)]
pub enum SetFrame {
    At(usize),
    Forward(usize),
    Back(usize),
}

/// A playback request: whether to play, in which direction, and where to
/// move the play head.
#[derive(Clone, Copy, PartialEq, Eq, Structural, Debug)]
pub struct Playback {
    pub playing: bool,
    pub reverse: bool,
    pub frame: Option<SetFrame>,
}

/// Start playing forward from wherever the play head is.
pub fn play() -> (p: Playback)
    ensures
        p == (Playback { playing: true, reverse: false, frame: None::<SetFrame> }),
{
    Playback { playing: true, reverse: false, frame: None }
}

/// Stop playing, leaving the play head in place.
pub fn pause() -> (p: Playback)
    ensures
        p == (Playback { playing: false, reverse: false, frame: None::<SetFrame> }),
{
    Playback { playing: false, reverse: false, frame: None }
}

/// Stop playing and rewind to the first frame.
pub fn stop() -> (p: Playback)
    ensures
        p == (Playback { playing: false, reverse: false, frame: Some(SetFrame::At(0)) }),
{
    Playback { playing: false, reverse: false, frame: Some(SetFrame::At(0)) }
}

/// Step one frame forward without playing.
pub fn next_frame() -> (p: Playback)
    ensures
        p == (Playback { playing: false, reverse: false, frame: Some(SetFrame::Forward(1)) }),
{
    Playback { playing: false, reverse: false, frame: Some(SetFrame::Forward(1)) }
}

/// Step one frame back without playing.
pub fn prev_frame() -> (p: Playback)
    ensures
        p == (Playback { playing: false, reverse: false, frame: Some(SetFrame::Back(1)) }),
{
    Playback { playing: false, reverse: false, frame: Some(SetFrame::Back(1)) }
}

/// Start playing backward from wherever the play head is.
pub fn reverse() -> (p: Playback)
    ensures
        p == (Playback { playing: true, reverse: true, frame: None::<SetFrame> }),
{
    Playback { playing: true, reverse: true, frame: None }
}

/// Moves the play head as a playback request asks: an absolute seek goes
/// exactly there, a forward step saturates at the frame count, a backward
/// step saturates at the first frame.
pub fn apply_set_frame(current: usize, sf: SetFrame, frame_count: usize) -> (r: usize)
    ensures
        sf is At ==> r == sf->At_0,
        sf is Forward ==> r as int == vstd::math::min(
            current as int + sf->Forward_0 as int,
            frame_count as int,
        ),
        sf is Back ==> r as int == vstd::math::max(current as int - sf->Back_0 as int, 0),
{
    match sf {
        SetFrame::At(f) => f,
        SetFrame::Forward(n) => {
            let stepped = match current.checked_add(n) {
                Some(v) => v,
                None => usize::MAX,
            };
            if stepped < frame_count {
                stepped
            } else {
                frame_count
            }
        },
        SetFrame::Back(p) => {
            if current >= p {
                current - p
            } else {
                0
            }
        },
    }
}

/// One playback tick, after a frame was successfully presented: playing
/// past the last frame or before the first halts playback instead of
/// wrapping, and the play head advances one frame per elapsed period, in
/// the playing direction.  Returns the new play head and whether playback
/// goes on.
pub fn advance_playback(
    frame: usize,
    playing: bool,
    reverse: bool,
    frame_count: usize,
    period_elapsed: bool,
) -> (r: (usize, bool))
    requires
        1 <= frame_count,
        frame < frame_count,
    ensures
        ({
            let clamped_playing = if frame >= frame_count - 1 && !reverse {
                false
            } else if frame == 0 && reverse {
                false
            } else {
                playing
            };
            &&& r.1 == clamped_playing
            &&& r.0 == if clamped_playing && period_elapsed {
                if reverse {
                    (frame - 1) as usize
                } else {
                    (frame + 1) as usize
                }
            } else {
                frame
            }
            &&& r.0 < frame_count
        }),
{
    let mut playing = playing;
    let mut frame = frame;
    if frame >= frame_count - 1 && !reverse {
        playing = false;
    }
    if frame == 0 && reverse {
        playing = false;
    }
    if playing && period_elapsed {
        if reverse {
            frame = frame - 1;
        } else {
            frame = frame + 1;
        }
    }
    (frame, playing)
}

} // verus!
