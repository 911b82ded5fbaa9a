//! The state the application shell keeps between requests: the current
//! video, the play head, and the loaded media resources.
use vstd::prelude::*;

verus! {

use crate::interface::FrameDescription;
use crate::render_data::TextureRegistry;

/// A loaded sound; playback is not implemented, the slot only exists so
/// cues keep their ids.
pub struct Audio;

/// The loaded media: decoded images by id (the compositor reads only
/// their dimensions here; pixels stay with the shell) and sounds by id.
pub struct MediaResources {
    pub images: TextureRegistry,
    pub sounds: Vec<(u32, Audio)>,
}

impl Default for MediaResources {
    /// No media loaded.
    fn default() -> (r: MediaResources)
        ensures
            r.images.wf(),
            forall|id: u32|
                r.images.lookup(id) == None::<crate::render_data::TextureInfo>,
            r.sounds@.len() == 0,
    {
        MediaResources { images: TextureRegistry::new(), sounds: Vec::new() }
    }
}

/// Everything the shell tracks for the open document.
pub struct AppData {
    pub playing: bool,
    pub frame: usize,
    pub frames: Vec<FrameDescription>,
    pub media_resources: MediaResources,
    pub fps: usize,
}

impl AppData {
    /// A fresh document: nothing loaded, nothing playing.
    pub fn new() -> (r: Self)
        ensures
            !r.playing,
            r.frame == 0,
            r.frames@.len() == 0,
            r.fps == 0,
            r.media_resources.images.wf(),
    {
        Self {
            playing: false,
            frame: 0,
            frames: Vec::new(),
            media_resources: Default::default(),
            fps: 0,
        }
    }
}

} // verus!
