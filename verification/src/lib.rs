//! A "Ken Burns"-style slideshow renderer: each source image is assigned a
//! timed pan/zoom/rotate path across the output canvas, frames are sampled
//! at discrete times, and every image active at a frame's time is
//! alpha-composited onto one canvas, in declaration order.
//!
//! All coordinates, areas and pose channels are exact rationals (`rat`);
//! the geometry engine (`geom`) computes exact per-pixel coverage for
//! anti-aliased resampling; `matrix` holds the affine-transform algebra;
//! `renki_image` the pixel planes, forward rasterization and compositing;
//! `scenario` the keyframe animation model and the frame driver. Decoding
//! and encoding pixel files is left to the caller, who hands this crate
//! plain 8-bit RGB planes and takes plain planes back.

use vstd::prelude::*;

pub mod rat;
pub mod geom;
pub mod matrix;
pub mod renki_image;
pub mod scenario;

verus! {

use crate::rat::{rv_int, rv_div};
use crate::renki_image::{RenkiImage, img_wf, img_planes};
use crate::scenario::{Scenario, sv_frame, sv_gen_tracks};

pub struct RenkiCore {}

impl RenkiCore {
    /// Renders the whole slideshow over the decoded source images, on a
    /// 1080 x 1920 canvas, as `length` frames in increasing frame order:
    /// frame `f` is the generated scenario's frame at time `f / length`.
    pub fn render_images(images: &Vec<RenkiImage>, length: usize) -> (r: Vec<RenkiImage>)
        requires
            images@.len() <= 0x7fff,
            length <= 0x7fff,
            forall|i: int| 0 <= i < images@.len() ==> img_wf(#[trigger] images@[i]),
        ensures
            r@.len() == length,
            forall|f: int|
                0 <= f < length ==> img_wf(#[trigger] r@[f]) && r@[f].width == 1080
                    && r@[f].height == 1920,
            forall|f: int|
                0 <= f < length ==> img_planes(#[trigger] r@[f]) == sv_frame(
                    sv_gen_tracks(images@, 1080, 1920),
                    1080,
                    1920,
                    images@,
                    rv_div(rv_int(f), rv_int(length as int)),
                ),
    {
        let scenario = Scenario::generate_scenario(images, 1080, 1920, length);
        scenario.render(images)
    }
}

} // verus!
