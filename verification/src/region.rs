//! Crop-region selection: turning a located sprite position, or a fixed
//! configured rectangle, into a crop rectangle that lies within the frame.
//!
//! The sprite's bounding box is 16 by 24 pixels, so a located top-left (x, y)
//! puts the sprite's center at (x + 8, y + 12). The crop rectangle of the
//! requested size is centered there and then clamped per axis: first the
//! top-left coordinate is clamped to [0, frame dimension], then, if the far
//! edge still exceeds the frame, the top-left is shifted back so the
//! rectangle ends exactly at the frame edge.

use crate::names::{parse_u32, spec_parse_u32};
use crate::raster::{crop_data, Raster};
use vstd::prelude::*;

verus! {

/// A crop rectangle; after clamping it satisfies `x + width <= frame width`
/// and `y + height <= frame height` for the frame it was computed for.
#[derive(Clone, Copy, Debug, PartialEq, Eq, Structural)]
pub struct CropRect {
    pub x: u32,
    pub y: u32,
    pub width: u32,
    pub height: u32,
}

/// The two-step clamp of one axis: the top-left coordinate
/// `center - target / 2` is clamped to [0, bound], then shifted back to
/// `bound - target` if the far edge would pass `bound`.
pub open spec fn spec_clamp_axis(center: int, target: int, bound: int) -> int {
    let raw = center - target / 2;
    let clamped = if raw < 0 {
        0
    } else if raw > bound {
        bound
    } else {
        raw
    };
    if clamped + target > bound {
        bound - target
    } else {
        clamped
    }
}

/// The clamped axis coordinate keeps the whole target span within the bound.
pub proof fn lemma_clamp_axis_in_bounds(center: int, target: int, bound: int)
    requires
        0 <= target <= bound,
    ensures
        0 <= spec_clamp_axis(center, target, bound),
        spec_clamp_axis(center, target, bound) + target <= bound,
{
}

/// The crop rectangle of size `target_width` by `target_height` centered on
/// the sprite whose top-left corner was located at (x, y), clamped to the
/// frame: its result always lies within the frame bounds.
pub fn select_region(
    x: i32,
    y: i32,
    frame_width: u32,
    frame_height: u32,
    target_width: u32,
    target_height: u32,
) -> (r: CropRect)
    requires
        target_width <= frame_width,
        target_height <= frame_height,
    ensures
        r.x as int == spec_clamp_axis(x as int + 8, target_width as int, frame_width as int),
        r.y as int == spec_clamp_axis(y as int + 12, target_height as int, frame_height as int),
        r.width == target_width,
        r.height == target_height,
        r.x + r.width <= frame_width,
        r.y + r.height <= frame_height,
{
    let rx = clamp_axis(x as i64 + 8, target_width as i64, frame_width as i64);
    let ry = clamp_axis(y as i64 + 12, target_height as i64, frame_height as i64);
    CropRect { x: rx, y: ry, width: target_width, height: target_height }
}

/// One axis of the two-step clamp, on machine integers.
fn clamp_axis(center: i64, target: i64, bound: i64) -> (r: u32)
    requires
        0 <= target <= bound <= u32::MAX,
        -0x1_0000_0000 <= center <= 0x1_0000_0000,
    ensures
        r as int == spec_clamp_axis(center as int, target as int, bound as int),
{
    let raw = center - target / 2;
    let clamped = if raw < 0 {
        0
    } else if raw > bound {
        bound
    } else {
        raw
    };
    let shifted = if clamped + target > bound {
        bound - target
    } else {
        clamped
    };
    shifted as u32
}

/// A fixed, externally configured crop rectangle, applied to every frame
/// as-is; the caller must validate it against the frame dimensions before
/// cropping (a configuration error otherwise).
pub struct Cropper {
    pub x: u32,
    pub y: u32,
    pub width: u32,
    pub height: u32,
}

impl Cropper {
    pub fn new(x: u32, y: u32, width: u32, height: u32) -> (r: Cropper)
        ensures
            r.x == x,
            r.y == y,
            r.width == width,
            r.height == height,
    {
        Cropper { x, y, width, height }
    }

    /// Builds the fixed rectangle from its four configured values as text,
    /// each a base-10 integer; `None` exactly when one does not parse.
    pub fn from_strings(x: &str, y: &str, width: &str, height: &str) -> (r: Option<Cropper>)
        ensures
            r is Some <==> (spec_parse_u32(x@) is Some && spec_parse_u32(y@) is Some
                && spec_parse_u32(width@) is Some && spec_parse_u32(height@) is Some),
            r matches Some(c) ==> {
                &&& c.x == spec_parse_u32(x@)->Some_0
                &&& c.y == spec_parse_u32(y@)->Some_0
                &&& c.width == spec_parse_u32(width@)->Some_0
                &&& c.height == spec_parse_u32(height@)->Some_0
            },
    {
        match (parse_u32(x), parse_u32(y), parse_u32(width), parse_u32(height)) {
            (Some(cx), Some(cy), Some(cw), Some(ch)) => Some(
                Cropper { x: cx, y: cy, width: cw, height: ch },
            ),
            _ => None,
        }
    }

    /// The configured rectangle lies within a frame of the given dimensions.
    pub open spec fn fits(self, frame_width: int, frame_height: int) -> bool {
        &&& self.x + self.width <= frame_width
        &&& self.y + self.height <= frame_height
    }

    /// Whether the configured rectangle lies within a frame of the given
    /// dimensions; frames for which this is false are a configuration error.
    pub fn fits_frame(&self, frame_width: u32, frame_height: u32) -> (r: bool)
        ensures
            r == self.fits(frame_width as int, frame_height as int),
    {
        self.x as u64 + self.width as u64 <= frame_width as u64 && self.y as u64
            + self.height as u64 <= frame_height as u64
    }

    /// Cuts the configured rectangle out of the frame.
    pub fn crop_around_middle(&self, frame: &Raster) -> (r: Raster)
        requires
            frame.wf(),
            self.fits(frame.width as int, frame.height as int),
        ensures
            r.wf(),
            r.width == self.width,
            r.height == self.height,
            r.is_crop_of(*frame, self.x as int, self.y as int),
            r.data@ == crop_data(
                *frame,
                self.x as int,
                self.y as int,
                self.width as int,
                self.height as int,
            ),
    {
        frame.crop(self.x, self.y, self.width, self.height)
    }
}

} // verus!
