//! The two top-level passes over a decoded frame sequence: cropping one
//! frame around the located sprite, and producing the looping animated
//! artifact from a selected, cropped and resized frame subset.

use crate::find_link::{find_link, locate_post};
use crate::gif::{
    consistent_dims, delay_seq, dims_encodable, gif_bytes, opaque_views, write_gif, write_gif_post,
    EncodeError,
};
use crate::raster::{crop_data, opaque_bytes, resize_rgba, resized_data, spec_resized_dims, Raster};
use crate::region::{select_region, spec_clamp_axis, Cropper};
use crate::select::{select_frames, spec_select, ImageSelectionConfig};
use crate::timing::FrameDuration;
use vstd::prelude::*;

verus! {

/// Why a loop-artifact pass failed.
#[derive(Clone, Copy, Debug, PartialEq, Eq, Structural)]
pub enum PipelineError {
    /// The frame at this index of the selected sequence cannot take the
    /// requested crop (or is empty), which is a configuration error.
    BoundsViolation { index: usize },
    /// The loop encoder failed on the processed sequence.
    Encode(EncodeError),
}

/// The output raster is the crop of the given target size centered on the
/// sprite whose top-left corner is `p`, clamped to the frame.
pub open spec fn cropped_around(frame: Raster, p: (i32, i32), tw: u32, th: u32, out: Raster) -> bool {
    let cx = spec_clamp_axis(p.0 + 8, tw as int, frame.width as int);
    let cy = spec_clamp_axis(p.1 + 12, th as int, frame.height as int);
    &&& out.wf()
    &&& out.width == tw
    &&& out.height == th
    &&& out.is_crop_of(frame, cx, cy)
    &&& out.data@ == crop_data(frame, cx, cy, tw as int, th as int)
}

/// What cropping one frame around the located sprite returns: `None`
/// exactly when the locator finds nothing; otherwise the crop of the target
/// size centered on a located sprite position, clamped to the frame.
pub open spec fn crop_around_post(frame: Raster, tw: u32, th: u32, r: Option<Raster>) -> bool {
    &&& (r is None ==> locate_post(frame, Option::None))
    &&& (r is Some ==> exists|p: (i32, i32)|
        locate_post(frame, Option::Some(p)) && #[trigger] cropped_around(
            frame,
            p,
            tw,
            th,
            r->Some_0,
        ))
}

/// Locates the sprite in a reference-resolution frame and, when found, cuts
/// out the crop rectangle of the given target size centered on the sprite,
/// clamped to the frame; `None` exactly when the locator finds nothing,
/// which skips the frame rather than failing the batch.
pub fn crop_frame_around_sprite(frame: &Raster, target_width: u32, target_height: u32) -> (r:
    Option<Raster>)
    requires
        frame.wf(),
        frame.width == 256,
        frame.height == 224,
        target_width <= 256,
        target_height <= 224,
    ensures
        crop_around_post(*frame, target_width, target_height, r),
{
    match find_link(frame) {
        Some(p) => {
            let rect = select_region(p.0, p.1, frame.width, frame.height, target_width, target_height);
            let out = frame.crop(rect.x, rect.y, rect.width, rect.height);
            proof {
                assert(cropped_around(*frame, p, target_width, target_height, out));
                assert(locate_post(*frame, Option::Some(p)));
                let ghost rr = Option::Some(out);
                assert(rr->Some_0 == out);
                assert(exists|q: (i32, i32)|
                    locate_post(*frame, Option::Some(q)) && #[trigger] cropped_around(
                        *frame,
                        q,
                        target_width,
                        target_height,
                        rr->Some_0,
                    ));
                assert(crop_around_post(
                    *frame,
                    target_width,
                    target_height,
                    Option::Some(out),
                ));
            }
            Some(out)
        },
        None => None,
    }
}

/// The selected frame survives the per-frame processing step: with a
/// configured rectangle it must lie within the frame; without one the
/// frame only has to be non-empty.
pub open spec fn frame_usable(frame: Raster, cropper: Option<Cropper>) -> bool {
    match cropper {
        Option::Some(c) => 1 <= c.width && 1 <= c.height && c.fits(
            frame.width as int,
            frame.height as int,
        ),
        Option::None => 1 <= frame.width && 1 <= frame.height,
    }
}

/// The dimensions and bytes of a frame after the optional crop and the
/// resize to the output bounds.
pub open spec fn processed_view(frame: Raster, cropper: Option<Cropper>, ow: u32, oh: u32) -> (
    u32,
    u32,
    Seq<u8>,
) {
    match cropper {
        Option::Some(c) => {
            let d = spec_resized_dims(c.width, c.height, ow, oh);
            (
                d.0,
                d.1,
                resized_data(
                    c.width,
                    c.height,
                    crop_data(frame, c.x as int, c.y as int, c.width as int, c.height as int),
                    ow,
                    oh,
                ),
            )
        },
        Option::None => {
            let d = spec_resized_dims(frame.width, frame.height, ow, oh);
            (d.0, d.1, resized_data(frame.width, frame.height, frame.data@, ow, oh))
        },
    }
}

/// The processed frames as the encoder sees them: fully opaque.
pub open spec fn encoded_views(frames: Seq<Raster>, cropper: Option<Cropper>, ow: u32, oh: u32) -> Seq<
    (u32, u32, Seq<u8>),
> {
    Seq::new(
        frames.len(),
        |i: int|
            {
                let v = processed_view(frames[i], cropper, ow, oh);
                (v.0, v.1, opaque_bytes(v.2))
            },
    )
}

/// The loop-artifact pass is owed success on these inputs: every selected
/// frame is usable, the frames handed to the resize step share one
/// dimension pair (always so with a configured rectangle, which fixes
/// them), and the output bounds fit the artifact format's 16-bit size
/// fields.
pub open spec fn pass_succeeds_on(
    sel: Seq<Raster>,
    cropper: Option<Cropper>,
    ow: u32,
    oh: u32,
) -> bool {
    &&& forall|j: int| 0 <= j < sel.len() ==> frame_usable(#[trigger] sel[j], cropper)
    &&& (cropper is Some || consistent_dims(sel))
    &&& ow <= 0xffff
    &&& oh <= 0xffff
}

/// What the loop-artifact pass guarantees of its result, in terms of the
/// selected subsequence of the input frames.
pub open spec fn make_gif_post(
    frames: Seq<Raster>,
    config: ImageSelectionConfig,
    cropper: Option<Cropper>,
    ow: u32,
    oh: u32,
    fd: FrameDuration,
    r: Result<Vec<u8>, PipelineError>,
) -> bool {
    let sel = spec_select(frames, config.skip as int, config.take as int, config.skip_alternating);
    &&& (pass_succeeds_on(sel, cropper, ow, oh) ==> r is Ok)
    &&& match r {
        Result::Ok(bytes) => {
            &&& forall|j: int| 0 <= j < sel.len() ==> frame_usable(#[trigger] sel[j], cropper)
            &&& bytes@ == gif_bytes(
                encoded_views(sel, cropper, ow, oh),
                delay_seq(fd, sel.len() as int),
            )
        },
        Result::Err(e) => match e {
            PipelineError::BoundsViolation { index } => {
                &&& 0 <= index < sel.len()
                &&& !frame_usable(sel[index as int], cropper)
                &&& forall|j: int| 0 <= j < index ==> frame_usable(#[trigger] sel[j], cropper)
            },
            PipelineError::Encode(enc) => {
                &&& forall|j: int| 0 <= j < sel.len() ==> frame_usable(#[trigger] sel[j], cropper)
                &&& match enc {
                    EncodeError::MismatchedDimensions { index } => {
                        &&& 0 < index < sel.len()
                        &&& {
                            let v0 = processed_view(sel[0], cropper, ow, oh);
                            let vi = processed_view(sel[index as int], cropper, ow, oh);
                            vi.0 != v0.0 || vi.1 != v0.1
                        }
                        &&& forall|j: int|
                            0 <= j < index ==> {
                                let v0 = processed_view(sel[0], cropper, ow, oh);
                                let vj = processed_view(#[trigger] sel[j], cropper, ow, oh);
                                vj.0 == v0.0 && vj.1 == v0.1
                            }
                    },
                    EncodeError::Encoder => true,
                }
            },
        },
    }
}

/// One full loop-artifact pass: applies the skip/stride/take selection to
/// the decoded frames, cuts the configured rectangle from each selected
/// frame when one is given, resizes each to fit the output bounds, and
/// encodes the sequence as one looping animated image with
/// parity-alternating frame durations.
#[verifier::loop_isolation(false)]
pub fn make_gif(
    frames: Vec<Raster>,
    config: &ImageSelectionConfig,
    cropper: Option<&Cropper>,
    out_width: u32,
    out_height: u32,
    fd: FrameDuration,
) -> (r: Result<Vec<u8>, PipelineError>)
    requires
        forall|i: int| 0 <= i < frames@.len() ==> (#[trigger] frames@[i]).wf(),
        1 <= out_width,
        1 <= out_height,
    ensures
        make_gif_post(
            frames@,
            *config,
            match cropper {
                Option::Some(c) => Option::Some(*c),
                Option::None => Option::None,
            },
            out_width,
            out_height,
            fd,
            r,
        ),
{
    let ghost gc = match cropper {
        Option::Some(c) => Option::Some(*c),
        Option::None => Option::<Cropper>::None,
    };
    let ghost all = frames@;
    let selected = select_frames(frames, config);
    let ghost sel = selected@;
    proof {
        assert forall|j: int| 0 <= j < sel.len() implies (#[trigger] sel[j]).wf() by {
            if config.skip_alternating {
                if config.skip as int <= all.len() {
                    crate::select::lemma_select_stride(all, config.skip as int, config.take as int);
                } else {
                    assert(sel.len() == 0);
                }
            } else {
                crate::select::lemma_select_no_stride(all, config.skip as int, config.take as int);
            }
        }
    }
    let mut rest = selected;
    let total: usize = rest.len();
    let mut ready: Vec<Raster> = Vec::new();
    let mut i: usize = 0;
    while rest.len() > 0
        invariant
            i == ready@.len(),
            i + rest@.len() == total,
            total == sel.len(),
            rest@ == sel.skip(i as int),
            forall|j: int| 0 <= j < i ==> frame_usable(#[trigger] sel[j], gc),
            forall|j: int|
                0 <= j < i ==> {
                    let v = processed_view(sel[j], gc, out_width, out_height);
                    &&& (#[trigger] ready@[j]).wf()
                    &&& ready@[j].width == v.0
                    &&& ready@[j].height == v.1
                    &&& ready@[j].data@ == v.2
                    &&& ready@[j].width <= out_width
                    &&& ready@[j].height <= out_height
                },
        decreases rest@.len(),
    {
        let f = rest.remove(0);
        proof {
            assert(f == sel[i as int]);
            assert(rest@ =~= sel.skip(i + 1));
        }
        let processed = match cropper {
            Some(c) => {
                if !(c.width >= 1 && c.height >= 1 && c.fits_frame(f.width, f.height)) {
                    return Err(PipelineError::BoundsViolation { index: i });
                }
                let cropped = c.crop_around_middle(&f);
                resize_rgba(&cropped, out_width, out_height)
            },
            None => {
                if !(f.width >= 1 && f.height >= 1) {
                    return Err(PipelineError::BoundsViolation { index: i });
                }
                resize_rgba(&f, out_width, out_height)
            },
        };
        ready.push(processed);
        i = i + 1;
    }
    let ghost ready_view = ready@;
    let result = write_gif(ready, fd);
    proof {
        assert(write_gif_post(ready_view, fd, result));
        assert(opaque_views(ready_view) =~= encoded_views(sel, gc, out_width, out_height));
        if pass_succeeds_on(sel, gc, out_width, out_height) {
            assert forall|j: int|
                0 <= j < ready_view.len() implies (#[trigger] ready_view[j]).width
                == ready_view[0].width && ready_view[j].height == ready_view[0].height by {
                if gc is None {
                    assert(sel[j].width == sel[0].width && sel[j].height == sel[0].height);
                }
            }
            assert(consistent_dims(ready_view));
            assert(dims_encodable(ready_view));
        }
    }
    match result {
        Ok(bytes) => Ok(bytes),
        Err(e) => {
            proof {
                match e {
                    EncodeError::MismatchedDimensions { index } => {
                        assert forall|j: int| 0 <= j < index implies ({
                            let v0 = processed_view(sel[0], gc, out_width, out_height);
                            let vj = processed_view(#[trigger] sel[j], gc, out_width, out_height);
                            vj.0 == v0.0 && vj.1 == v0.1
                        }) by {
                            assert(ready_view[j].width == ready_view[0].width && ready_view[j].height
                                == ready_view[0].height);
                        }
                    },
                    EncodeError::Encoder => {},
                }
            }
            Err(PipelineError::Encode(e))
        },
    }
}

} // verus!
