//! The loop encoder: serializes a finite ordered sequence of rasters into
//! one looping animated image. Every frame is made fully opaque first, the
//! frame durations alternate by position parity within the encoded
//! sequence, and the loop repeats indefinitely.

use crate::raster::{opaque_bytes, Raster};
use crate::timing::{spec_delay_ms, delays_for, FrameDuration};
use core::time::Duration;
use image::codecs::gif::{GifEncoder, Repeat};
use image::{Delay, Frame, RgbaImage};
use vstd::prelude::*;

verus! {

/// Why encoding failed.
#[derive(Clone, Copy, Debug, PartialEq, Eq, Structural)]
pub enum EncodeError {
    /// The frame at this index does not share the dimensions of the first
    /// frame of the sequence.
    MismatchedDimensions { index: usize },
    /// The animated-image encoder itself refused the sequence.
    Encoder,
}

/// The dimensions and pixel bytes of each frame, which is all the encoder
/// sees of a raster.
pub open spec fn raster_views(frames: Seq<Raster>) -> Seq<(u32, u32, Seq<u8>)> {
    Seq::new(frames.len(), |i: int| (frames[i].width, frames[i].height, frames[i].data@))
}

/// The frames as they are handed to the encoder: fully opaque.
pub open spec fn opaque_views(frames: Seq<Raster>) -> Seq<(u32, u32, Seq<u8>)> {
    Seq::new(
        frames.len(),
        |i: int| (frames[i].width, frames[i].height, opaque_bytes(frames[i].data@)),
    )
}

/// The duration of each of the first `n` frame positions, alternating by
/// parity.
pub open spec fn delay_seq(fd: FrameDuration, n: int) -> Seq<u32> {
    Seq::new(n as nat, |i: int| spec_delay_ms(fd, i))
}

/// Every frame has the dimensions of the first.
pub open spec fn consistent_dims(frames: Seq<Raster>) -> bool {
    forall|i: int|
        0 <= i < frames.len() ==> (#[trigger] frames[i]).width == frames[0].width
            && frames[i].height == frames[0].height
}

/// Every frame's dimensions fit the GIF format's 16-bit size fields, the
/// one thing the encoder refuses when it writes to a byte buffer.
pub open spec fn dims_encodable(frames: Seq<Raster>) -> bool {
    forall|i: int|
        0 <= i < frames.len() ==> (#[trigger] frames[i]).width <= 0xffff && frames[i].height
            <= 0xffff
}

/// What the GIF encoder writes for a sequence of RGBA frames (dimensions
/// and bytes each) and their delays in milliseconds, at fixed speed 1 with
/// infinite repeat. The bytes are a function of the frames and delays
/// alone.
pub uninterp spec fn gif_bytes(frames: Seq<(u32, u32, Seq<u8>)>, delays_ms: Seq<u32>) -> Seq<u8>;

/// Relies on `image::codecs::gif::GifEncoder`: created with
/// `new_with_speed(_, 1)`, set to repeat indefinitely, then fed one frame
/// per raster via `encode_frames`, each with its delay. The encoding is
/// deterministic in the frames and delays. Writing to a byte buffer cannot
/// fail, so the one refusal left in the encoder is a frame dimension over
/// the format's 16-bit size fields: the call succeeds exactly when every
/// frame fits them.
#[verifier::external_body]
fn encode_gif_frames(frames: &Vec<Raster>, delays_ms: &Vec<u32>) -> (r: Option<Vec<u8>>)
    requires
        frames@.len() == delays_ms@.len(),
        forall|i: int| 0 <= i < frames@.len() ==> (#[trigger] frames@[i]).wf(),
    ensures
        r matches Some(bytes) ==> bytes@ == gif_bytes(raster_views(frames@), delays_ms@),
        r is Some <==> dims_encodable(frames@),
{
    let mut out: Vec<u8> = Vec::new();
    let mut enc = GifEncoder::new_with_speed(&mut out, 1);
    if enc.set_repeat(Repeat::Infinite).is_err() {
        return None;
    }
    let it = frames.iter().zip(delays_ms.iter()).map(|(f, d)| {
        let buf = RgbaImage::from_raw(f.width, f.height, f.data.clone()).unwrap();
        Frame::from_parts(buf, 0, 0, Delay::from_saturating_duration(Duration::from_millis(*d as u64)))
    });
    let ok = enc.encode_frames(it).is_ok();
    drop(enc);
    if ok { Some(out) } else { None }
}

/// What the loop encoder guarantees of its result: encoding succeeds
/// whenever the frames share one dimension pair that fits the format, and
/// then the bytes are exactly the encoding of the opaque frames with
/// parity-alternating delays; a dimension mismatch reports the first
/// offending frame; an encoder refusal only happens on
/// dimension-consistent sequences with a frame too large for the format.
pub open spec fn write_gif_post(
    frames: Seq<Raster>,
    fd: FrameDuration,
    r: Result<Vec<u8>, EncodeError>,
) -> bool {
    &&& (consistent_dims(frames) && dims_encodable(frames) ==> r is Ok)
    &&& match r {
        Result::Ok(bytes) => {
            &&& consistent_dims(frames)
            &&& bytes@ == gif_bytes(opaque_views(frames), delay_seq(fd, frames.len() as int))
        },
        Result::Err(e) => match e {
            EncodeError::MismatchedDimensions { index } => {
                &&& 0 < index < frames.len()
                &&& (frames[index as int].width != frames[0].width || frames[index as int].height
                    != frames[0].height)
                &&& forall|j: int|
                    0 <= j < index ==> (#[trigger] frames[j]).width == frames[0].width
                        && frames[j].height == frames[0].height
            },
            EncodeError::Encoder => consistent_dims(frames) && !dims_encodable(frames),
        },
    }
}

/// Serializes the frame sequence as one looping animated image: every frame
/// made fully opaque, durations alternating by position parity in the
/// chosen profile, repeating indefinitely. Frames of inconsistent
/// dimensions are rejected with the first offending index.
pub fn write_gif(frames: Vec<Raster>, fd: FrameDuration) -> (r: Result<Vec<u8>, EncodeError>)
    requires
        forall|i: int| 0 <= i < frames@.len() ==> (#[trigger] frames@[i]).wf(),
    ensures
        write_gif_post(frames@, fd, r),
{
    let n = frames.len();
    let mut i: usize = 1;
    while i < n
        invariant
            1 <= i,
            n == frames@.len(),
            forall|j: int|
                0 <= j < i && j < n ==> (#[trigger] frames@[j]).width == frames@[0].width
                    && frames@[j].height == frames@[0].height,
        decreases n - i,
    {
        if frames[i].width != frames[0].width || frames[i].height != frames[0].height {
            return Err(EncodeError::MismatchedDimensions { index: i });
        }
        i = i + 1;
    }
    let mut rest = frames;
    let ghost orig = rest@;
    let mut opaqued: Vec<Raster> = Vec::new();
    while rest.len() > 0
        invariant
            opaqued@.len() + rest@.len() == orig.len(),
            rest@ == orig.skip(opaqued@.len() as int),
            forall|j: int| 0 <= j < orig.len() ==> (#[trigger] orig[j]).wf(),
            forall|j: int|
                0 <= j < opaqued@.len() ==> {
                    &&& (#[trigger] opaqued@[j]).wf()
                    &&& opaqued@[j].width == orig[j].width
                    &&& opaqued@[j].height == orig[j].height
                    &&& opaqued@[j].data@ == opaque_bytes(orig[j].data@)
                },
        decreases rest@.len(),
    {
        let ghost k = opaqued@.len() as int;
        let f = rest.remove(0);
        proof {
            assert(f == orig[k]);
            assert(rest@ =~= orig.skip(k + 1));
        }
        let o = f.to_opaque();
        opaqued.push(o);
    }
    let delays = delays_for(fd, opaqued.len());
    let result = encode_gif_frames(&opaqued, &delays);
    proof {
        assert(raster_views(opaqued@) =~= opaque_views(orig));
        assert(delays@ =~= delay_seq(fd, orig.len() as int));
    }
    match result {
        Some(bytes) => Ok(bytes),
        None => {
            proof {
                assert(!dims_encodable(opaqued@));
                assert(exists|j: int|
                    0 <= j < opaqued@.len() && !((#[trigger] opaqued@[j]).width <= 0xffff
                        && opaqued@[j].height <= 0xffff));
                let j = choose|j: int|
                    0 <= j < opaqued@.len() && !((#[trigger] opaqued@[j]).width <= 0xffff
                        && opaqued@[j].height <= 0xffff);
                assert(orig[j].width == opaqued@[j].width && orig[j].height == opaqued@[j].height);
                assert(!dims_encodable(orig));
            }
            Err(EncodeError::Encoder)
        },
    }
}

/// Law: encoding is idempotent in its inputs — on any sequence of frames
/// that share one encodable dimension pair, two encodings under the same
/// timing profile both succeed and produce byte-identical output, the
/// timing metadata included, independent of any prior run.
pub proof fn lemma_encode_deterministic(
    frames: Seq<Raster>,
    fd: FrameDuration,
    r1: Result<Vec<u8>, EncodeError>,
    r2: Result<Vec<u8>, EncodeError>,
)
    requires
        write_gif_post(frames, fd, r1),
        write_gif_post(frames, fd, r2),
        consistent_dims(frames),
        dims_encodable(frames),
    ensures
        r1 is Ok,
        r2 is Ok,
        r1->Ok_0@ == r2->Ok_0@,
{
}

} // verus!
