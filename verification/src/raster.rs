//! In-memory rasters: a decoded 2D grid of RGBA pixels, row-major, 8 bits per
//! channel.
//!
//! A raster is the unit every pipeline stage works on: the locator reads its
//! pixels, the region selector crops it, and the loop encoder serializes a
//! sequence of rasters.

use vstd::arithmetic::div_mod::lemma_fundamental_div_mod_converse;
use vstd::prelude::*;

verus! {

/// Row-major index arithmetic: a pixel inside the grid has its four channel
/// bytes inside the flat buffer.
pub proof fn lemma_pixel_in_grid(x: int, y: int, w: int, h: int)
    by (nonlinear_arith)
    requires
        0 <= x < w,
        0 <= y < h,
    ensures
        0 <= y * w + x < w * h,
{
}

/// Multiples of four leave each channel offset in its own residue class.
proof fn lemma_mod4(m: int)
    by (nonlinear_arith)
    requires
        0 <= m,
    ensures
        (4 * m) % 4 == 0,
        (4 * m + 1) % 4 == 1,
        (4 * m + 2) % 4 == 2,
        (4 * m + 3) % 4 == 3,
{
}

/// Recovering a pixel's coordinates and channel from its flat byte index.
proof fn lemma_flat_index(x: int, y: int, w: int, c: int)
    requires
        0 <= x < w,
        0 <= y,
        0 <= c < 4,
    ensures
        (4 * (y * w + x) + c) / 4 == y * w + x,
        (4 * (y * w + x) + c) % 4 == c,
        (y * w + x) / w == y,
        (y * w + x) % w == x,
{
    assert(0 <= y * w) by (nonlinear_arith)
        requires
            0 <= y && 0 <= w,
    ;
    lemma_fundamental_div_mod_converse(4 * (y * w + x) + c, 4, y * w + x, c);
    lemma_fundamental_div_mod_converse(y * w + x, w, y, x);
}

/// The channel byte of an RGBA color: 0 red, 1 green, 2 blue, otherwise
/// alpha.
pub open spec fn rgba_channel(rgba: (u8, u8, u8, u8), c: int) -> u8 {
    if c == 0 {
        rgba.0
    } else if c == 1 {
        rgba.1
    } else if c == 2 {
        rgba.2
    } else {
        rgba.3
    }
}

/// A decoded image: `width * height` pixels, each four bytes (red, green,
/// blue, alpha), rows from top to bottom, pixels left to right within a row.
pub struct Raster {
    pub width: u32,
    pub height: u32,
    pub data: Vec<u8>,
}

impl Raster {
    /// The buffer holds exactly four bytes per pixel.
    pub open spec fn wf(self) -> bool {
        self.data@.len() == 4 * self.width as int * self.height as int
    }

    /// Index of the first channel byte of pixel (x, y).
    pub open spec fn pixel_base(self, x: int, y: int) -> int {
        4 * (y * self.width as int + x)
    }

    /// Channel `c` (0 red, 1 green, 2 blue, 3 alpha) of pixel (x, y).
    pub open spec fn channel_at(self, x: int, y: int, c: int) -> u8 {
        self.data@[self.pixel_base(x, y) + c]
    }

    /// The four channel bytes of an in-grid pixel lie inside the buffer.
    pub proof fn lemma_base_in_bounds(self, x: int, y: int)
        requires
            self.wf(),
            0 <= x < self.width,
            0 <= y < self.height,
        ensures
            0 <= y * self.width as int + x < self.width as int * self.height as int,
            self.width as int * self.height as int <= self.data@.len(),
            0 <= self.pixel_base(x, y),
            self.pixel_base(x, y) + 4 <= self.data@.len(),
            self.data@.len() <= usize::MAX,
    {
        assert(self.data.len() == self.data@.len());
        lemma_pixel_in_grid(x, y, self.width as int, self.height as int);
        let w = self.width as int;
        let h = self.height as int;
        assert(4 * (y * w + x) + 4 <= 4 * (w * h) && w * h <= 4 * (w * h) && 4 * (w * h) == 4 * w
            * h) by (nonlinear_arith)
            requires
                0 <= y * w + x < w * h,
        ;
    }

    /// Builds a raster from a flat RGBA byte buffer; `None` exactly when the
    /// buffer does not hold four bytes per pixel.
    pub fn from_rgba8(width: u32, height: u32, data: Vec<u8>) -> (r: Option<Raster>)
        ensures
            match r {
                Some(raster) => {
                    &&& raster.wf()
                    &&& raster.width == width
                    &&& raster.height == height
                    &&& raster.data@ == data@
                },
                None => data@.len() != 4 * width as int * height as int,
            },
    {
        proof {
            assert(4 * (width as int) * (height as int) < 0x80000000000000000000000000000000)
                by (nonlinear_arith)
                requires
                    0 <= width as int <= 0xffffffff,
                    0 <= height as int <= 0xffffffff,
            ;
        }
        let need: u128 = 4u128 * (width as u128) * (height as u128);
        if data.len() as u128 == need {
            Some(Raster { width, height, data })
        } else {
            None
        }
    }

    /// Every pixel of the raster has the given color.
    pub open spec fn uniform_color(self, rgba: (u8, u8, u8, u8)) -> bool {
        forall|x: int, y: int, c: int|
            0 <= x < self.width && 0 <= y < self.height && 0 <= c < 4
                ==> #[trigger] self.channel_at(x, y, c) == rgba_channel(rgba, c)
    }

    /// A raster of the given dimensions with every pixel set to the same
    /// color.
    pub fn new_filled(width: u32, height: u32, rgba: (u8, u8, u8, u8)) -> (r: Raster)
        requires
            4 * width as int * height as int <= usize::MAX,
        ensures
            r.wf(),
            r.width == width,
            r.height == height,
            r.uniform_color(rgba),
    {
        proof {
            let w = width as int;
            let h = height as int;
            assert(0 <= w * h && w * h <= 4 * (w * h) && 4 * (w * h) == 4 * w * h)
                by (nonlinear_arith)
                requires
                    0 <= w && 0 <= h,
            ;
        }
        let n: usize = (width as usize) * (height as usize);
        let mut data: Vec<u8> = Vec::new();
        let mut p: usize = 0;
        while p < n
            invariant
                0 <= p <= n,
                n == width as int * height as int,
                4 * n <= usize::MAX,
                data@.len() == 4 * p,
                forall|i: int| 0 <= i < data@.len() ==> #[trigger] data@[i] == rgba_channel(
                    rgba,
                    i % 4,
                ),
            decreases n - p,
        {
            data.push(rgba.0);
            data.push(rgba.1);
            data.push(rgba.2);
            data.push(rgba.3);
            proof {
                lemma_mod4(p as int);
            }
            p = p + 1;
        }
        let r = Raster { width, height, data };
        assert forall|x: int, y: int, c: int|
            0 <= x < r.width && 0 <= y < r.height && 0 <= c < 4 implies #[trigger] r.channel_at(
            x,
            y,
            c,
        ) == rgba_channel(rgba, c) by {
            r.lemma_base_in_bounds(x, y);
            lemma_mod4(y * width as int + x);
        }
        r
    }

    /// The four channel bytes of pixel (x, y).
    pub fn get_rgba(&self, x: u32, y: u32) -> (r: (u8, u8, u8, u8))
        requires
            self.wf(),
            x < self.width,
            y < self.height,
        ensures
            r.0 == self.channel_at(x as int, y as int, 0),
            r.1 == self.channel_at(x as int, y as int, 1),
            r.2 == self.channel_at(x as int, y as int, 2),
            r.3 == self.channel_at(x as int, y as int, 3),
    {
        proof {
            self.lemma_base_in_bounds(x as int, y as int);
        }
        let base: usize = 4 * ((y as usize) * (self.width as usize) + (x as usize));
        (self.data[base], self.data[base + 1], self.data[base + 2], self.data[base + 3])
    }

    /// Overwrites pixel (x, y); every other pixel and the dimensions stay.
    pub fn set_pixel(&mut self, x: u32, y: u32, rgba: (u8, u8, u8, u8))
        requires
            old(self).wf(),
            x < old(self).width,
            y < old(self).height,
        ensures
            final(self).wf(),
            final(self).width == old(self).width,
            final(self).height == old(self).height,
            final(self).channel_at(x as int, y as int, 0) == rgba.0,
            final(self).channel_at(x as int, y as int, 1) == rgba.1,
            final(self).channel_at(x as int, y as int, 2) == rgba.2,
            final(self).channel_at(x as int, y as int, 3) == rgba.3,
            forall|i: int|
                0 <= i < old(self).data@.len() && !(old(self).pixel_base(x as int, y as int) <= i
                    < old(self).pixel_base(x as int, y as int) + 4)
                    ==> final(self).data@[i] == old(self).data@[i],
    {
        proof {
            self.lemma_base_in_bounds(x as int, y as int);
        }
        let base: usize = 4 * ((y as usize) * (self.width as usize) + (x as usize));
        self.data[base] = rgba.0;
        self.data[base + 1] = rgba.1;
        self.data[base + 2] = rgba.2;
        self.data[base + 3] = rgba.3;
    }

    /// Every pixel of `self` equals the pixel of `src` offset by (x0, y0).
    pub open spec fn is_crop_of(self, src: Raster, x0: int, y0: int) -> bool {
        forall|x: int, y: int, c: int|
            0 <= x < self.width && 0 <= y < self.height && 0 <= c < 4
                ==> #[trigger] self.channel_at(x, y, c) == src.channel_at(x0 + x, y0 + y, c)
    }

    /// The sub-raster of size `cw` by `ch` whose top-left pixel is (x0, y0)
    /// of `self`; the rectangle must lie within the frame.
    pub fn crop(&self, x0: u32, y0: u32, cw: u32, ch: u32) -> (r: Raster)
        requires
            self.wf(),
            x0 + cw <= self.width,
            y0 + ch <= self.height,
        ensures
            r.wf(),
            r.width == cw,
            r.height == ch,
            r.is_crop_of(*self, x0 as int, y0 as int),
            r.data@ == crop_data(*self, x0 as int, y0 as int, cw as int, ch as int),
    {
        let mut data: Vec<u8> = Vec::new();
        let mut yy: u32 = 0;
        while yy < ch
            invariant
                self.wf(),
                x0 + cw <= self.width,
                y0 + ch <= self.height,
                0 <= yy <= ch,
                data@.len() == 4 * (yy as int * cw as int),
                forall|i: int|
                    0 <= i < data@.len() ==> #[trigger] data@[i] == self.channel_at(
                        x0 + (i / 4) % (cw as int),
                        y0 + (i / 4) / (cw as int),
                        i % 4,
                    ),
            decreases ch - yy,
        {
            let mut xx: u32 = 0;
            while xx < cw
                invariant
                    self.wf(),
                    x0 + cw <= self.width,
                    y0 + ch <= self.height,
                    0 <= yy < ch,
                    0 <= xx <= cw,
                    data@.len() == 4 * (yy as int * cw as int + xx as int),
                    forall|i: int|
                        0 <= i < data@.len() ==> #[trigger] data@[i] == self.channel_at(
                            x0 + (i / 4) % (cw as int),
                            y0 + (i / 4) / (cw as int),
                            i % 4,
                        ),
                decreases cw - xx,
            {
                let px = self.get_rgba(x0 + xx, y0 + yy);
                data.push(px.0);
                data.push(px.1);
                data.push(px.2);
                data.push(px.3);
                proof {
                    lemma_flat_index(xx as int, yy as int, cw as int, 0);
                    lemma_flat_index(xx as int, yy as int, cw as int, 1);
                    lemma_flat_index(xx as int, yy as int, cw as int, 2);
                    lemma_flat_index(xx as int, yy as int, cw as int, 3);
                }
                xx = xx + 1;
            }
            proof {
                assert((yy as int + 1) * cw as int == yy as int * cw as int + cw as int)
                    by (nonlinear_arith);
            }
            yy = yy + 1;
        }
        let r = Raster { width: cw, height: ch, data };
        proof {
            assert(ch as int * cw as int == cw as int * ch as int) by (nonlinear_arith);
            assert(4 * (ch as int * cw as int) == 4 * cw as int * ch as int) by (nonlinear_arith);
        }
        assert forall|x: int, y: int, c: int|
            0 <= x < r.width && 0 <= y < r.height && 0 <= c < 4 implies #[trigger] r.channel_at(
            x,
            y,
            c,
        ) == self.channel_at(x0 + x, y0 + y, c) by {
            r.lemma_base_in_bounds(x, y);
            lemma_flat_index(x, y, cw as int, c);
        }
        assert(r.data@ =~= crop_data(*self, x0 as int, y0 as int, cw as int, ch as int));
        r
    }

    /// Returns the raster with every alpha byte forced to 255 and every
    /// color byte kept.
    pub fn to_opaque(&self) -> (r: Raster)
        ensures
            r.width == self.width,
            r.height == self.height,
            r.data@ == opaque_bytes(self.data@),
            self.wf() ==> r.wf(),
    {
        let mut data: Vec<u8> = Vec::new();
        let mut i: usize = 0;
        let n: usize = self.data.len();
        while i < n
            invariant
                0 <= i <= n,
                n == self.data@.len(),
                data@.len() == i,
                forall|j: int|
                    0 <= j < i ==> #[trigger] data@[j] == (if j % 4 == 3 {
                        255u8
                    } else {
                        self.data@[j]
                    }),
            decreases n - i,
        {
            if i % 4 == 3 {
                data.push(255);
            } else {
                let b = self.data[i];
                data.push(b);
            }
            i = i + 1;
        }
        let r = Raster { width: self.width, height: self.height, data };
        assert(r.data@ =~= opaque_bytes(self.data@));
        r
    }
}

/// The flat RGBA bytes of the `cw` by `ch` sub-grid of `src` whose top-left
/// pixel is (x0, y0).
pub open spec fn crop_data(src: Raster, x0: int, y0: int, cw: int, ch: int) -> Seq<u8> {
    Seq::new(
        (4 * cw * ch) as nat,
        |i: int| src.channel_at(x0 + (i / 4) % cw, y0 + (i / 4) / cw, i % 4),
    )
}

/// The byte buffer with every fourth byte (each pixel's alpha) replaced by
/// 255 and all color bytes kept.
pub open spec fn opaque_bytes(s: Seq<u8>) -> Seq<u8> {
    Seq::new(
        s.len(),
        |i: int|
            if i % 4 == 3 {
                255u8
            } else {
                s[i]
            },
    )
}

/// What `image::math::resize_dimensions` returns: the largest size that
/// fits within the bounds while keeping the input's aspect ratio. It is a
/// function of the input and target dimensions alone; the pixels play no
/// part in it.
pub uninterp spec fn resized_dims(
    width: u32,
    height: u32,
    target_width: u32,
    target_height: u32,
) -> (u32, u32);

/// What `image::imageops::resize` (nearest-neighbor filter) produces for a
/// raster resampled toward the given bounds: the resized RGBA bytes, a
/// function of the input pixels and the bounds alone.
pub uninterp spec fn resized_data(
    width: u32,
    height: u32,
    data: Seq<u8>,
    target_width: u32,
    target_height: u32,
) -> Seq<u8>;

/// The dimensions `image::DynamicImage::resize` gives its result: the input
/// dimensions when they already equal the bounds (the image is returned
/// unscaled), otherwise the aspect-preserving fit within the bounds.
pub open spec fn spec_resized_dims(width: u32, height: u32, tw: u32, th: u32) -> (u32, u32) {
    if width == tw && height == th {
        (width, height)
    } else {
        resized_dims(width, height, tw, th)
    }
}

/// Relies on `image::DynamicImage::resize` (nearest-neighbor filter): per
/// its documentation and source the result is the input itself when its
/// dimensions already equal the bounds, and otherwise the largest
/// aspect-preserving image that fits within the bounds (`resize_dimensions`
/// for the size, `imageops::resize` for the pixels), with both result
/// dimensions at least 1; the whole result is a function of the input and
/// the bounds alone.
#[verifier::external_body]
pub(crate) fn resize_rgba(r: &Raster, target_width: u32, target_height: u32) -> (out: Raster)
    requires
        r.wf(),
        1 <= r.width,
        1 <= r.height,
        1 <= target_width,
        1 <= target_height,
    ensures
        out.wf(),
        1 <= out.width <= target_width,
        1 <= out.height <= target_height,
        (out.width, out.height) == (if r.width == target_width && r.height == target_height {
            (r.width, r.height)
        } else {
            resized_dims(r.width, r.height, target_width, target_height)
        }),
        out.data@ == resized_data(r.width, r.height, r.data@, target_width, target_height),
{
    let buf = image::RgbaImage::from_raw(r.width, r.height, r.data.clone()).unwrap();
    let img = image::DynamicImage::ImageRgba8(buf);
    let resized = img.resize(target_width, target_height, image::imageops::FilterType::Nearest);
    let out = resized.into_rgba8();
    Raster { width: out.width(), height: out.height(), data: out.into_raw() }
}

} // verus!
