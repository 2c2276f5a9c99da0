//! The sprite locator: finds the character in a reference-resolution frame
//! by looking for pixels of the hat's signature color arranged in one of a
//! fixed, priority-ordered list of offset patterns.
//!
//! Every pixel whose RGB value equals the signature color exactly is a
//! candidate. A pattern matches at a candidate (the anchor) when every one
//! of the pattern's relative offsets also lands on a candidate. Patterns are
//! tried in a fixed priority order; the first pattern with any matching
//! anchor decides the result, which is the anchor shifted by that
//! pattern's own offset to the sprite's bounding-box top-left corner.

use crate::raster::Raster;
use vstd::prelude::*;

verus! {

/// Red channel of the hat's signature color.
pub const HAT_COLOR_RED: u8 = 123;

/// Green channel of the hat's signature color.
pub const HAT_COLOR_GREEN: u8 = 189;

/// Blue channel of the hat's signature color.
pub const HAT_COLOR_BLUE: u8 = 33;

/// Pixel (x, y) lies in the frame and its RGB value equals the hat's
/// signature color exactly.
pub open spec fn is_candidate(r: Raster, x: int, y: int) -> bool {
    &&& 0 <= x < r.width
    &&& 0 <= y < r.height
    &&& r.channel_at(x, y, 0) == HAT_COLOR_RED
    &&& r.channel_at(x, y, 1) == HAT_COLOR_GREEN
    &&& r.channel_at(x, y, 2) == HAT_COLOR_BLUE
}

/// The coordinate (x, y) occurs among the listed pixels.
pub open spec fn contains_coord(s: Seq<(i32, i32)>, x: int, y: int) -> bool {
    exists|i: int| 0 <= i < s.len() && (#[trigger] s[i]).0 == x && s[i].1 == y
}

/// Every required offset, taken from the anchor (px, py), lands on a listed
/// pixel.
pub open spec fn offsets_match_at(
    pixels: Seq<(i32, i32)>,
    offs: Seq<(i32, i32)>,
    px: int,
    py: int,
) -> bool {
    forall|k: int|
        0 <= k < offs.len() ==> contains_coord(pixels, px + (#[trigger] offs[k]).0, py + offs[k].1)
}

/// Some listed pixel is an anchor at which every required offset matches.
pub open spec fn has_match(pixels: Seq<(i32, i32)>, offs: Seq<(i32, i32)>) -> bool {
    exists|i: int|
        0 <= i < pixels.len() && offsets_match_at(
            pixels,
            offs,
            (#[trigger] pixels[i]).0 as int,
            pixels[i].1 as int,
        )
}

/// The pixel at position `i` is the first listed anchor at which every
/// required offset matches.
pub open spec fn first_match_at(pixels: Seq<(i32, i32)>, offs: Seq<(i32, i32)>, i: int) -> bool {
    &&& 0 <= i < pixels.len()
    &&& offsets_match_at(pixels, offs, pixels[i].0 as int, pixels[i].1 as int)
    &&& forall|j: int|
        0 <= j < i ==> !offsets_match_at(
            pixels,
            offs,
            (#[trigger] pixels[j]).0 as int,
            pixels[j].1 as int,
        )
}

/// Whether the coordinate (x, y) occurs among the listed pixels.
fn contains_point(pixels: &Vec<(i32, i32)>, x: i64, y: i64) -> (b: bool)
    ensures
        b == contains_coord(pixels@, x as int, y as int),
{
    let n = pixels.len();
    let mut i: usize = 0;
    while i < n
        invariant
            0 <= i <= n,
            n == pixels@.len(),
            forall|j: int|
                0 <= j < i ==> !((#[trigger] pixels@[j]).0 == x as int && pixels@[j].1 == y as int),
        decreases n - i,
    {
        let p = pixels[i];
        if p.0 as i64 == x && p.1 as i64 == y {
            return true;
        }
        i = i + 1;
    }
    false
}

/// Whether every required offset taken from the anchor (px, py) lands on a
/// listed pixel.
fn offsets_all_present(
    pixels: &Vec<(i32, i32)>,
    offs: &Vec<(i32, i32)>,
    px: i32,
    py: i32,
) -> (b: bool)
    ensures
        b == offsets_match_at(pixels@, offs@, px as int, py as int),
{
    let n = offs.len();
    let mut k: usize = 0;
    while k < n
        invariant
            0 <= k <= n,
            n == offs@.len(),
            forall|k2: int|
                0 <= k2 < k ==> contains_coord(
                    pixels@,
                    px as int + (#[trigger] offs@[k2]).0,
                    py as int + offs@[k2].1,
                ),
        decreases n - k,
    {
        let off = offs[k];
        let nx = px as i64 + off.0 as i64;
        let ny = py as i64 + off.1 as i64;
        if !contains_point(pixels, nx, ny) {
            return false;
        }
        k = k + 1;
    }
    true
}

/// Scans the listed pixels in order and returns the first anchor at which
/// every required offset lands on a listed pixel, or `None` when no listed
/// pixel is such an anchor.
pub fn find_match(pixels: &Vec<(i32, i32)>, reqd_offsets: &Vec<(i32, i32)>) -> (r: Option<
    (i32, i32),
>)
    ensures
        r is Some <==> has_match(pixels@, reqd_offsets@),
        r matches Some(p) ==> exists|i: int|
            #[trigger] first_match_at(pixels@, reqd_offsets@, i) && pixels@[i] == p,
{
    let n = pixels.len();
    let mut i: usize = 0;
    while i < n
        invariant
            0 <= i <= n,
            n == pixels@.len(),
            forall|j: int|
                0 <= j < i ==> !offsets_match_at(
                    pixels@,
                    reqd_offsets@,
                    (#[trigger] pixels@[j]).0 as int,
                    pixels@[j].1 as int,
                ),
        decreases n - i,
    {
        let p = pixels[i];
        if offsets_all_present(pixels, reqd_offsets, p.0, p.1) {
            proof {
                assert(first_match_at(pixels@, reqd_offsets@, i as int));
            }
            return Some(p);
        }
        i = i + 1;
    }
    None
}

/// One sprite orientation: the offsets that must all be candidates around an
/// anchor for this orientation to match, and the displacement from the anchor
/// to the sprite's bounding-box top-left corner.
pub struct FacingMatcher {
    pub name: String,
    pub hat_px_offsets: Vec<(i32, i32)>,
    pub link_offset_from_hat_found_location: (i32, i32),
}

impl FacingMatcher {
    pub fn new(
        name: &str,
        hat_px_offsets: Vec<(i32, i32)>,
        link_offset_from_hat_found_location: (i32, i32),
    ) -> (r: Self)
        ensures
            r.name@ == name@,
            r.hat_px_offsets@ == hat_px_offsets@,
            r.link_offset_from_hat_found_location == link_offset_from_hat_found_location,
    {
        FacingMatcher { name: name.to_owned(), hat_px_offsets, link_offset_from_hat_found_location }
    }

    /// Looks for the first listed anchor matching this orientation's offsets
    /// and displaces it to the sprite's top-left corner.
    pub fn find_link_topleft(&self, possible_links_hat_pixels: &Vec<(i32, i32)>) -> (r: Option<
        (i32, i32),
    >)
        requires
            coords_bounded(possible_links_hat_pixels@),
            -0x3fff_ffff <= self.link_offset_from_hat_found_location.0 <= 0x3fff_ffff,
            -0x3fff_ffff <= self.link_offset_from_hat_found_location.1 <= 0x3fff_ffff,
        ensures
            r is Some <==> has_match(possible_links_hat_pixels@, self.hat_px_offsets@),
            r matches Some(q) ==> exists|i: int|
                #[trigger] first_match_at(possible_links_hat_pixels@, self.hat_px_offsets@, i)
                    && q.0 == possible_links_hat_pixels@[i].0
                    + self.link_offset_from_hat_found_location.0 && q.1
                    == possible_links_hat_pixels@[i].1 + self.link_offset_from_hat_found_location.1,
    {
        match find_match(possible_links_hat_pixels, &self.hat_px_offsets) {
            Some(p) => {
                proof {
                    let i = choose|i: int|
                        #[trigger] first_match_at(
                            possible_links_hat_pixels@,
                            self.hat_px_offsets@,
                            i,
                        ) && possible_links_hat_pixels@[i] == p;
                    assert(-0x3fff_ffff <= p.0 <= 0x3fff_ffff && -0x3fff_ffff <= p.1
                        <= 0x3fff_ffff);
                }
                let (xo, yo) = self.link_offset_from_hat_found_location;
                Some((p.0 + xo, p.1 + yo))
            },
            None => None,
        }
    }
}

/// Every listed coordinate is small enough that adding a displacement of the
/// same magnitude stays within the machine integer range.
pub open spec fn coords_bounded(s: Seq<(i32, i32)>) -> bool {
    forall|i: int|
        0 <= i < s.len() ==> {
            &&& -0x3fff_ffff <= (#[trigger] s[i]).0 <= 0x3fff_ffff
            &&& -0x3fff_ffff <= s[i].1 <= 0x3fff_ffff
        }
}

/// How many offset patterns the matcher set holds.
pub open spec fn pattern_count() -> int {
    5
}

/// The offset list of pattern `m`, in priority order of the patterns.
pub open spec fn pattern_offsets(m: int) -> Seq<(i32, i32)> {
    if m == 0 {
        seq![(1i32, 0i32), (2, 0), (3, 0), (4, 0), (-1i32, 1), (0, 1), (1, 1)]
    } else if m == 1 {
        seq![(1i32, 0i32), (0, 1), (1, 1), (1, 2), (1, 3), (1, 4)]
    } else if m == 2 {
        seq![(1i32, 0i32), (-1i32, 1), (0, 1), (1, 1), (-2i32, 2), (-1i32, 2), (0, 2)]
    } else if m == 3 {
        seq![(5i32, 0i32), (6, 0), (6, -1i32), (0, 1), (1, 1), (4, 1), (5, 1)]
    } else {
        seq![(1i32, 0i32), (6, 0), (7, 0), (1, 1), (6, 1), (7, 1), (8, 1), (7, 2), (8, 2), (8, 3)]
    }
}

/// The anchor-to-top-left displacement of pattern `m`.
pub open spec fn pattern_shift(m: int) -> (i32, i32) {
    if m == 0 {
        (-6i32, -2i32)
    } else if m == 1 {
        (-9i32, -7i32)
    } else if m == 2 {
        (-7i32, -1i32)
    } else if m == 3 {
        (-2i32, -2i32)
    } else {
        (-3i32, -1i32)
    }
}

/// The name of pattern `m`.
pub open spec fn pattern_name(m: int) -> Seq<char> {
    if m == 0 {
        "facing_up_hat_top"@
    } else if m == 1 {
        "facing_up_hat_bottom"@
    } else if m == 2 {
        "facing_right_hat_top"@
    } else if m == 3 {
        "facing_right_hat_jiggling"@
    } else {
        "right_facing_pot_pickup"@
    }
}

/// The matcher is entry `m` of the fixed matcher set.
pub open spec fn is_pattern_entry(fm: FacingMatcher, m: int) -> bool {
    &&& fm.name@ == pattern_name(m)
    &&& fm.hat_px_offsets@ == pattern_offsets(m)
    &&& fm.link_offset_from_hat_found_location == pattern_shift(m)
}

/// The fixed, priority-ordered matcher set: five sprite orientations, each
/// with its hand-tuned offset list and displacement.
pub fn make_facing_matchers() -> (r: Vec<FacingMatcher>)
    ensures
        r@.len() == pattern_count(),
        forall|m: int| 0 <= m < pattern_count() ==> is_pattern_entry(#[trigger] r@[m], m),
{
    let mut offs0: Vec<(i32, i32)> = Vec::new();
    offs0.push((1, 0));
    offs0.push((2, 0));
    offs0.push((3, 0));
    offs0.push((4, 0));
    offs0.push((-1, 1));
    offs0.push((0, 1));
    offs0.push((1, 1));
    proof {
        assert(offs0@ =~= pattern_offsets(0));
    }
    let mut offs1: Vec<(i32, i32)> = Vec::new();
    offs1.push((1, 0));
    offs1.push((0, 1));
    offs1.push((1, 1));
    offs1.push((1, 2));
    offs1.push((1, 3));
    offs1.push((1, 4));
    proof {
        assert(offs1@ =~= pattern_offsets(1));
    }
    let mut offs2: Vec<(i32, i32)> = Vec::new();
    offs2.push((1, 0));
    offs2.push((-1, 1));
    offs2.push((0, 1));
    offs2.push((1, 1));
    offs2.push((-2, 2));
    offs2.push((-1, 2));
    offs2.push((0, 2));
    proof {
        assert(offs2@ =~= pattern_offsets(2));
    }
    let mut offs3: Vec<(i32, i32)> = Vec::new();
    offs3.push((5, 0));
    offs3.push((6, 0));
    offs3.push((6, -1));
    offs3.push((0, 1));
    offs3.push((1, 1));
    offs3.push((4, 1));
    offs3.push((5, 1));
    proof {
        assert(offs3@ =~= pattern_offsets(3));
    }
    let mut offs4: Vec<(i32, i32)> = Vec::new();
    offs4.push((1, 0));
    offs4.push((6, 0));
    offs4.push((7, 0));
    offs4.push((1, 1));
    offs4.push((6, 1));
    offs4.push((7, 1));
    offs4.push((8, 1));
    offs4.push((7, 2));
    offs4.push((8, 2));
    offs4.push((8, 3));
    proof {
        assert(offs4@ =~= pattern_offsets(4));
    }
    let mut matchers: Vec<FacingMatcher> = Vec::new();
    matchers.push(FacingMatcher::new("facing_up_hat_top", offs0, (-6, -2)));
    // only the backwards-P shape of the hat's lower edge: the hook covers
    // the top part in this orientation
    matchers.push(FacingMatcher::new("facing_up_hat_bottom", offs1, (-9, -7)));
    matchers.push(FacingMatcher::new("facing_right_hat_top", offs2, (-7, -1)));
    matchers.push(FacingMatcher::new("facing_right_hat_jiggling", offs3, (-2, -2)));
    matchers.push(FacingMatcher::new("right_facing_pot_pickup", offs4, (-3, -1)));
    matchers
}

/// Pattern `m` matches at anchor (x, y) of the frame: the anchor is a
/// candidate pixel and every offset of the pattern lands on a candidate
/// pixel.
pub open spec fn frame_pattern_at(frame: Raster, m: int, x: int, y: int) -> bool {
    &&& is_candidate(frame, x, y)
    &&& forall|k: int|
        0 <= k < pattern_offsets(m).len() ==> is_candidate(
            frame,
            x + (#[trigger] pattern_offsets(m)[k]).0,
            y + pattern_offsets(m)[k].1,
        )
}

/// Pattern `m` matches somewhere in the frame.
pub open spec fn pattern_found(frame: Raster, m: int) -> bool {
    exists|x: int, y: int| #[trigger] frame_pattern_at(frame, m, x, y)
}

/// The point `p` is the anchor of some match of pattern `m` shifted by
/// pattern `m`'s displacement, and no earlier pattern matches anywhere in the
/// frame.
pub open spec fn located_via(frame: Raster, m: int, p: (i32, i32)) -> bool {
    &&& 0 <= m < pattern_count()
    &&& forall|m2: int| 0 <= m2 < m ==> !pattern_found(frame, m2)
    &&& exists|x: int, y: int|
        #[trigger] frame_pattern_at(frame, m, x, y) && p.0 == x + pattern_shift(m).0 && p.1
            == y + pattern_shift(m).1
}

/// What the locator returns: `None` exactly when no pattern matches
/// anywhere; otherwise the shifted anchor of some match of the
/// highest-priority pattern that matches at all.
pub open spec fn locate_post(frame: Raster, r: Option<(i32, i32)>) -> bool {
    match r {
        Option::None => forall|m: int| 0 <= m < pattern_count() ==> !pattern_found(frame, m),
        Option::Some(p) => exists|m: int| #[trigger] located_via(frame, m, p),
    }
}

/// A pushed coordinate list keeps all coordinates it had, and gains the
/// pushed one.
proof fn lemma_contains_coord_push(s: Seq<(i32, i32)>, p: (i32, i32), x: int, y: int)
    requires
        contains_coord(s, x, y) || (p.0 == x && p.1 == y),
    ensures
        contains_coord(s.push(p), x, y),
{
    if p.0 == x && p.1 == y {
        assert(s.push(p)[s.len() as int] == p);
    } else {
        let i = choose|i: int| 0 <= i < s.len() && (#[trigger] s[i]).0 == x && s[i].1 == y;
        assert(s.push(p)[i] == s[i]);
    }
}

/// Every pixel of the frame whose color equals the hat signature exactly,
/// in row-major scan order.
fn collect_candidates(frame: &Raster) -> (v: Vec<(i32, i32)>)
    requires
        frame.wf(),
        frame.width <= 0x3fff_ffff,
        frame.height <= 0x3fff_ffff,
    ensures
        forall|i: int|
            0 <= i < v@.len() ==> is_candidate(
                *frame,
                (#[trigger] v@[i]).0 as int,
                v@[i].1 as int,
            ),
        forall|x: int, y: int| #[trigger] is_candidate(*frame, x, y) ==> contains_coord(v@, x, y),
        coords_bounded(v@),
{
    let mut v: Vec<(i32, i32)> = Vec::new();
    let mut y: u32 = 0;
    while y < frame.height
        invariant
            frame.wf(),
            frame.width <= 0x3fff_ffff,
            frame.height <= 0x3fff_ffff,
            0 <= y <= frame.height,
            forall|i: int|
                0 <= i < v@.len() ==> is_candidate(
                    *frame,
                    (#[trigger] v@[i]).0 as int,
                    v@[i].1 as int,
                ),
            forall|xx: int, yy: int|
                #[trigger] is_candidate(*frame, xx, yy) && yy < y ==> contains_coord(v@, xx, yy),
        decreases frame.height - y,
    {
        let mut x: u32 = 0;
        while x < frame.width
            invariant
                frame.wf(),
                frame.width <= 0x3fff_ffff,
                frame.height <= 0x3fff_ffff,
                0 <= y < frame.height,
                0 <= x <= frame.width,
                forall|i: int|
                    0 <= i < v@.len() ==> is_candidate(
                        *frame,
                        (#[trigger] v@[i]).0 as int,
                        v@[i].1 as int,
                    ),
                forall|xx: int, yy: int|
                    #[trigger] is_candidate(*frame, xx, yy) && (yy < y || (yy == y && xx < x))
                        ==> contains_coord(v@, xx, yy),
            decreases frame.width - x,
        {
            let px = frame.get_rgba(x, y);
            let ghost v0 = v@;
            if px.0 == HAT_COLOR_RED && px.1 == HAT_COLOR_GREEN && px.2 == HAT_COLOR_BLUE {
                v.push((x as i32, y as i32));
            }
            proof {
                assert forall|xx: int, yy: int|
                    #[trigger] is_candidate(*frame, xx, yy) && (yy < y || (yy == y && xx < x
                        + 1)) implies contains_coord(v@, xx, yy) by {
                    if v@ != v0 {
                        lemma_contains_coord_push(v0, (x as i32, y as i32), xx, yy);
                    }
                }
            }
            x = x + 1;
        }
        y = y + 1;
    }
    v
}

/// A candidate coordinate list drawn from the frame and closed over all of
/// its candidates carries pattern `m`'s matches exactly: an anchor matches
/// over the list exactly when it matches over the frame.
proof fn lemma_anchor_bridge(frame: Raster, v: Seq<(i32, i32)>, m: int, x: int, y: int)
    requires
        0 <= m < pattern_count(),
        forall|i: int|
            0 <= i < v.len() ==> is_candidate(frame, (#[trigger] v[i]).0 as int, v[i].1 as int),
        forall|xx: int, yy: int|
            #[trigger] is_candidate(frame, xx, yy) ==> contains_coord(v, xx, yy),
    ensures
        (contains_coord(v, x, y) && offsets_match_at(v, pattern_offsets(m), x, y))
            <==> frame_pattern_at(frame, m, x, y),
{
    let offs = pattern_offsets(m);
    if contains_coord(v, x, y) && offsets_match_at(v, offs, x, y) {
        let i = choose|i: int| 0 <= i < v.len() && (#[trigger] v[i]).0 == x && v[i].1 == y;
        assert(is_candidate(frame, x, y));
        assert forall|k: int| 0 <= k < offs.len() implies is_candidate(
            frame,
            x + (#[trigger] offs[k]).0,
            y + offs[k].1,
        ) by {
            assert(contains_coord(v, x + offs[k].0, y + offs[k].1));
            let j = choose|j: int|
                0 <= j < v.len() && (#[trigger] v[j]).0 == x + offs[k].0 && v[j].1 == y + offs[k].1;
            assert(is_candidate(frame, v[j].0 as int, v[j].1 as int));
        }
        assert(frame_pattern_at(frame, m, x, y));
    }
    if frame_pattern_at(frame, m, x, y) {
        assert(contains_coord(v, x, y));
        assert forall|k: int| 0 <= k < offs.len() implies contains_coord(
            v,
            x + (#[trigger] offs[k]).0,
            y + offs[k].1,
        ) by {
            assert(is_candidate(frame, x + offs[k].0, y + offs[k].1));
        }
    }
}

/// Over such a candidate list, pattern `m` has a matching anchor in the list
/// exactly when it matches somewhere in the frame.
proof fn lemma_set_bridge(frame: Raster, v: Seq<(i32, i32)>, m: int)
    requires
        0 <= m < pattern_count(),
        forall|i: int|
            0 <= i < v.len() ==> is_candidate(frame, (#[trigger] v[i]).0 as int, v[i].1 as int),
        forall|xx: int, yy: int|
            #[trigger] is_candidate(frame, xx, yy) ==> contains_coord(v, xx, yy),
    ensures
        has_match(v, pattern_offsets(m)) <==> pattern_found(frame, m),
{
    let offs = pattern_offsets(m);
    if has_match(v, offs) {
        let i = choose|i: int|
            0 <= i < v.len() && offsets_match_at(
                v,
                offs,
                (#[trigger] v[i]).0 as int,
                v[i].1 as int,
            );
        let x = v[i].0 as int;
        let y = v[i].1 as int;
        assert(contains_coord(v, x, y));
        lemma_anchor_bridge(frame, v, m, x, y);
        assert(frame_pattern_at(frame, m, x, y));
    }
    if pattern_found(frame, m) {
        let (x, y) = choose|x: int, y: int| #[trigger] frame_pattern_at(frame, m, x, y);
        lemma_anchor_bridge(frame, v, m, x, y);
        assert(contains_coord(v, x, y));
        let i = choose|i: int| 0 <= i < v.len() && (#[trigger] v[i]).0 == x && v[i].1 == y;
        assert(offsets_match_at(v, offs, v[i].0 as int, v[i].1 as int));
        assert(has_match(v, offs));
    }
}

/// Locates the sprite in a reference-resolution frame: collects all
/// candidate pixels, then tries the five patterns in priority order and
/// returns the first match's anchor displaced to the sprite's bounding-box
/// top-left corner, or `None` when no pattern matches anywhere.
pub fn find_link(image: &Raster) -> (r: Option<(i32, i32)>)
    requires
        image.wf(),
        image.width == 256,
        image.height == 224,
    ensures
        locate_post(*image, r),
{
    let possible_links_hat_pixels = collect_candidates(image);
    let matchers = make_facing_matchers();
    let n = matchers.len();
    let mut m: usize = 0;
    while m < n
        invariant
            n == pattern_count(),
            matchers@.len() == pattern_count(),
            forall|k: int|
                0 <= k < pattern_count() ==> is_pattern_entry(#[trigger] matchers@[k], k),
            coords_bounded(possible_links_hat_pixels@),
            forall|i: int|
                0 <= i < possible_links_hat_pixels@.len() ==> is_candidate(
                    *image,
                    (#[trigger] possible_links_hat_pixels@[i]).0 as int,
                    possible_links_hat_pixels@[i].1 as int,
                ),
            forall|xx: int, yy: int|
                #[trigger] is_candidate(*image, xx, yy) ==> contains_coord(
                    possible_links_hat_pixels@,
                    xx,
                    yy,
                ),
            0 <= m <= pattern_count(),
            forall|m2: int| 0 <= m2 < m ==> !pattern_found(*image, m2),
        decreases n - m,
    {
        let matcher = &matchers[m];
        proof {
            assert(is_pattern_entry(matchers@[m as int], m as int));
        }
        match matcher.find_link_topleft(&possible_links_hat_pixels) {
            Some(link_pos) => {
                proof {
                    let v = possible_links_hat_pixels@;
                    let offs = matcher.hat_px_offsets@;
                    let tr = matcher.link_offset_from_hat_found_location;
                    let i = choose|i: int|
                        #[trigger] first_match_at(v, offs, i) && link_pos.0 == v[i].0 + tr.0
                            && link_pos.1 == v[i].1 + tr.1;
                    let x = v[i].0 as int;
                    let y = v[i].1 as int;
                    assert(contains_coord(v, x, y));
                    lemma_anchor_bridge(*image, v, m as int, x, y);
                    assert(frame_pattern_at(*image, m as int, x, y));
                    assert(located_via(*image, m as int, link_pos));
                }
                return Some(link_pos);
            },
            None => {
                proof {
                    lemma_set_bridge(*image, possible_links_hat_pixels@, m as int);
                }
            },
        }
        m = m + 1;
    }
    None
}

/// Law: the locator returns `None` exactly when no pattern is fully
/// satisfied by any candidate anchor of the frame.
pub proof fn lemma_locate_none(frame: Raster, r: Option<(i32, i32)>)
    requires
        locate_post(frame, r),
    ensures
        r is None <==> forall|m: int| 0 <= m < pattern_count() ==> !pattern_found(frame, m),
{
    if r is Some {
        let p = r->Some_0;
        let m1 = choose|m1: int| #[trigger] located_via(frame, m1, p);
        let (x, y) = choose|x: int, y: int|
            #[trigger] frame_pattern_at(frame, m1, x, y) && p.0 == x + pattern_shift(m1).0
                && p.1 == y + pattern_shift(m1).1;
        assert(pattern_found(frame, m1));
    }
}

/// Law: on a frame of the reference resolution that holds exactly one
/// pattern instance — pattern `m` matching at anchor (ax, ay) and no pattern
/// matching anywhere else — the locator's result is precisely that anchor
/// shifted by pattern `m`'s displacement.
pub proof fn lemma_locate_unique_instance(
    frame: Raster,
    r: Option<(i32, i32)>,
    m: int,
    ax: int,
    ay: int,
)
    requires
        locate_post(frame, r),
        0 <= m < pattern_count(),
        frame_pattern_at(frame, m, ax, ay),
        forall|m2: int, x: int, y: int|
            #[trigger] frame_pattern_at(frame, m2, x, y) && 0 <= m2 < pattern_count() ==> m2 == m
                && x == ax && y == ay,
    ensures
        r is Some,
        r->Some_0.0 == ax + pattern_shift(m).0,
        r->Some_0.1 == ay + pattern_shift(m).1,
{
    assert(pattern_found(frame, m));
    if r is None {
        assert(!pattern_found(frame, m));
        assert(false);
    }
    let p = r->Some_0;
    let m1 = choose|m1: int| #[trigger] located_via(frame, m1, p);
    let (x, y) = choose|x: int, y: int|
        #[trigger] frame_pattern_at(frame, m1, x, y) && p.0 == x + pattern_shift(m1).0 && p.1
            == y + pattern_shift(m1).1;
    assert(m1 == m && x == ax && y == ay);
}

/// Law: priority — when pattern `i` and a later pattern `j` both match
/// somewhere in the frame, and no pattern earlier than `i` matches, the
/// locator's result comes from pattern `i`: some anchor of pattern `i`
/// shifted by pattern `i`'s displacement.
pub proof fn lemma_locate_priority(frame: Raster, r: Option<(i32, i32)>, i: int, j: int)
    requires
        locate_post(frame, r),
        0 <= i < j < pattern_count(),
        pattern_found(frame, i),
        pattern_found(frame, j),
        forall|m2: int| 0 <= m2 < i ==> !pattern_found(frame, m2),
    ensures
        r is Some,
        located_via(frame, i, r->Some_0),
{
    if r is None {
        assert(!pattern_found(frame, i));
        assert(false);
    }
    let p = r->Some_0;
    let m1 = choose|m1: int| #[trigger] located_via(frame, m1, p);
    let (x, y) = choose|x: int, y: int|
        #[trigger] frame_pattern_at(frame, m1, x, y) && p.0 == x + pattern_shift(m1).0 && p.1
            == y + pattern_shift(m1).1;
    if m1 < i {
        assert(pattern_found(frame, m1));
        assert(false);
    }
    if m1 > i {
        assert(!pattern_found(frame, i));
        assert(false);
    }
    assert(m1 == i);
}

} // verus!
