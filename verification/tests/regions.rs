use sprite_loop::pipeline::crop_frame_around_sprite;
use sprite_loop::raster::Raster;
use sprite_loop::region::{select_region, Cropper};

const HAT: (u8, u8, u8, u8) = (123, 189, 33, 255);

#[test]
fn clamp_collapses_negative_top_left_to_zero() {
    // A sprite located at (0, 0) with a 160 by 160 target on a 256 by 224
    // frame: both axes clamp to 0, not to a negative coordinate.
    let r = select_region(0, 0, 256, 224, 160, 160);
    assert_eq!((r.x, r.y, r.width, r.height), (0, 0, 160, 160));
}

#[test]
fn clamp_shifts_back_from_far_edge() {
    // Centered crop would overrun the right and bottom edges; the top-left
    // shifts back so the rectangle ends exactly at the frame edge.
    let r = select_region(240, 200, 256, 224, 64, 64);
    assert_eq!((r.x, r.y), (192, 160));
}

#[test]
fn unclamped_region_is_centered_on_the_sprite() {
    // Sprite top-left (100, 100), so its center is (108, 112); a 32 by 32
    // crop starts 16 pixels up and left of the center.
    let r = select_region(100, 100, 256, 224, 32, 32);
    assert_eq!((r.x, r.y, r.width, r.height), (92, 96, 32, 32));
}

#[test]
fn region_always_lies_within_the_frame() {
    for &(x, y) in &[(-300i32, -300i32), (0, 0), (120, 110), (400, 400)] {
        let r = select_region(x, y, 256, 224, 100, 60);
        assert!(r.x + r.width <= 256);
        assert!(r.y + r.height <= 224);
    }
}

#[test]
fn crop_copies_the_sub_grid() {
    let mut src = Raster::new_filled(4, 3, (1, 2, 3, 4));
    src.set_pixel(2, 1, (9, 8, 7, 6));
    let out = src.crop(1, 1, 2, 2);
    assert_eq!((out.width, out.height), (2, 2));
    assert_eq!(out.get_rgba(1, 0), (9, 8, 7, 6));
    assert_eq!(out.get_rgba(0, 0), (1, 2, 3, 4));
    assert_eq!(out.get_rgba(0, 1), (1, 2, 3, 4));
}

#[test]
fn cropper_cuts_its_configured_rectangle() {
    let c = Cropper::new(1, 0, 2, 2);
    assert!(c.fits_frame(4, 3));
    assert!(!c.fits_frame(2, 3));
    let mut src = Raster::new_filled(4, 3, (10, 20, 30, 40));
    src.set_pixel(1, 0, (5, 5, 5, 5));
    let out = c.crop_around_middle(&src);
    assert_eq!((out.width, out.height), (2, 2));
    assert_eq!(out.get_rgba(0, 0), (5, 5, 5, 5));
    assert_eq!(out.get_rgba(1, 1), (10, 20, 30, 40));
}

#[test]
fn cropper_from_strings_parses_or_rejects() {
    let c = Cropper::from_strings("4", "8", "15", "16").unwrap();
    assert_eq!((c.x, c.y, c.width, c.height), (4, 8, 15, 16));
    assert!(Cropper::from_strings("4", "8", "15", "sixteen").is_none());
    assert!(Cropper::from_strings("-1", "8", "15", "16").is_none());
}

#[test]
fn crop_around_located_sprite_clamps_at_the_corner() {
    // The sprite sits near the frame's top-left corner: the 160 by 160
    // crop clamps to (0, 0), so the hat pixels keep their coordinates.
    let mut frame = Raster::new_filled(256, 224, (0, 0, 0, 255));
    for &(dx, dy) in &[(0, 0), (1, 0), (2, 0), (3, 0), (4, 0), (-1, 1), (0, 1), (1, 1)] {
        frame.set_pixel((50 + dx) as u32, (50 + dy) as u32, HAT);
    }
    let out = crop_frame_around_sprite(&frame, 160, 160).unwrap();
    assert_eq!((out.width, out.height), (160, 160));
    assert_eq!(out.get_rgba(50, 50), (123, 189, 33, 255));
}

#[test]
fn crop_around_sprite_skips_frames_without_one() {
    let frame = Raster::new_filled(256, 224, (0, 0, 0, 255));
    assert!(crop_frame_around_sprite(&frame, 160, 160).is_none());
}
