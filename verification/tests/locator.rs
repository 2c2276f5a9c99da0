use sprite_loop::find_link::{find_link, find_match, make_facing_matchers, FacingMatcher};
use sprite_loop::raster::Raster;

const HAT: (u8, u8, u8, u8) = (123, 189, 33, 255);

fn blank_frame() -> Raster {
    Raster::new_filled(256, 224, (0, 0, 0, 255))
}

fn place_pattern(frame: &mut Raster, anchor: (i32, i32), offsets: &[(i32, i32)]) {
    frame.set_pixel(anchor.0 as u32, anchor.1 as u32, HAT);
    for (dx, dy) in offsets {
        let x = anchor.0 + dx;
        let y = anchor.1 + dy;
        frame.set_pixel(x as u32, y as u32, HAT);
    }
}

fn pattern_offsets(i: usize) -> Vec<(i32, i32)> {
    let m = make_facing_matchers();
    m.into_iter().nth(i).unwrap().hat_px_offsets
}

#[test]
fn locate_unique_pattern_instance() {
    // A frame whose only candidate pixels form pattern "facing_up_hat_top"
    // anchored at (50, 50); its anchor displacement is (-6, -2).
    let mut frame = blank_frame();
    let offs = pattern_offsets(0);
    place_pattern(&mut frame, (50, 50), &offs);
    assert_eq!(find_link(&frame), Some((44, 48)));
}

#[test]
fn locate_returns_none_without_candidates() {
    let frame = blank_frame();
    assert_eq!(find_link(&frame), None);
}

#[test]
fn locate_returns_none_when_no_pattern_is_complete() {
    // A few stray hat-colored pixels that satisfy no pattern fully.
    let mut frame = blank_frame();
    frame.set_pixel(10, 10, HAT);
    frame.set_pixel(100, 7, HAT);
    frame.set_pixel(30, 200, HAT);
    assert_eq!(find_link(&frame), None);
}

#[test]
fn locate_prefers_earlier_pattern() {
    // Pattern 0 at (50, 50) and pattern 2 at (100, 100): the earlier
    // pattern decides the result.
    let mut frame = blank_frame();
    place_pattern(&mut frame, (50, 50), &pattern_offsets(0));
    place_pattern(&mut frame, (100, 100), &pattern_offsets(2));
    assert_eq!(find_link(&frame), Some((44, 48)));
}

#[test]
fn locate_later_pattern_alone() {
    // Only pattern "facing_right_hat_top" (displacement (-7, -1)) at
    // (100, 100).
    let mut frame = blank_frame();
    place_pattern(&mut frame, (100, 100), &pattern_offsets(2));
    assert_eq!(find_link(&frame), Some((93, 99)));
}

#[test]
fn find_match_returns_first_matching_anchor() {
    let pixels: Vec<(i32, i32)> = vec![(5, 5), (9, 9), (10, 9), (9, 10)];
    let offsets: Vec<(i32, i32)> = vec![(1, 0), (0, 1)];
    assert_eq!(find_match(&pixels, &offsets), Some((9, 9)));
}

#[test]
fn find_match_returns_none_without_match() {
    let pixels: Vec<(i32, i32)> = vec![(5, 5), (9, 9)];
    let offsets: Vec<(i32, i32)> = vec![(1, 0)];
    assert_eq!(find_match(&pixels, &offsets), None);
}

#[test]
fn find_match_empty_offsets_matches_first_pixel() {
    let pixels: Vec<(i32, i32)> = vec![(3, 4), (5, 6)];
    let offsets: Vec<(i32, i32)> = Vec::new();
    assert_eq!(find_match(&pixels, &offsets), Some((3, 4)));
}

#[test]
fn matcher_set_is_the_five_known_patterns() {
    let m = make_facing_matchers();
    assert_eq!(m.len(), 5);
    let names: Vec<&str> = m.iter().map(|fm| fm.name.as_str()).collect();
    assert_eq!(
        names,
        vec![
            "facing_up_hat_top",
            "facing_up_hat_bottom",
            "facing_right_hat_top",
            "facing_right_hat_jiggling",
            "right_facing_pot_pickup",
        ]
    );
    assert_eq!(
        m[0].hat_px_offsets,
        vec![(1, 0), (2, 0), (3, 0), (4, 0), (-1, 1), (0, 1), (1, 1)]
    );
    assert_eq!(m[0].link_offset_from_hat_found_location, (-6, -2));
    assert_eq!(
        m[1].hat_px_offsets,
        vec![(1, 0), (0, 1), (1, 1), (1, 2), (1, 3), (1, 4)]
    );
    assert_eq!(m[1].link_offset_from_hat_found_location, (-9, -7));
    assert_eq!(
        m[2].hat_px_offsets,
        vec![(1, 0), (-1, 1), (0, 1), (1, 1), (-2, 2), (-1, 2), (0, 2)]
    );
    assert_eq!(m[2].link_offset_from_hat_found_location, (-7, -1));
    assert_eq!(
        m[3].hat_px_offsets,
        vec![(5, 0), (6, 0), (6, -1), (0, 1), (1, 1), (4, 1), (5, 1)]
    );
    assert_eq!(m[3].link_offset_from_hat_found_location, (-2, -2));
    assert_eq!(
        m[4].hat_px_offsets,
        vec![
            (1, 0),
            (6, 0),
            (7, 0),
            (1, 1),
            (6, 1),
            (7, 1),
            (8, 1),
            (7, 2),
            (8, 2),
            (8, 3)
        ]
    );
    assert_eq!(m[4].link_offset_from_hat_found_location, (-3, -1));
}

#[test]
fn find_link_topleft_displaces_the_anchor() {
    let matcher = FacingMatcher::new("test_shape", vec![(1, 0)], (-2, -3));
    let pixels: Vec<(i32, i32)> = vec![(7, 7), (8, 7)];
    assert_eq!(matcher.find_link_topleft(&pixels), Some((5, 4)));
    let lonely: Vec<(i32, i32)> = vec![(7, 7)];
    assert_eq!(matcher.find_link_topleft(&lonely), None);
}
