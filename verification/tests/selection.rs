use sprite_loop::select::{select_frames, ImageSelectionConfig};

fn cfg(skip: usize, take: usize, alt: bool) -> ImageSelectionConfig {
    ImageSelectionConfig::new(skip, take, alt)
}

#[test]
fn select_without_stride_is_a_contiguous_slice() {
    let frames: Vec<u32> = (0..10).collect();
    assert_eq!(select_frames(frames, &cfg(2, 3, false)), vec![2, 3, 4]);
}

#[test]
fn select_shortens_when_the_sequence_runs_out() {
    let frames: Vec<u32> = (0..4).collect();
    assert_eq!(select_frames(frames, &cfg(1, 10, false)), vec![1, 2, 3]);
    let frames: Vec<u32> = (0..4).collect();
    assert_eq!(select_frames(frames, &cfg(9, 2, false)), Vec::<u32>::new());
}

#[test]
fn stride_keeps_even_positions_of_the_post_skip_sequence() {
    let frames: Vec<u32> = (0..8).collect();
    // post-skip sequence is 1..8; its even positions hold 1, 3, 5, 7.
    assert_eq!(select_frames(frames, &cfg(1, 10, true)), vec![1, 3, 5, 7]);
    let frames: Vec<u32> = (0..8).collect();
    assert_eq!(select_frames(frames, &cfg(1, 2, true)), vec![1, 3]);
}

#[test]
fn blank_selection_keeps_every_frame() {
    let c = ImageSelectionConfig::blank();
    assert_eq!(c.skip, 0);
    assert_eq!(c.take, usize::MAX);
    assert!(!c.skip_alternating);
    let frames: Vec<u32> = (0..5).collect();
    assert_eq!(select_frames(frames, &c), vec![0, 1, 2, 3, 4]);
}

#[test]
fn named_frames_skip_one_take_two() {
    // Four input frames named 0.png .. 3.png with skip 1 and take 2 leave
    // the frames at original positions 1 and 2.
    let frames: Vec<String> = vec!["0.png", "1.png", "2.png", "3.png"]
        .into_iter()
        .map(str::to_string)
        .collect();
    let picked = select_frames(frames, &cfg(1, 2, false));
    assert_eq!(picked, vec!["1.png".to_string(), "2.png".to_string()]);
}

#[test]
fn selection_config_parses_from_text() {
    let c = ImageSelectionConfig::from_strings("1", "2", "1").unwrap();
    assert_eq!((c.skip, c.take, c.skip_alternating), (1, 2, true));
    let c = ImageSelectionConfig::from_strings("+3", "4", "0").unwrap();
    assert_eq!((c.skip, c.take, c.skip_alternating), (3, 4, false));
    // the stride flag is on exactly when its value is 1
    let c = ImageSelectionConfig::from_strings("0", "0", "2").unwrap();
    assert!(!c.skip_alternating);
    assert!(ImageSelectionConfig::from_strings("x", "2", "1").is_none());
    assert!(ImageSelectionConfig::from_strings("1", "", "1").is_none());
    assert!(ImageSelectionConfig::from_strings("1", "2", "maybe").is_none());
}
