use std::cmp::Ordering;

use sprite_loop::names::{
    compare_paths, number_from_filename, parse_u32, parse_usize, sort_filenames, stem_of,
};
use sprite_loop::sprites::Sprite;

#[test]
fn parse_u32_accepts_plain_decimals() {
    assert_eq!(parse_u32("12"), Some(12));
    assert_eq!(parse_u32("007"), Some(7));
    assert_eq!(parse_u32("0"), Some(0));
    assert_eq!(parse_u32("4294967295"), Some(u32::MAX));
}

#[test]
fn parse_u32_accepts_a_leading_plus() {
    assert_eq!(parse_u32("+3"), Some(3));
    assert_eq!(parse_u32("+"), None);
    assert_eq!(parse_u32("++3"), None);
}

#[test]
fn parse_u32_rejects_bad_input() {
    assert_eq!(parse_u32(""), None);
    assert_eq!(parse_u32("12a"), None);
    assert_eq!(parse_u32("-4"), None);
    assert_eq!(parse_u32("1 2"), None);
    assert_eq!(parse_u32("4294967296"), None);
    assert_eq!(parse_u32("99999999999999999999"), None);
}

#[test]
fn parse_usize_matches_the_same_grammar() {
    assert_eq!(parse_usize("42"), Some(42));
    assert_eq!(parse_usize("+0"), Some(0));
    assert_eq!(parse_usize("four"), None);
    assert_eq!(parse_usize("99999999999999999999999999"), None);
}

#[test]
fn stem_drops_only_the_final_extension() {
    assert_eq!(stem_of("12.png"), "12");
    assert_eq!(stem_of("archive.tar.gz"), "archive.tar");
    assert_eq!(stem_of("noext"), "noext");
    assert_eq!(stem_of(".hidden"), ".hidden");
}

#[test]
fn frame_numbers_come_from_the_stem() {
    assert_eq!(number_from_filename("12.png"), Some(12));
    assert_eq!(number_from_filename("007.png"), Some(7));
    assert_eq!(number_from_filename("42"), Some(42));
    assert_eq!(number_from_filename("frame.png"), None);
    assert_eq!(number_from_filename(".png"), None);
    assert_eq!(number_from_filename("7.tar.gz"), None);
}

#[test]
fn compare_paths_orders_by_frame_number() {
    assert_eq!(compare_paths("2.png", "10.png"), Ordering::Less);
    assert_eq!(compare_paths("10.png", "2.png"), Ordering::Greater);
    assert_eq!(compare_paths("3.png", "03.png"), Ordering::Equal);
    // names without a number sort before numbered ones
    assert_eq!(compare_paths("cover.png", "0.png"), Ordering::Less);
    assert_eq!(compare_paths("a.png", "b.png"), Ordering::Equal);
}

#[test]
fn sort_orders_names_numerically() {
    let names: Vec<String> = vec!["10.png", "2.png", "abc.png", "1.png"]
        .into_iter()
        .map(str::to_string)
        .collect();
    let sorted = sort_filenames(names);
    assert_eq!(
        sorted,
        vec![
            "abc.png".to_string(),
            "1.png".to_string(),
            "2.png".to_string(),
            "10.png".to_string(),
        ]
    );
}

#[test]
fn sort_keeps_every_name() {
    let names: Vec<String> = vec!["5.png", "5.png", "3.png"]
        .into_iter()
        .map(str::to_string)
        .collect();
    let sorted = sort_filenames(names);
    assert_eq!(
        sorted,
        vec!["3.png".to_string(), "5.png".to_string(), "5.png".to_string()]
    );
}

#[test]
fn preview_filename_is_the_last_path_segment() {
    let s = Sprite {
        name: "hero".to_string(),
        preview: "https://example.net/previews/hero.2.png".to_string(),
    };
    assert_eq!(s.preview_filename(), "hero.2.png");
    let local = Sprite { name: "hero".to_string(), preview: "hero.png".to_string() };
    assert_eq!(local.preview_filename(), "hero.png");
    let trailing = Sprite { name: "hero".to_string(), preview: "previews/".to_string() };
    assert_eq!(trailing.preview_filename(), "");
}
