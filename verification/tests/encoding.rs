use image::AnimationDecoder;
use sprite_loop::gif::{write_gif, EncodeError};
use sprite_loop::pipeline::{make_gif, PipelineError};
use sprite_loop::raster::Raster;
use sprite_loop::region::Cropper;
use sprite_loop::select::ImageSelectionConfig;
use sprite_loop::timing::{delay_ms, delays_for, FrameDuration};

fn decode_frames(bytes: &[u8]) -> Vec<image::Frame> {
    let dec = image::codecs::gif::GifDecoder::new(std::io::Cursor::new(bytes)).unwrap();
    dec.into_frames().collect_frames().unwrap()
}

#[test]
fn delays_alternate_by_parity() {
    assert_eq!(delays_for(FrameDuration::Fps60, 4), vec![10, 20, 10, 20]);
    assert_eq!(delays_for(FrameDuration::Fps30, 3), vec![20, 40, 20]);
    assert_eq!(delay_ms(FrameDuration::Fps60, 0), 10);
    assert_eq!(delay_ms(FrameDuration::Fps60, 1), 20);
    assert_eq!(delay_ms(FrameDuration::Fps30, 2), 20);
}

#[test]
fn profile_comes_from_the_configured_rate() {
    assert_eq!(FrameDuration::from_fps(30), FrameDuration::Fps30);
    assert_eq!(FrameDuration::from_fps(60), FrameDuration::Fps60);
    assert_eq!(FrameDuration::from_fps(31), FrameDuration::Fps60);
}

#[test]
fn to_opaque_forces_alpha_and_keeps_colors() {
    let mut r = Raster::new_filled(2, 2, (10, 20, 30, 0));
    r.set_pixel(1, 1, (40, 50, 60, 128));
    let o = r.to_opaque();
    assert_eq!(o.get_rgba(0, 0), (10, 20, 30, 255));
    assert_eq!(o.get_rgba(1, 1), (40, 50, 60, 255));
}

#[test]
fn written_gif_has_the_alternating_delays() {
    let frames = vec![
        Raster::new_filled(8, 8, (255, 0, 0, 255)),
        Raster::new_filled(8, 8, (0, 255, 0, 255)),
    ];
    let bytes = write_gif(frames, FrameDuration::Fps60).unwrap();
    assert_eq!(&bytes[0..6], b"GIF89a");
    let decoded = decode_frames(&bytes);
    assert_eq!(decoded.len(), 2);
    assert_eq!(decoded[0].delay().numer_denom_ms(), (10, 1));
    assert_eq!(decoded[1].delay().numer_denom_ms(), (20, 1));
}

#[test]
fn encoding_twice_is_byte_identical() {
    let make_frames = || {
        vec![
            Raster::new_filled(8, 8, (1, 2, 3, 255)),
            Raster::new_filled(8, 8, (4, 5, 6, 255)),
            Raster::new_filled(8, 8, (7, 8, 9, 255)),
        ]
    };
    let first = write_gif(make_frames(), FrameDuration::Fps30).unwrap();
    let second = write_gif(make_frames(), FrameDuration::Fps30).unwrap();
    assert_eq!(first, second);
}

#[test]
fn oversized_frames_are_refused_by_the_encoder() {
    // 70000 pixels wide does not fit the format's 16-bit size fields.
    let frames = vec![Raster::new_filled(70000, 1, (0, 0, 0, 255))];
    assert_eq!(write_gif(frames, FrameDuration::Fps60), Err(EncodeError::Encoder));
}

#[test]
fn mismatched_dimensions_name_the_first_offender() {
    let frames = vec![
        Raster::new_filled(8, 8, (0, 0, 0, 255)),
        Raster::new_filled(8, 9, (0, 0, 0, 255)),
        Raster::new_filled(8, 8, (0, 0, 0, 255)),
    ];
    assert_eq!(
        write_gif(frames, FrameDuration::Fps60),
        Err(EncodeError::MismatchedDimensions { index: 1 })
    );
}

#[test]
fn loop_pass_selects_resizes_and_times_the_frames() {
    // Four reference-resolution frames; skip 1, take 2, 60 fps-equivalent
    // profile: the artifact holds two frames resized to fit 112 by 112
    // (aspect kept: 112 by 98) with delays 10 ms and 20 ms.
    let frames: Vec<Raster> = (0u8..4)
        .map(|i| Raster::new_filled(256, 224, (i * 40, 0, 0, 255)))
        .collect();
    let config = ImageSelectionConfig::new(1, 2, false);
    let bytes = make_gif(frames, &config, None, 112, 112, FrameDuration::Fps60).unwrap();
    let decoded = decode_frames(&bytes);
    assert_eq!(decoded.len(), 2);
    assert_eq!(decoded[0].buffer().width(), 112);
    assert_eq!(decoded[0].buffer().height(), 98);
    assert_eq!(decoded[0].delay().numer_denom_ms(), (10, 1));
    assert_eq!(decoded[1].delay().numer_denom_ms(), (20, 1));
}

#[test]
fn loop_pass_applies_the_configured_crop() {
    let frames: Vec<Raster> = (0u8..2)
        .map(|i| Raster::new_filled(128, 128, (0, i * 100, 0, 255)))
        .collect();
    let config = ImageSelectionConfig::blank();
    let cropper = Cropper::new(0, 0, 64, 64);
    let bytes =
        make_gif(frames, &config, Some(&cropper), 64, 64, FrameDuration::Fps30).unwrap();
    let decoded = decode_frames(&bytes);
    assert_eq!(decoded.len(), 2);
    assert_eq!(decoded[0].buffer().width(), 64);
    assert_eq!(decoded[0].buffer().height(), 64);
    assert_eq!(decoded[0].delay().numer_denom_ms(), (20, 1));
    assert_eq!(decoded[1].delay().numer_denom_ms(), (40, 1));
}

#[test]
fn loop_pass_rejects_a_crop_outside_the_frame() {
    let frames = vec![Raster::new_filled(32, 32, (0, 0, 0, 255))];
    let config = ImageSelectionConfig::blank();
    let cropper = Cropper::new(16, 16, 32, 32);
    assert_eq!(
        make_gif(frames, &config, Some(&cropper), 16, 16, FrameDuration::Fps60),
        Err(PipelineError::BoundsViolation { index: 0 })
    );
}

#[test]
fn loop_pass_reports_mismatched_frames_after_resize() {
    // A landscape and a portrait frame resize to different shapes inside
    // the same bounds, which the encoder pass rejects by index.
    let frames = vec![
        Raster::new_filled(256, 224, (0, 0, 0, 255)),
        Raster::new_filled(224, 256, (0, 0, 0, 255)),
    ];
    let config = ImageSelectionConfig::blank();
    assert_eq!(
        make_gif(frames, &config, None, 112, 112, FrameDuration::Fps60),
        Err(PipelineError::Encode(EncodeError::MismatchedDimensions {
            index: 1
        }))
    );
}
