use img2pixel::hexcolor::{parse_hex_color, HexColorError};
use img2pixel::{
    post_process_image, process_sprite, process_sprite_checked, Color, ConfigError, DistanceMode,
    DitherMode, DitherOptions, I2PState, PreProcessOptions, SampleMode, SampleOptions, Sprite,
    StageCache,
};

fn gray(v: u8) -> Color {
    Color::new(v, v, v, 255)
}

fn base_state(palette: Vec<Color>) -> I2PState {
    let mut s = I2PState::default();
    s.palette = palette;
    s
}

#[test]
fn parse_hex_eight_digits() {
    assert_eq!(parse_hex_color("#11223344"), Ok(Color::new(0x11, 0x22, 0x33, 0x44)));
    assert_eq!(parse_hex_color("a0B0c0FF"), Ok(Color::new(0xa0, 0xb0, 0xc0, 0xff)));
}

#[test]
fn parse_hex_four_digits_scales_by_17() {
    assert_eq!(parse_hex_color("#1234"), Ok(Color::new(17, 34, 51, 68)));
    assert_eq!(parse_hex_color("f00f"), Ok(Color::new(255, 0, 0, 255)));
}

#[test]
fn parse_hex_rejects_bad_length() {
    assert_eq!(parse_hex_color(""), Err(HexColorError::InvalidLength));
    assert_eq!(parse_hex_color("#112233"), Err(HexColorError::InvalidLength));
    assert_eq!(parse_hex_color("#123456789"), Err(HexColorError::InvalidLength));
}

#[test]
fn parse_hex_rejects_bad_digit() {
    assert_eq!(parse_hex_color("#1122334g"), Err(HexColorError::InvalidDigit));
    assert_eq!(parse_hex_color("zzzz"), Err(HexColorError::InvalidDigit));
}

#[test]
fn palette_setter_parses_and_invalidates() {
    let mut s = I2PState::default();
    s.dither_step = StageCache::Clean(Sprite::default());
    let r = s.palette(vec!["#000000FF".to_string(), "#FFFFFFFF".to_string()]);
    assert!(r.is_ok());
    assert_eq!(s.palette, vec![Color::new(0, 0, 0, 255), Color::new(255, 255, 255, 255)]);
    assert!(matches!(s.dither_step, StageCache::Dirty));
}

#[test]
fn palette_setter_keeps_state_on_error() {
    let mut s = I2PState::default();
    s.palette = vec![gray(1)];
    let r = s.palette(vec!["#000000FF".to_string(), "oops".to_string()]);
    assert_eq!(r, Err(HexColorError::InvalidDigit));
    assert_eq!(s.palette, vec![gray(1)]);
}

#[test]
fn setters_invalidate_downstream_caches_only() {
    let mut s = I2PState::default();
    s.sample_step = StageCache::Clean(vec![gray(1)]);
    s.pre_process_step = StageCache::Clean(vec![gray(2)]);
    s.dither_step = StageCache::Clean(Sprite::default());
    s.dither_options(DitherOptions::default());
    assert!(matches!(s.sample_step, StageCache::Clean(_)));
    assert!(matches!(s.pre_process_step, StageCache::Clean(_)));
    assert!(matches!(s.dither_step, StageCache::Dirty));

    s.dither_step = StageCache::Clean(Sprite::default());
    s.pre_process_options(PreProcessOptions::default());
    assert!(matches!(s.sample_step, StageCache::Clean(_)));
    assert!(matches!(s.pre_process_step, StageCache::Dirty));
    assert!(matches!(s.dither_step, StageCache::Dirty));

    s.pre_process_step = StageCache::Clean(vec![gray(2)]);
    s.dither_step = StageCache::Clean(Sprite::default());
    s.sample_options(SampleOptions { sample_mode: SampleMode::Round, offset_x: 0, offset_y: 0 });
    assert!(matches!(s.sample_step, StageCache::Dirty));
    assert!(matches!(s.pre_process_step, StageCache::Dirty));
    assert!(matches!(s.dither_step, StageCache::Dirty));
}

#[test]
fn default_state_values() {
    let s = I2PState::default();
    assert_eq!(s.dither_options.dither_amount, 64);
    assert_eq!(s.dither_options.alpha_threshold, 128);
    assert!(matches!(s.dither_options.pixel_dither_mode, DitherMode::NoDither));
    assert!(matches!(s.dither_options.pixel_distance_mode, DistanceMode::KMeans));
    assert!(matches!(s.sample_options.sample_mode, SampleMode::Round));
    assert_eq!(s.palette_weight, 2);
    assert_eq!(s.pre_process_options.gamma, 100);
    assert_eq!(s.pre_process_options.saturation, 100);
}

#[test]
fn pipeline_quantizes_uniform_gray_scenario() {
    // Scenario: black/white palette, 2x2 mid-gray source, clustering
    // quantizer with palette weight 2 and alpha threshold 128.
    let mut s = base_state(vec![Color::new(0, 0, 0, 255), Color::new(255, 255, 255, 255)]);
    let input = Sprite { width: 2, height: 2, data: vec![gray(128); 4] };
    let mut output = Sprite { width: 2, height: 2, data: vec![Color::new(0, 0, 0, 0); 4] };
    process_sprite(&mut s, &input, &mut output);
    let first = output.data[0];
    for c in output.data.iter() {
        assert_eq!(*c, first);
    }
    assert_eq!(first, Color::new(255, 255, 255, 255));
    assert!(matches!(s.sample_step, StageCache::Clean(_)));
    assert!(matches!(s.dither_step, StageCache::Clean(_)));
}

#[test]
fn pipeline_reuses_dither_cache() {
    let mut s = base_state(vec![gray(0), gray(255)]);
    let input = Sprite { width: 2, height: 2, data: vec![gray(128); 4] };
    let mut output = Sprite { width: 2, height: 2, data: vec![Color::new(0, 0, 0, 0); 4] };
    process_sprite(&mut s, &input, &mut output);
    // Poison the dither cache: the pipeline must now return the poisoned
    // buffer, proving the cache short-circuits the quantizer.
    let poisoned = Sprite { width: 2, height: 2, data: vec![gray(7); 4] };
    s.dither_step = StageCache::Clean(poisoned);
    let mut again = Sprite { width: 2, height: 2, data: vec![Color::new(0, 0, 0, 0); 4] };
    process_sprite(&mut s, &input, &mut again);
    assert_eq!(again.data, vec![gray(7); 4]);
}

#[test]
fn checked_pipeline_rejects_bad_configs() {
    let input = Sprite { width: 2, height: 2, data: vec![gray(128); 4] };

    let mut s = I2PState::default();
    let mut out = Sprite { width: 2, height: 2, data: vec![Color::new(0, 0, 0, 0); 4] };
    assert_eq!(process_sprite_checked(&mut s, &input, &mut out), Err(ConfigError::EmptyPalette));

    let mut s = base_state(vec![gray(0)]);
    let mut zero = Sprite { width: 0, height: 2, data: Vec::new() };
    assert_eq!(
        process_sprite_checked(&mut s, &input, &mut zero),
        Err(ConfigError::BadDimensions)
    );

    let mut s = base_state(vec![gray(0)]);
    s.sample_options.sample_mode = SampleMode::Lanczos;
    let mut out = Sprite { width: 2, height: 2, data: vec![Color::new(0, 0, 0, 0); 4] };
    assert_eq!(
        process_sprite_checked(&mut s, &input, &mut out),
        Err(ConfigError::UnsupportedSampleMode)
    );

    let mut s = base_state(vec![gray(0)]);
    s.dither_options.pixel_distance_mode = DistanceMode::CIE94;
    let mut out = Sprite { width: 2, height: 2, data: vec![Color::new(0, 0, 0, 0); 4] };
    assert_eq!(
        process_sprite_checked(&mut s, &input, &mut out),
        Err(ConfigError::UnsupportedDistanceMode)
    );

    let mut s = base_state(vec![gray(0)]);
    s.dither_options.dither_amount = 1001;
    let mut out = Sprite { width: 2, height: 2, data: vec![Color::new(0, 0, 0, 0); 4] };
    assert_eq!(
        process_sprite_checked(&mut s, &input, &mut out),
        Err(ConfigError::BadDitherAmount)
    );

    let mut s = base_state(vec![gray(0)]);
    s.palette_weight = -1;
    let mut out = Sprite { width: 2, height: 2, data: vec![Color::new(0, 0, 0, 0); 4] };
    assert_eq!(
        process_sprite_checked(&mut s, &input, &mut out),
        Err(ConfigError::BadPaletteWeight)
    );

    let mut s = base_state(vec![gray(0)]);
    s.image_outline = Some(1);
    let mut out = Sprite { width: 2, height: 2, data: vec![Color::new(0, 0, 0, 0); 4] };
    assert_eq!(
        process_sprite_checked(&mut s, &input, &mut out),
        Err(ConfigError::BadPaletteIndex)
    );
}

#[test]
fn checked_pipeline_accepts_sound_config() {
    let mut s = base_state(vec![gray(0), gray(255)]);
    let input = Sprite { width: 2, height: 2, data: vec![gray(128); 4] };
    let mut out = Sprite { width: 2, height: 2, data: vec![Color::new(0, 0, 0, 0); 4] };
    assert_eq!(process_sprite_checked(&mut s, &input, &mut out), Ok(()));
    assert_eq!(out.data.len(), 4);
}

#[test]
fn outline_overlays_edge_pixels() {
    // A single opaque pixel is an edge (its neighbors lie outside), so the
    // outline entry replaces it.
    let palette = vec![gray(1), gray(2)];
    let mut out = Sprite { width: 1, height: 1, data: vec![gray(200)] };
    post_process_image(Some(1), None, &palette, &mut out);
    assert_eq!(out.data[0], gray(2));
}

#[test]
fn inline_yields_to_outline() {
    let palette = vec![gray(1), gray(2)];
    let mut out = Sprite { width: 1, height: 1, data: vec![gray(200)] };
    post_process_image(Some(0), Some(1), &palette, &mut out);
    assert_eq!(out.data[0], gray(1));
}

#[test]
fn post_process_keeps_interior_pixels() {
    // The center of an opaque 3x3 block has no transparent neighbor.
    let palette = vec![gray(9)];
    let mut out = Sprite { width: 3, height: 3, data: vec![gray(50); 9] };
    post_process_image(Some(0), None, &palette, &mut out);
    assert_eq!(out.data[4], gray(50));
    assert_eq!(out.data[0], gray(9));
}

#[test]
fn transparent_pixels_leave_as_transparent_default() {
    // Pixels under the alpha threshold leave the quantized pipeline as the
    // transparent default, whatever the distance mode.
    for mode in [DistanceMode::KMeans, DistanceMode::RGB] {
        let mut s = base_state(vec![gray(0), gray(255)]);
        s.dither_options.pixel_distance_mode = mode;
        let input = Sprite {
            width: 2,
            height: 1,
            data: vec![Color::new(30, 30, 30, 10), gray(210)],
        };
        let mut out = Sprite { width: 2, height: 1, data: vec![gray(9); 2] };
        process_sprite(&mut s, &input, &mut out);
        assert_eq!(out.data[0], Color::new(0, 0, 0, 0));
        assert_eq!(out.data[1].alpha, 255);
        assert!(out.data[1] == gray(0) || out.data[1] == gray(255));
    }
}

#[test]
fn bayer_dither_pipeline_is_deterministic() {
    let mut s1 = base_state(vec![gray(0), gray(255)]);
    s1.dither_options.pixel_dither_mode = DitherMode::Bayer2x2;
    s1.dither_options.dither_amount = 1000;
    let mut s2 = s1.clone();
    let input = Sprite { width: 2, height: 2, data: vec![gray(128); 4] };
    let mut o1 = Sprite { width: 2, height: 2, data: vec![Color::new(0, 0, 0, 0); 4] };
    let mut o2 = Sprite { width: 2, height: 2, data: vec![Color::new(0, 0, 0, 0); 4] };
    process_sprite(&mut s1, &input, &mut o1);
    process_sprite(&mut s2, &input, &mut o2);
    assert_eq!(o1.data, o2.data);
}
