use img2pixel::dither::{
    color_dist2, color_to_rgb, color_to_ycc, color_to_yiq, color_to_yuv, dither_image,
    dither_none_apply, dither_threshold_apply, ordered_matrix,
};
use img2pixel::sampling::{
    sample_bicubic, sample_ceil, sample_floor, sample_image, sample_linear, sample_round,
};
use img2pixel::{Color, DistanceMode, DitherMode, SampleMode, Sprite};

fn gray(v: u8) -> Color {
    Color::new(v, v, v, 255)
}

fn sprite_3x3() -> Sprite {
    let mut data: Vec<Color> = Vec::new();
    for i in 0..9u8 {
        data.push(Color::new(i * 20, 255 - i * 20, i, 255));
    }
    Sprite { width: 3, height: 3, data }
}

#[test]
fn bayer2x2_perturbs_uniform_gray_into_four_values() {
    // The 2x2 Bayer matrix [0, 1/2, 3/4, 1/4] at full strength shifts a
    // mid-gray by 255 * (t - 1/2): 0.5, 128, 191.75 and 64.25 before
    // truncation.
    let input = vec![gray(128); 4];
    let matrix = vec![0u8, 2, 3, 1];
    let out = dither_threshold_apply(&input, 2, &matrix, 2, 1000, 128);
    assert_eq!(out[0], gray(0));
    assert_eq!(out[1], gray(128));
    assert_eq!(out[2], gray(191));
    assert_eq!(out[3], gray(64));
}

#[test]
fn ordered_dither_is_deterministic() {
    let input = vec![gray(128), gray(17), Color::new(1, 2, 3, 255), gray(254)];
    let (matrix, side) = ordered_matrix(DitherMode::Bayer8x8);
    let a = dither_threshold_apply(&input, 2, &matrix, side, 700, 10);
    let b = dither_threshold_apply(&input, 2, &matrix, side, 700, 10);
    assert_eq!(a, b);
}

#[test]
fn dither_gates_transparency_and_forces_opaque() {
    let input = vec![Color::new(50, 60, 70, 100), Color::new(50, 60, 70, 200)];
    let out = dither_none_apply(&input, 128);
    assert_eq!(out[0], Color::new(0, 0, 0, 0));
    assert_eq!(out[1], Color::new(50, 60, 70, 255));
}

#[test]
fn zero_amount_ordered_dither_keeps_channels() {
    let input = vec![gray(99); 4];
    let matrix = vec![0u8, 2, 3, 1];
    let out = dither_threshold_apply(&input, 2, &matrix, 2, 0, 0);
    for c in out.iter() {
        assert_eq!(*c, gray(99));
    }
}

#[test]
fn direct_rgb_snaps_to_exact_palette_member() {
    let palette = vec![Color::new(0, 0, 0, 255), Color::new(200, 200, 200, 255)];
    let input = vec![gray(30), gray(180), Color::new(9, 9, 9, 3)];
    let mut output = Sprite { width: 3, height: 1, data: vec![Color::new(0, 0, 0, 0); 3] };
    dither_image(
        DitherMode::NoDither,
        DistanceMode::RGB,
        0,
        128,
        &palette,
        2,
        &input,
        &mut output,
        3,
        1,
    );
    assert_eq!(output.data[0], Color::new(0, 0, 0, 255));
    assert_eq!(output.data[1], Color::new(200, 200, 200, 255));
    // Below the alpha threshold: cleared, not quantized.
    assert_eq!(output.data[2], Color::new(0, 0, 0, 0));
}

#[test]
fn direct_modes_break_ties_to_lowest_index() {
    let palette = vec![gray(100), gray(100), gray(0)];
    let input = vec![gray(100)];
    for mode in [DistanceMode::RGB, DistanceMode::YCC, DistanceMode::YIQ, DistanceMode::YUV] {
        let mut output = Sprite { width: 1, height: 1, data: vec![Color::new(0, 0, 0, 0); 1] };
        dither_image(
            DitherMode::NoDither,
            mode,
            0,
            128,
            &palette,
            2,
            &input,
            &mut output,
            1,
            1,
        );
        assert_eq!(output.data[0], gray(100));
    }
}

#[test]
fn ycc_components_exact_for_pure_red() {
    let c = Color::new(255, 0, 0, 255);
    let comp = color_to_ycc(&c);
    assert_eq!(comp.c0, 29900 * 255);
    assert_eq!(comp.c1, -16874 * 255);
    assert_eq!(comp.c2, 50000 * 255);
}

#[test]
fn yiq_and_yuv_components_exact_for_white() {
    let c = Color::new(255, 255, 255, 255);
    let yiq = color_to_yiq(&c);
    assert_eq!(yiq.c0, (299900 + 587000 + 114000) * 255);
    assert_eq!(yiq.c1, (595716 - 274453 - 321264) * 255);
    let yuv = color_to_yuv(&c);
    assert_eq!(yuv.c0, 1000 * (299900 + 587000 + 114000) * 255);
    assert_eq!(yuv.c1, 492 * (1000000 * 255 - (299900 + 587000 + 114000) * 255));
}

#[test]
fn squared_euclidean_sanity() {
    let a = color_to_rgb(&Color::new(1, 2, 3, 255));
    let b = color_to_rgb(&Color::new(4, 6, 3, 255));
    assert_eq!(color_dist2(&a, &a), 0);
    assert_eq!(color_dist2(&a, &b), color_dist2(&b, &a));
    assert_eq!(color_dist2(&a, &b), 9 + 16);
}

#[test]
fn ceiling_resample_to_same_size_is_identity() {
    let s = sprite_3x3();
    let out = sample_ceil(&s, 3, 3, 0, 0);
    assert_eq!(out, s.data);
}

#[test]
fn round_resample_shifts_late_cells_down() {
    // At 4 -> 4 the coordinate of cell 3 is 3 * 3/4 = 2.25, which rounds
    // to 2: the last column repeats its left neighbor.
    let mut data: Vec<Color> = Vec::new();
    for i in 0..16u8 {
        data.push(gray(i));
    }
    let s = Sprite { width: 4, height: 4, data };
    let out = sample_round(&s, 4, 4, 0, 0);
    assert_eq!(out[3], out[2]);
    assert_eq!(out[0], gray(0));
}

#[test]
fn floor_resample_shifts_cells_down() {
    // At 2 -> 2 the coordinate of cell 1 is 1/2, which floors to 0.
    let s = Sprite {
        width: 2,
        height: 2,
        data: vec![gray(10), gray(20), gray(30), gray(40)],
    };
    let out = sample_floor(&s, 2, 2, 0, 0);
    assert_eq!(out[0], gray(10));
    assert_eq!(out[1], gray(10));
    assert_eq!(out[2], gray(10));
    assert_eq!(out[3], gray(10));
}

#[test]
fn linear_resample_blends_neighbors() {
    // 2x1 -> 2x1: cell 1 sits at coordinate 1/2, blending 100 and 200
    // into 150; alpha blends the same way.
    let s = Sprite {
        width: 2,
        height: 1,
        data: vec![Color::new(100, 0, 0, 100), Color::new(200, 0, 0, 200)],
    };
    let out = sample_linear(&s, 2, 1, 0, 0);
    assert_eq!(out[0], Color::new(100, 0, 0, 100));
    assert_eq!(out[1], Color::new(150, 0, 0, 150));
}

#[test]
fn linear_resample_fringes_transparent_at_border() {
    // 1x1 -> 2x2 with a positive offset: the off-raster neighbor is the
    // transparent sentinel, dimming the blend.
    let s = Sprite { width: 1, height: 1, data: vec![Color::new(200, 0, 0, 200)] };
    let out = sample_linear(&s, 1, 1, 50, 50);
    // Coordinate 0.5 * 0 = 0: width 1 keeps everything at the sole pixel.
    assert_eq!(out[0], Color::new(200, 0, 0, 200));
}

#[test]
fn bicubic_resample_of_single_pixel_is_identity() {
    let s = Sprite { width: 1, height: 1, data: vec![Color::new(12, 34, 56, 255)] };
    let out = sample_bicubic(&s, 1, 1, 0, 0);
    assert_eq!(out[0], Color::new(12, 34, 56, 255));
}

#[test]
fn bicubic_constant_image_stays_constant() {
    // A cell whose 4x4 window lies inside a constant raster reproduces
    // the constant: the Catmull-Rom weights sum to one.
    let s = Sprite { width: 8, height: 8, data: vec![gray(77); 64] };
    let out = sample_bicubic(&s, 4, 4, 0, 0);
    assert_eq!(out[4 * 1 + 1], gray(77));
}

#[test]
fn sample_image_dispatches_by_mode() {
    let s = sprite_3x3();
    assert_eq!(sample_image(&s, SampleMode::Ceiling, 3, 3, 0, 0), s.data);
    assert_eq!(
        sample_image(&s, SampleMode::Round, 2, 2, 0, 0),
        sample_round(&s, 2, 2, 0, 0)
    );
    assert_eq!(
        sample_image(&s, SampleMode::Floor, 2, 2, 0, 0),
        sample_floor(&s, 2, 2, 0, 0)
    );
}

#[test]
fn fully_transparent_pixel_maps_to_first_entry_under_zero_threshold() {
    // With a zero alpha threshold a fully transparent pixel survives the
    // gate and maps unconditionally to palette entry 0, bypassing the
    // distance search.
    let palette = vec![gray(250), gray(0)];
    let input = vec![Color::new(0, 0, 0, 0)];
    let mut output = Sprite { width: 1, height: 1, data: vec![gray(9); 1] };
    dither_image(
        DitherMode::NoDither,
        DistanceMode::RGB,
        0,
        0,
        &palette,
        2,
        &input,
        &mut output,
        1,
        1,
    );
    assert_eq!(output.data[0], gray(250));
}

#[test]
fn threshold_matrix_wraps_by_grid_position() {
    // The matrix is indexed by (y mod side, x mod side): in a 4x4 buffer
    // under the 2x2 matrix, cell (2, 2) uses the same entry as (0, 0).
    let input = vec![gray(128); 16];
    let matrix = vec![0u8, 2, 3, 1];
    let out = dither_threshold_apply(&input, 4, &matrix, 2, 1000, 128);
    assert_eq!(out[2 * 4 + 2], out[0]);
    assert_eq!(out[2 * 4 + 3], out[1]);
    assert_eq!(out[3 * 4 + 2], out[1 * 4]);
}

#[test]
fn round_resample_offset_shifts_source() {
    // A full-pixel offset (100 hundredths) moves every lookup one output
    // cell to the right: cell 0 reads what cell 1 read without it.
    let s = Sprite {
        width: 2,
        height: 1,
        data: vec![gray(10), gray(200)],
    };
    let plain = sample_round(&s, 2, 1, 0, 0);
    let shifted = sample_round(&s, 2, 1, 100, 0);
    assert_eq!(shifted[0], plain[1]);
}
