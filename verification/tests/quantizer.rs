use img2pixel::kmeans::{
    dither_kmeans, quant_colors_mean, quant_colors_variance, quant_compute_kmeans, quant_distance,
    quant_nearest_color_idx, variance_delta_small, weight_divisor, Variance,
};
use img2pixel::{Color, DitherMode, Sprite};

fn gray(v: u8) -> Color {
    Color::new(v, v, v, 255)
}

#[test]
fn redmean_distance_self_is_zero() {
    let samples = [
        Color::new(0, 0, 0, 255),
        Color::new(255, 255, 255, 0),
        Color::new(12, 200, 77, 128),
    ];
    for c in samples.iter() {
        assert_eq!(quant_distance(c, c), 0);
    }
}

#[test]
fn redmean_distance_symmetric() {
    let a = Color::new(10, 20, 30, 255);
    let b = Color::new(200, 100, 0, 255);
    assert_eq!(quant_distance(&a, &b), quant_distance(&b, &a));
}

#[test]
fn redmean_distance_exact_value() {
    // dr = -255, dg = 0, db = 0, mean-red term (0+255)*dr^2:
    // 512*2*65025 + 255*65025 = 66585600 + 16581375.
    let a = Color::new(0, 0, 0, 255);
    let b = Color::new(255, 0, 0, 255);
    assert_eq!(quant_distance(&a, &b), 66585600 + 16581375);
}

#[test]
fn nearest_color_prefers_first_on_ties() {
    let list = vec![gray(10), gray(10), gray(200)];
    assert_eq!(quant_nearest_color_idx(gray(10), &list), 0);
    assert_eq!(quant_nearest_color_idx(gray(200), &list), 2);
    assert_eq!(quant_nearest_color_idx(gray(190), &list), 2);
}

#[test]
fn colors_mean_plain() {
    let list = vec![gray(10), gray(20)];
    let m = quant_colors_mean(&list, Color::new(0, 0, 0, 0), 0);
    assert_eq!(m, Color::new(15, 15, 15, 0));
}

#[test]
fn colors_mean_empty_is_transparent() {
    let list: Vec<Color> = Vec::new();
    let m = quant_colors_mean(&list, Color::new(9, 9, 9, 9), 0);
    assert_eq!(m, Color::new(0, 0, 0, 0));
}

#[test]
fn colors_mean_pulled_toward_seed() {
    // Four members of 128 and one seed share of 255: (512 + 255) / 5 = 153.
    let list = vec![gray(128), gray(128), gray(128), gray(128)];
    let m = quant_colors_mean(&list, Color::new(255, 255, 255, 255), 4);
    assert_eq!(m, Color::new(153, 153, 153, 0));
}

#[test]
fn variance_of_uniform_cluster_is_zero() {
    let list = vec![gray(77), gray(77), gray(77)];
    let v = quant_colors_variance(&list);
    assert_eq!(v.sum, 0);
    assert_eq!(v.count, 3);
}

#[test]
fn variance_delta_threshold() {
    // 1.0 against 0.0 is far above 5e-5; 0.0 against 0.0 is below it.
    let unit = Variance { sum: 299635200, count: 1 };
    let zero = Variance { sum: 0, count: 1 };
    assert!(!variance_delta_small(&unit, &zero));
    assert!(variance_delta_small(&zero, &zero));
    // An undefined side never blocks convergence.
    let undefined = Variance { sum: 0, count: 0 };
    assert!(variance_delta_small(&unit, &undefined));
}

#[test]
fn weight_divisor_values() {
    assert_eq!(weight_divisor(0), 0);
    assert_eq!(weight_divisor(1), 2);
    assert_eq!(weight_divisor(2), 4);
    assert_eq!(weight_divisor(5), 32);
}

#[test]
fn seeded_assignment_of_quantized_pixels_is_identity() {
    // Every pixel already carries a palette color, so each keeps it.
    let palette = vec![Color::new(0, 0, 0, 255), Color::new(255, 255, 255, 255)];
    let data = Sprite {
        width: 2,
        height: 1,
        data: vec![Color::new(255, 255, 255, 255), Color::new(0, 0, 0, 255)],
    };
    let assign = quant_compute_kmeans(&palette, 2, &data, true);
    assert_eq!(assign, vec![1, 0]);
}

#[test]
fn scenario_uniform_gray_collapses_to_one_entry() {
    // Palette black/white, a 2x2 uniform mid-gray sprite, seeded clustering
    // with palette weight 2: all four pixels land in one cluster and leave
    // as the same single palette entry.
    let palette = vec![Color::new(0, 0, 0, 255), Color::new(255, 255, 255, 255)];
    let input = vec![gray(128), gray(128), gray(128), gray(128)];
    let mut output = Sprite { width: 2, height: 2, data: vec![Color::new(0, 0, 0, 0); 4] };
    dither_kmeans(DitherMode::NoDither, 64, 128, &palette, 2, &input, &mut output, 2, 2);
    let first = output.data[0];
    for c in output.data.iter() {
        assert_eq!(*c, first);
    }
    let white = Color::new(255, 255, 255, 255);
    let black = Color::new(0, 0, 0, 255);
    assert!(first == white || first == black);
    // Mid-gray is nearer to white under the redmean metric.
    assert_eq!(first, white);
}

#[test]
fn kmeans_fixed_point_on_quantized_sprite() {
    let palette = vec![Color::new(0, 0, 0, 255), Color::new(255, 255, 255, 255)];
    let input = vec![gray(128), gray(40), gray(230), Color::new(0, 0, 0, 0)];
    let mut first = Sprite { width: 2, height: 2, data: vec![Color::new(0, 0, 0, 0); 4] };
    dither_kmeans(DitherMode::NoDither, 64, 128, &palette, 2, &input, &mut first, 2, 2);
    let mut second = Sprite { width: 2, height: 2, data: vec![Color::new(0, 0, 0, 0); 4] };
    dither_kmeans(
        DitherMode::NoDither,
        64,
        128,
        &palette,
        2,
        &first.data,
        &mut second,
        2,
        2,
    );
    assert_eq!(first.data, second.data);
}

#[test]
fn transparent_pixels_skip_clustering() {
    let palette = vec![Color::new(10, 10, 10, 255)];
    let input = vec![Color::new(200, 0, 0, 10), Color::new(200, 0, 0, 200)];
    let mut output = Sprite { width: 2, height: 1, data: vec![Color::new(0, 0, 0, 0); 2] };
    dither_kmeans(DitherMode::NoDither, 64, 128, &palette, 2, &input, &mut output, 2, 1);
    assert_eq!(output.data[0], Color::new(0, 0, 0, 0));
    assert_eq!(output.data[1], Color::new(10, 10, 10, 255));
}

#[test]
fn free_mode_assignments_stay_in_range() {
    let palette = vec![Color::new(0, 0, 0, 255), Color::new(255, 255, 255, 255)];
    let data = Sprite {
        width: 2,
        height: 2,
        data: vec![gray(3), gray(250), gray(127), gray(129)],
    };
    let assign = quant_compute_kmeans(&palette, 2, &data, false);
    assert_eq!(assign.len(), 4);
    for a in assign.iter() {
        assert!(*a < palette.len());
    }
}
