use dither::diffusion::{atkinson_dither, floyd_steinberg_dither};
use dither::dispatch::{dither, select_algorithm, Algorithm};
use dither::grid::Grid;
use dither::pointwise::{ordered_dither, threshold_dither, DEFAULT_THRESHOLD};

fn grid(width: u32, height: u32, pixels: &[u8]) -> Grid {
    Grid::from_raw(width, height, pixels.to_vec()).expect("sample count matches dimensions")
}

fn is_black_and_white(g: &Grid) -> bool {
    g.pixels().iter().all(|&v| v == 0 || v == 255)
}

const ALL: [Algorithm; 4] = [
    Algorithm::FloydSteinberg,
    Algorithm::Ordered,
    Algorithm::Atkinson,
    Algorithm::Threshold,
];

#[test]
fn from_raw_rejects_wrong_sample_count() {
    assert!(Grid::from_raw(2, 2, vec![0, 1, 2]).is_none());
    assert!(Grid::from_raw(2, 2, vec![0, 1, 2, 3, 4]).is_none());
    let g = Grid::from_raw(3, 2, vec![1, 2, 3, 4, 5, 6]).unwrap();
    assert_eq!(g.width(), 3);
    assert_eq!(g.height(), 2);
    assert_eq!(g.get(0, 1), 4);
    assert_eq!(g.get(2, 0), 3);
    assert_eq!(g.into_raw(), vec![1, 2, 3, 4, 5, 6]);
}

#[test]
fn filled_grid_holds_value() {
    let g = Grid::filled(3, 2, 9);
    assert_eq!(g.pixels(), &vec![9u8; 6]);
    let empty = Grid::filled(0, 5, 9);
    assert!(empty.pixels().is_empty());
}

#[test]
fn every_routine_keeps_shape_and_binarises() {
    let pixels: Vec<u8> = (0..35u32).map(|i| (i * 37 % 256) as u8).collect();
    let g = grid(7, 5, &pixels);
    for alg in ALL {
        let r = dither(alg, &g);
        assert_eq!(r.width(), 7);
        assert_eq!(r.height(), 5);
        assert_eq!(r.pixels().len(), 35);
        assert!(is_black_and_white(&r));
    }
}

#[test]
fn threshold_is_strict() {
    let g = grid(3, 1, &[127, 128, 129]);
    let r = threshold_dither(&g, 128);
    assert_eq!(r.pixels(), &vec![0, 0, 255]);
    let r = threshold_dither(&grid(2, 1, &[0, 255]), 255);
    assert_eq!(r.pixels(), &vec![0, 0]);
    let r = threshold_dither(&grid(2, 1, &[0, 1]), 0);
    assert_eq!(r.pixels(), &vec![0, 255]);
}

#[test]
fn ordered_follows_bayer_matrix() {
    let g = Grid::filled(4, 4, 128);
    let r = ordered_dither(&g);
    assert_eq!(
        r.pixels(),
        &vec![255, 0, 255, 0, 0, 255, 0, 255, 255, 0, 255, 0, 0, 255, 0, 255]
    );
}

#[test]
fn ordered_tiles_matrix() {
    let r = ordered_dither(&Grid::filled(5, 5, 100));
    // Row 0 thresholds 15 135 45 165 15; row 4 repeats row 0.
    assert_eq!(&r.pixels()[0..5], &[255, 0, 255, 0, 255]);
    assert_eq!(&r.pixels()[20..25], &[255, 0, 255, 0, 255]);
    // Row 1 thresholds 195 75 225 105 195.
    assert_eq!(&r.pixels()[5..10], &[0, 255, 0, 0, 0]);
}

#[test]
fn ordered_ignores_neighbours() {
    let a = grid(3, 1, &[0, 200, 0]);
    let b = grid(3, 1, &[255, 200, 255]);
    assert_eq!(ordered_dither(&a).get(1, 0), ordered_dither(&b).get(1, 0));
}

#[test]
fn floyd_steinberg_fixture() {
    let g = grid(2, 2, &[100, 150, 200, 50]);
    let r = floyd_steinberg_dither(&g);
    assert_eq!(r.pixels(), &vec![0, 255, 255, 0]);
}

#[test]
fn floyd_steinberg_uniform_127_is_reproducible() {
    let g = Grid::filled(2, 2, 127);
    let first = floyd_steinberg_dither(&g);
    let second = floyd_steinberg_dither(&g);
    assert_eq!(first.pixels(), &vec![0, 255, 255, 0]);
    assert_eq!(first.pixels(), second.pixels());
    let big = Grid::filled(9, 6, 127);
    assert_eq!(
        floyd_steinberg_dither(&big).into_raw(),
        floyd_steinberg_dither(&big).into_raw()
    );
}

#[test]
fn floyd_steinberg_clamps_diffused_values() {
    assert_eq!(floyd_steinberg_dither(&grid(2, 1, &[127, 255])).into_raw(), vec![0, 255]);
    assert_eq!(floyd_steinberg_dither(&grid(2, 1, &[128, 0])).into_raw(), vec![255, 0]);
}

#[test]
fn floyd_steinberg_truncates_fractions() {
    // 84 + 100 * 7/16 = 127.75 is truncated to 127, below the midpoint.
    assert_eq!(floyd_steinberg_dither(&grid(2, 1, &[100, 84])).into_raw(), vec![0, 0]);
    assert_eq!(floyd_steinberg_dither(&grid(2, 1, &[100, 85])).into_raw(), vec![0, 255]);
}

#[test]
fn atkinson_fixture_row() {
    let r = atkinson_dither(&grid(4, 1, &[200, 100, 100, 100]));
    assert_eq!(r.into_raw(), vec![255, 0, 0, 0]);
}

#[test]
fn atkinson_error_rounds_toward_zero() {
    // (200 - 255) / 8 is -6 toward zero, not -7: 134 - 6 = 128 stays white.
    assert_eq!(atkinson_dither(&grid(2, 1, &[200, 134])).into_raw(), vec![255, 255]);
    assert_eq!(atkinson_dither(&grid(2, 1, &[200, 133])).into_raw(), vec![255, 0]);
    // (100 - 0) / 8 = 12 reaches two to the right.
    assert_eq!(atkinson_dither(&grid(3, 1, &[100, 255, 116])).into_raw(), vec![0, 255, 255]);
    assert_eq!(atkinson_dither(&grid(3, 1, &[100, 255, 115])).into_raw(), vec![0, 255, 0]);
}

#[test]
fn atkinson_reaches_two_rows_down() {
    // The error 12 of the top sample lands on the bottom one, two rows down.
    assert_eq!(atkinson_dither(&grid(1, 3, &[100, 255, 116])).into_raw(), vec![0, 255, 255]);
    assert_eq!(atkinson_dither(&grid(1, 3, &[100, 255, 115])).into_raw(), vec![0, 255, 0]);
}

#[test]
fn atkinson_square_fixture() {
    let r = atkinson_dither(&grid(2, 2, &[100, 150, 200, 50]));
    assert_eq!(r.into_raw(), vec![0, 255, 255, 0]);
}

#[test]
fn names_select_routines() {
    assert_eq!(Algorithm::from_name("floyd-steinberg"), Algorithm::FloydSteinberg);
    assert_eq!(Algorithm::from_name("ordered"), Algorithm::Ordered);
    assert_eq!(Algorithm::from_name("atkinson"), Algorithm::Atkinson);
    assert_eq!(Algorithm::from_name("threshold"), Algorithm::Threshold);
    assert_eq!(Algorithm::from_name("Ordered"), Algorithm::Threshold);
    assert_eq!(Algorithm::from_name(""), Algorithm::Threshold);
    assert_eq!(Algorithm::from_name("atkinsons"), Algorithm::Threshold);
}

#[test]
fn unknown_name_falls_back_to_threshold() {
    let pixels: Vec<u8> = (0..20u32).map(|i| (i * 13) as u8).collect();
    let expected = threshold_dither(&grid(5, 4, &pixels), 128).into_raw();
    let r = select_algorithm("nonexistent", grid(5, 4, &pixels));
    assert_eq!(r.into_raw(), expected);
    assert_eq!(DEFAULT_THRESHOLD, 128);
}

#[test]
fn select_algorithm_dispatches() {
    let pixels = [100, 150, 200, 50];
    let fs = select_algorithm("floyd-steinberg", grid(2, 2, &pixels));
    assert_eq!(fs.into_raw(), floyd_steinberg_dither(&grid(2, 2, &pixels)).into_raw());
    let at = select_algorithm("atkinson", grid(2, 2, &pixels));
    assert_eq!(at.into_raw(), atkinson_dither(&grid(2, 2, &pixels)).into_raw());
    let od = select_algorithm("ordered", grid(2, 2, &pixels));
    assert_eq!(od.into_raw(), vec![255, 255, 255, 0]);
}

#[test]
fn binary_images_are_fixed_points() {
    let pixels = [0, 255, 255, 0, 0, 0, 255, 255, 255, 0, 255, 0];
    let g = grid(4, 3, &pixels);
    assert_eq!(ordered_dither(&g).into_raw(), pixels.to_vec());
    assert_eq!(threshold_dither(&g, 128).into_raw(), pixels.to_vec());
    let once = ordered_dither(&grid(4, 3, &[10, 90, 130, 200, 60, 70, 80, 250, 1, 2, 3, 4]));
    let twice = ordered_dither(&once);
    assert_eq!(once.pixels(), twice.pixels());
}

#[test]
fn single_pixel_grids() {
    for v in [0u8, 127, 128, 255] {
        let g = grid(1, 1, &[v]);
        let expected = if v < 128 { 0 } else { 255 };
        assert_eq!(floyd_steinberg_dither(&g).into_raw(), vec![expected]);
        assert_eq!(atkinson_dither(&g).into_raw(), vec![expected]);
        assert_eq!(ordered_dither(&g).into_raw(), vec![if v > 15 { 255 } else { 0 }]);
        assert_eq!(threshold_dither(&g, 128).into_raw(), vec![if v > 128 { 255 } else { 0 }]);
    }
}

#[test]
fn empty_grids() {
    for alg in ALL {
        let r = dither(alg, &Grid::filled(0, 3, 77));
        assert_eq!(r.width(), 0);
        assert_eq!(r.height(), 3);
        assert!(r.pixels().is_empty());
    }
}
