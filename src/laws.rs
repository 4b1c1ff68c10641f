//! Properties that hold of every input, stated over the routines' models and
//! proved.
use vstd::prelude::*;
use crate::grid::{GridView, all_binary, index_of, is_binary, lemma_index_in_grid};
use crate::pointwise::{
    DEFAULT_THRESHOLD, bayer_at, bayer_matrix, ordered_sample, ordered_spec, threshold_sample,
    threshold_spec,
};
use crate::diffusion::{
    atkinson_error, atkinson_share, atkinson_step, lemma_atkinson_scan, lemma_fs_scan,
    lemma_raster,
};
use crate::dispatch::{Algorithm, algorithm_named, dither_spec};

verus! {

/// Row `y`, column `x` of a grid of width `w` sits at index `y * w + x`, and
/// that index gives the column and row back.
proof fn lemma_coordinates(w: int, h: int, x: int, y: int)
    requires
        0 <= x < w,
        0 <= y < h,
    ensures
        0 <= index_of(w, x, y) < w * h,
        index_of(w, x, y) % w == x,
        index_of(w, x, y) / w == y,
{
    lemma_index_in_grid(w, h, x, y);
    vstd::arithmetic::div_mod::lemma_fundamental_div_mod_converse(index_of(w, x, y), w, y, x);
}

/// Every entry of the Bayer matrix lies strictly between 0 and 255.
proof fn lemma_bayer_bounds(x: int, y: int)
    ensures
        0 < bayer_at(x, y) < 255,
{
    let m = bayer_matrix();
    let r = y % 4;
    let c = x % 4;
    assert(0 <= r < 4 && 0 <= c < 4);
    assert(m[0] == seq![15u8, 135u8, 45u8, 165u8]);
    assert(m[1] == seq![195u8, 75u8, 225u8, 105u8]);
    assert(m[2] == seq![60u8, 180u8, 30u8, 150u8]);
    assert(m[3] == seq![240u8, 120u8, 210u8, 90u8]);
    assert(0 < m[r][c] < 255);
}

/// Every routine returns a grid of the input's dimensions whose samples are
/// all 0 or 255.
pub proof fn law_binary_output(alg: Algorithm, g: GridView)
    requires
        g.wf(),
    ensures
        dither_spec(alg, g).wf(),
        dither_spec(alg, g).same_shape(g),
        all_binary(dither_spec(alg, g).pixels),
{
    let n = g.pixels.len();
    match alg {
        Algorithm::FloydSteinberg => {
            lemma_fs_scan(g.pixels, g.width as int, g.height as int, n);
        },
        Algorithm::Atkinson => {
            lemma_atkinson_scan(g.pixels, g.width as int, g.height as int, n);
        },
        Algorithm::Ordered => {
            let p = ordered_spec(g).pixels;
            assert forall|i: int| 0 <= i < p.len() implies #[trigger] is_binary(p[i]) by {}
        },
        Algorithm::Threshold => {
            let p = threshold_spec(g, DEFAULT_THRESHOLD).pixels;
            assert forall|i: int| 0 <= i < p.len() implies #[trigger] is_binary(p[i]) by {}
        },
    }
}

/// Thresholding makes a sample white exactly when it is strictly greater than
/// the threshold; a sample equal to it turns black.
pub proof fn law_threshold_strict(g: GridView, t: u8, x: int, y: int)
    requires
        g.wf(),
        g.contains(x, y),
    ensures
        threshold_spec(g, t).at(x, y) == 255 <==> g.at(x, y) > t,
        threshold_spec(g, t).at(x, y) == 0 <==> g.at(x, y) <= t,
{
    lemma_coordinates(g.width as int, g.height as int, x, y);
}

/// Ordered dithering decides each sample from that sample and its column and
/// row modulo 4 alone: two positions, of any two grids, that agree on those
/// three come out the same.
pub proof fn law_ordered_is_local(
    g1: GridView,
    x1: int,
    y1: int,
    g2: GridView,
    x2: int,
    y2: int,
)
    requires
        g1.wf(),
        g2.wf(),
        g1.contains(x1, y1),
        g2.contains(x2, y2),
        g1.at(x1, y1) == g2.at(x2, y2),
        x1 % 4 == x2 % 4,
        y1 % 4 == y2 % 4,
    ensures
        ordered_spec(g1).at(x1, y1) == ordered_sample(g1.at(x1, y1), x1 % 4, y1 % 4),
        ordered_spec(g1).at(x1, y1) == ordered_spec(g2).at(x2, y2),
{
    lemma_coordinates(g1.width as int, g1.height as int, x1, y1);
    lemma_coordinates(g2.width as int, g2.height as int, x2, y2);
    assert(bayer_at(x1 % 4, y1 % 4) == bayer_at(x1, y1));
}

/// In an Atkinson step every neighbour in the grid receives, whole, the error
/// S − N of the visited sample divided by eight toward zero, the sum clamped
/// to [0, 255].
pub proof fn law_atkinson_error_share(
    buf: Seq<u8>,
    w: int,
    h: int,
    i: int,
    dx: int,
    dy: int,
)
    requires
        buf.len() == w * h,
        0 <= w,
        0 <= h,
        0 <= i < buf.len(),
        (dx, dy) == (1int, 0int) || (dx, dy) == (2int, 0int) || (dx, dy) == (-1int, 1int)
            || (dx, dy) == (0int, 1int) || (dx, dy) == (1int, 1int) || (dx, dy) == (0int, 2int),
        0 <= i % w + dx < w,
        i / w + dy < h,
    ensures
        atkinson_step(buf, w, h, i)[i + dy * w + dx] == atkinson_share(
            buf[i + dy * w + dx],
            atkinson_error(buf[i]),
        ),
{
    lemma_raster(i, w, h);
    assert(dy == 0 ==> dy * w == 0) by (nonlinear_arith);
    assert(dy == 1 ==> dy * w == w) by (nonlinear_arith);
    assert(dy == 2 ==> dy * w == 2 * w) by (nonlinear_arith);
}

/// A name that selects none of the three named routines gives the same grid
/// as thresholding at 128.
pub proof fn law_unknown_name_thresholds(name: Seq<char>, g: GridView)
    requires
        name != "floyd-steinberg"@,
        name != "ordered"@,
        name != "atkinson"@,
    ensures
        dither_spec(algorithm_named(name), g) == threshold_spec(g, 128),
{
}

/// On a grid that is already black and white, ordered dithering and
/// thresholding below 255 change nothing; so running either twice is the same
/// as running it once.
pub proof fn law_binary_fixed_point(g: GridView, t: u8)
    requires
        g.wf(),
        all_binary(g.pixels),
        t < 255,
    ensures
        ordered_spec(g) == g,
        threshold_spec(g, t) == g,
        ordered_spec(ordered_spec(g)) == ordered_spec(g),
        threshold_spec(threshold_spec(g, t), t) == threshold_spec(g, t),
{
    let w = g.width as int;
    assert forall|i: int| 0 <= i < g.pixels.len() implies #[trigger] ordered_sample(
        g.pixels[i],
        i % w,
        i / w,
    ) == g.pixels[i] by {
        assert(is_binary(g.pixels[i]));
        lemma_bayer_bounds(i % w, i / w);
    }
    assert forall|i: int| 0 <= i < g.pixels.len() implies #[trigger] threshold_sample(
        g.pixels[i],
        t,
    ) == g.pixels[i] by {
        assert(is_binary(g.pixels[i]));
    }
    assert(ordered_spec(g).pixels =~= g.pixels);
    assert(threshold_spec(g, t).pixels =~= g.pixels);
}

} // verus!
