//! Dithering routines that look at one sample at a time: a flat threshold
//! and ordered dithering with a 4×4 Bayer matrix.
use vstd::prelude::*;
use crate::grid::{Grid, GridView, all_binary, is_binary};

verus! {

/// The threshold used when none is given.
pub const DEFAULT_THRESHOLD: u8 = 128;

/// A sample after thresholding: white exactly when strictly above `t`.
pub open spec fn threshold_sample(v: u8, t: u8) -> u8 {
    if v > t { 255 } else { 0 }
}

/// The grid that thresholding `g` at `t` yields.
pub open spec fn threshold_spec(g: GridView, t: u8) -> GridView {
    GridView {
        width: g.width,
        height: g.height,
        pixels: Seq::new(g.pixels.len(), |i: int| threshold_sample(g.pixels[i], t)),
    }
}

/// The 4×4 Bayer threshold matrix, row by row.
pub open spec fn bayer_matrix() -> Seq<Seq<u8>> {
    seq![
        seq![15u8, 135u8, 45u8, 165u8],
        seq![195u8, 75u8, 225u8, 105u8],
        seq![60u8, 180u8, 30u8, 150u8],
        seq![240u8, 120u8, 210u8, 90u8],
    ]
}

/// The threshold that applies at column `x`, row `y`: the matrix is tiled.
pub open spec fn bayer_at(x: int, y: int) -> u8 {
    bayer_matrix()[y % 4][x % 4]
}

/// A sample at column `x`, row `y` after ordered dithering.
pub open spec fn ordered_sample(v: u8, x: int, y: int) -> u8 {
    threshold_sample(v, bayer_at(x, y))
}

/// The grid that ordered dithering of `g` yields.
pub open spec fn ordered_spec(g: GridView) -> GridView {
    GridView {
        width: g.width,
        height: g.height,
        pixels: Seq::new(
            g.pixels.len(),
            |i: int| ordered_sample(g.pixels[i], i % (g.width as int), i / (g.width as int)),
        ),
    }
}

/// Looks up the Bayer matrix.
fn bayer_threshold(row: usize, col: usize) -> (r: u8)
    requires
        row < 4,
        col < 4,
    ensures
        r == bayer_matrix()[row as int][col as int],
{
    let table: [[u8; 4]; 4] = [
        [15, 135, 45, 165],
        [195, 75, 225, 105],
        [60, 180, 30, 150],
        [240, 120, 210, 90],
    ];
    let line: [u8; 4] = table[row];
    line[col]
}

/// Sets each sample to 255 when it is strictly above `threshold`, else to 0.
pub fn threshold_dither(img: &Grid, threshold: u8) -> (r: Grid)
    requires
        img.wf(),
    ensures
        r.wf(),
        r@ == threshold_spec(img@, threshold),
        all_binary(r@.pixels),
{
    let src: &Vec<u8> = img.pixels();
    let n: usize = src.len();
    let mut out: Vec<u8> = Vec::with_capacity(n);
    let mut i: usize = 0;
    while i < n
        invariant
            n == src@.len(),
            src@ == img@.pixels,
            i <= n,
            out@ == Seq::new(i as nat, |k: int| threshold_sample(src@[k], threshold)),
        decreases n - i,
    {
        let v: u8 = if src[i] > threshold { 255 } else { 0 };
        out.push(v);
        i = i + 1;
        assert(out@ =~= Seq::new(i as nat, |k: int| threshold_sample(src@[k], threshold)));
    }
    let r = Grid::from_parts(img.width(), img.height(), out);
    assert(r@.pixels =~= threshold_spec(img@, threshold).pixels);
    assert(all_binary(r@.pixels)) by {
        assert forall|k: int| 0 <= k < r@.pixels.len() implies #[trigger] is_binary(r@.pixels[k]) by {}
    }
    r
}

/// Compares each sample with the Bayer matrix entry for its position, the
/// matrix being tiled over the grid: 255 when strictly above it, else 0.
pub fn ordered_dither(img: &Grid) -> (r: Grid)
    requires
        img.wf(),
    ensures
        r.wf(),
        r@ == ordered_spec(img@),
        all_binary(r@.pixels),
{
    let src: &Vec<u8> = img.pixels();
    let n: usize = src.len();
    let w: usize = img.width() as usize;
    let mut out: Vec<u8> = Vec::with_capacity(n);
    let mut i: usize = 0;
    while i < n
        invariant
            n == src@.len(),
            src@ == img@.pixels,
            img.wf(),
            w == img@.width,
            i <= n,
            out@ == Seq::new(
                i as nat,
                |k: int| ordered_sample(src@[k], k % (w as int), k / (w as int)),
            ),
        decreases n - i,
    {
        if w == 0 {
            assert(img@.width * img@.height == 0) by (nonlinear_arith)
                requires img@.width == 0;
        }
        let x: usize = i % w;
        let y: usize = i / w;
        let t: u8 = bayer_threshold(y % 4, x % 4);
        let v: u8 = if src[i] > t { 255 } else { 0 };
        out.push(v);
        i = i + 1;
        assert(out@ =~= Seq::new(
            i as nat,
            |k: int| ordered_sample(src@[k], k % (w as int), k / (w as int)),
        ));
    }
    let r = Grid::from_parts(img.width(), img.height(), out);
    assert(r@.pixels =~= ordered_spec(img@).pixels);
    assert(all_binary(r@.pixels)) by {
        assert forall|k: int| 0 <= k < r@.pixels.len() implies #[trigger] is_binary(r@.pixels[k]) by {}
    }
    r
}

} // verus!
