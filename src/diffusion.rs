//! Error-diffusion dithering: Floyd–Steinberg and Atkinson.
//!
//! Both visit the samples in raster order on a working copy of the grid. Each
//! visited sample is set to 0 or 255 and the quantisation error is pushed onto
//! neighbours not yet visited, so later decisions see the error of earlier
//! ones. Neighbours outside the grid are skipped.
use vstd::prelude::*;
use crate::grid::{Grid, GridView, all_binary, is_binary};

verus! {

/// A sample quantised to black or white at the midpoint.
pub open spec fn binarize(s: u8) -> u8 {
    if s < 128 { 0 } else { 255 }
}

/// Clamps an integer into the byte range.
pub open spec fn clamp_byte(v: int) -> u8 {
    if v < 0 { 0 } else if v > 255 { 255 } else { v as u8 }
}

/// A Floyd–Steinberg neighbour `v` after receiving `k`/16 of the error `e`:
/// the exact sum clamped to [0, 255], then truncated.
pub open spec fn fs_share(v: u8, e: int, k: int) -> u8 {
    clamp_byte((16 * v + e * k) / 16)
}

/// Integer division by eight, rounding toward zero.
pub open spec fn div8_toward_zero(d: int) -> int {
    if d >= 0 { d / 8 } else { -((-d) / 8) }
}

/// The reduced error that Atkinson dithering spreads from a sample `s`.
pub open spec fn atkinson_error(s: u8) -> int {
    div8_toward_zero(s - binarize(s))
}

/// An Atkinson neighbour `v` after receiving the reduced error `e`.
pub open spec fn atkinson_share(v: u8, e: int) -> u8 {
    clamp_byte(v + e)
}

/// `buf` with the sample at `j` given its Floyd–Steinberg share, when `hit`.
pub open spec fn fs_push(buf: Seq<u8>, hit: bool, j: int, e: int, k: int) -> Seq<u8> {
    if hit { buf.update(j, fs_share(buf[j], e, k)) } else { buf }
}

/// `buf` with the sample at `j` given its Atkinson share, when `hit`.
pub open spec fn atkinson_push(buf: Seq<u8>, hit: bool, j: int, e: int) -> Seq<u8> {
    if hit { buf.update(j, atkinson_share(buf[j], e)) } else { buf }
}

/// One Floyd–Steinberg step on the sample at index `i` of a `w` by `h`
/// buffer: the sample is quantised, and its error goes 7/16 to the right,
/// 3/16 below left, 5/16 below and 1/16 below right.
pub open spec fn fs_step(buf: Seq<u8>, w: int, h: int, i: int) -> Seq<u8> {
    let x = i % w;
    let y = i / w;
    let s = buf[i];
    let e = s - binarize(s);
    let b0 = buf.update(i, binarize(s));
    let b1 = fs_push(b0, x + 1 < w, i + 1, e, 7);
    let b2 = fs_push(b1, x >= 1 && y + 1 < h, i + w - 1, e, 3);
    let b3 = fs_push(b2, y + 1 < h, i + w, e, 5);
    fs_push(b3, x + 1 < w && y + 1 < h, i + w + 1, e, 1)
}

/// One Atkinson step on the sample at index `i` of a `w` by `h` buffer: the
/// sample is quantised, and an eighth of its error goes whole to each of
/// (+1, 0), (+2, 0), (−1, +1), (0, +1), (+1, +1) and (0, +2).
pub open spec fn atkinson_step(buf: Seq<u8>, w: int, h: int, i: int) -> Seq<u8> {
    let x = i % w;
    let y = i / w;
    let e = atkinson_error(buf[i]);
    let b0 = buf.update(i, binarize(buf[i]));
    let b1 = atkinson_push(b0, x + 1 < w, i + 1, e);
    let b2 = atkinson_push(b1, x + 2 < w, i + 2, e);
    let b3 = atkinson_push(b2, x >= 1 && y + 1 < h, i + w - 1, e);
    let b4 = atkinson_push(b3, y + 1 < h, i + w, e);
    let b5 = atkinson_push(b4, x + 1 < w && y + 1 < h, i + w + 1, e);
    atkinson_push(b5, y + 2 < h, i + 2 * w, e)
}

/// The buffer after the first `k` Floyd–Steinberg steps.
pub open spec fn fs_scan(buf: Seq<u8>, w: int, h: int, k: nat) -> Seq<u8>
    decreases k,
{
    if k == 0 {
        buf
    } else {
        fs_step(fs_scan(buf, w, h, (k - 1) as nat), w, h, k - 1)
    }
}

/// The buffer after the first `k` Atkinson steps.
pub open spec fn atkinson_scan(buf: Seq<u8>, w: int, h: int, k: nat) -> Seq<u8>
    decreases k,
{
    if k == 0 {
        buf
    } else {
        atkinson_step(atkinson_scan(buf, w, h, (k - 1) as nat), w, h, k - 1)
    }
}

/// The grid that Floyd–Steinberg dithering of `g` yields.
pub open spec fn floyd_steinberg_spec(g: GridView) -> GridView {
    GridView {
        width: g.width,
        height: g.height,
        pixels: fs_scan(g.pixels, g.width as int, g.height as int, g.pixels.len()),
    }
}

/// The grid that Atkinson dithering of `g` yields.
pub open spec fn atkinson_spec(g: GridView) -> GridView {
    GridView {
        width: g.width,
        height: g.height,
        pixels: atkinson_scan(g.pixels, g.width as int, g.height as int, g.pixels.len()),
    }
}

/// Where index `i` of a `w` by `h` raster lies, and how far the rows below it
/// reach.
pub proof fn lemma_raster(i: int, w: int, h: int)
    requires
        0 <= i < w * h,
        0 <= w,
        0 <= h,
    ensures
        w > 0,
        i == (i / w) * w + i % w,
        0 <= i % w < w,
        0 <= i / w < h,
        i - i % w + w <= w * h,
        i / w + 1 < h ==> i - i % w + 2 * w <= w * h,
        i / w + 2 < h ==> i - i % w + 3 * w <= w * h,
{
    if w == 0 {
        assert(w * h == 0);
    }
    let x = i % w;
    let y = i / w;
    vstd::arithmetic::div_mod::lemma_fundamental_div_mod(i, w);
    assert(y >= 0) by {
        vstd::arithmetic::div_mod::lemma_div_pos_is_pos(i, w);
    }
    assert(y < h) by (nonlinear_arith)
        requires i == y * w + x, 0 <= x < w, i < w * h, 0 <= y;
    assert((y + 1) * w <= w * h) by (nonlinear_arith)
        requires y < h, 0 < w;
    assert(y + 1 < h ==> (y + 2) * w <= w * h) by (nonlinear_arith)
        requires 0 < w;
    assert(y + 2 < h ==> (y + 3) * w <= w * h) by (nonlinear_arith)
        requires 0 < w;
    assert((y + 1) * w == y * w + w) by (nonlinear_arith);
    assert((y + 2) * w == y * w + 2 * w) by (nonlinear_arith);
    assert((y + 3) * w == y * w + 3 * w) by (nonlinear_arith);
}

/// A Floyd–Steinberg step keeps the length, quantises the visited sample and
/// leaves the samples before it alone.
pub proof fn lemma_fs_step(buf: Seq<u8>, w: int, h: int, i: int)
    requires
        buf.len() == w * h,
        0 <= w,
        0 <= h,
        0 <= i < buf.len(),
    ensures
        fs_step(buf, w, h, i).len() == buf.len(),
        is_binary(fs_step(buf, w, h, i)[i]),
        forall|j: int| 0 <= j < i ==> #[trigger] fs_step(buf, w, h, i)[j] == buf[j],
{
    lemma_raster(i, w, h);
}

/// An Atkinson step keeps the length, quantises the visited sample and leaves
/// the samples before it alone.
pub proof fn lemma_atkinson_step(buf: Seq<u8>, w: int, h: int, i: int)
    requires
        buf.len() == w * h,
        0 <= w,
        0 <= h,
        0 <= i < buf.len(),
    ensures
        atkinson_step(buf, w, h, i).len() == buf.len(),
        is_binary(atkinson_step(buf, w, h, i)[i]),
        forall|j: int| 0 <= j < i ==> #[trigger] atkinson_step(buf, w, h, i)[j] == buf[j],
{
    lemma_raster(i, w, h);
}

/// After `k` Floyd–Steinberg steps the first `k` samples are 0 or 255.
pub proof fn lemma_fs_scan(buf: Seq<u8>, w: int, h: int, k: nat)
    requires
        buf.len() == w * h,
        0 <= w,
        0 <= h,
        k <= buf.len(),
    ensures
        fs_scan(buf, w, h, k).len() == buf.len(),
        forall|j: int| 0 <= j < k ==> #[trigger] is_binary(fs_scan(buf, w, h, k)[j]),
    decreases k,
{
    if k > 0 {
        let prev = fs_scan(buf, w, h, (k - 1) as nat);
        lemma_fs_scan(buf, w, h, (k - 1) as nat);
        lemma_fs_step(prev, w, h, k - 1);
        assert forall|j: int| 0 <= j < k implies #[trigger] is_binary(fs_scan(buf, w, h, k)[j]) by {
            if j < k - 1 {
                assert(is_binary(prev[j]));
            }
        }
    }
}

/// After `k` Atkinson steps the first `k` samples are 0 or 255.
pub proof fn lemma_atkinson_scan(buf: Seq<u8>, w: int, h: int, k: nat)
    requires
        buf.len() == w * h,
        0 <= w,
        0 <= h,
        k <= buf.len(),
    ensures
        atkinson_scan(buf, w, h, k).len() == buf.len(),
        forall|j: int| 0 <= j < k ==> #[trigger] is_binary(atkinson_scan(buf, w, h, k)[j]),
    decreases k,
{
    if k > 0 {
        let prev = atkinson_scan(buf, w, h, (k - 1) as nat);
        lemma_atkinson_scan(buf, w, h, (k - 1) as nat);
        lemma_atkinson_step(prev, w, h, k - 1);
        assert forall|j: int| 0 <= j < k implies #[trigger] is_binary(
            atkinson_scan(buf, w, h, k)[j],
        ) by {
            if j < k - 1 {
                assert(is_binary(prev[j]));
            }
        }
    }
}

/// Quantises a sample at the midpoint.
fn binarize_sample(s: u8) -> (r: u8)
    ensures
        r == binarize(s),
{
    if s < 128 { 0 } else { 255 }
}

/// Clamps a value into the byte range.
fn clamp_to_byte(v: i32) -> (r: u8)
    ensures
        r == clamp_byte(v as int),
{
    if v < 0 {
        0
    } else if v > 255 {
        255
    } else {
        v as u8
    }
}

/// Adds `k`/16 of the error `e` to `v`, clamped and truncated.
fn fs_share_exec(v: u8, e: i32, k: i32) -> (r: u8)
    requires
        -255 <= e <= 255,
        0 <= k <= 16,
    ensures
        r == fs_share(v, e as int, k as int),
{
    assert(-4080 <= e * k <= 4080) by (nonlinear_arith)
        requires -255 <= e <= 255, 0 <= k <= 16;
    let t: i32 = 16 * (v as i32) + e * k;
    if t < 0 {
        assert(t as int / 16 < 0) by (nonlinear_arith)
            requires t < 0;
        0
    } else {
        let q: u32 = (t as u32) / 16;
        clamp_to_byte(q as i32)
    }
}

/// Divides by eight, rounding toward zero.
fn div8_toward_zero_exec(d: i32) -> (r: i32)
    requires
        -255 <= d <= 255,
    ensures
        r == div8_toward_zero(d as int),
{
    if d >= 0 {
        ((d as u32) / 8) as i32
    } else {
        -((((-d) as u32) / 8) as i32)
    }
}

/// Adds the reduced error `e` to `v`, clamped.
fn atkinson_share_exec(v: u8, e: i32) -> (r: u8)
    requires
        -32 <= e <= 32,
    ensures
        r == atkinson_share(v, e as int),
{
    clamp_to_byte(v as i32 + e)
}

/// Floyd–Steinberg dithering: in raster order each sample becomes 0 below
/// 128 and 255 otherwise, and its error S − N is added to the unvisited
/// neighbours in the fractions 7/16 (right), 3/16 (below left), 5/16 (below)
/// and 1/16 (below right), each sum clamped to [0, 255] and truncated.
pub fn floyd_steinberg_dither(img: &Grid) -> (r: Grid)
    requires
        img.wf(),
    ensures
        r.wf(),
        r@ == floyd_steinberg_spec(img@),
        all_binary(r@.pixels),
{
    let ghost src = img@.pixels;
    let ghost gw = img@.width as int;
    let ghost gh = img@.height as int;
    let mut buf: Vec<u8> = img.pixels().clone();
    assert(buf@ =~= src);
    let n: usize = buf.len();
    let w: usize = img.width() as usize;
    let h: usize = img.height() as usize;
    let mut i: usize = 0;
    while i < n
        invariant
            n == src.len(),
            n == w * h,
            w == gw,
            h == gh,
            i <= n,
            buf@.len() == n,
            buf@ == fs_scan(src, gw, gh, i as nat),
        decreases n - i,
    {
        proof {
            lemma_raster(i as int, w as int, h as int);
        }
        let ghost before = buf@;
        let x: usize = i % w;
        let y: usize = i / w;
        let s: u8 = buf[i];
        let q: u8 = binarize_sample(s);
        let e: i32 = s as i32 - q as i32;
        buf[i] = q;
        if x + 1 < w {
            let v: u8 = fs_share_exec(buf[i + 1], e, 7);
            buf[i + 1] = v;
        }
        if x >= 1 && y + 1 < h {
            let v: u8 = fs_share_exec(buf[i + w - 1], e, 3);
            buf[i + w - 1] = v;
        }
        if y + 1 < h {
            let v: u8 = fs_share_exec(buf[i + w], e, 5);
            buf[i + w] = v;
        }
        if x + 1 < w && y + 1 < h {
            let v: u8 = fs_share_exec(buf[i + w + 1], e, 1);
            buf[i + w + 1] = v;
        }
        assert(buf@ =~= fs_step(before, w as int, h as int, i as int));
        i = i + 1;
    }
    proof {
        lemma_fs_scan(src, gw, gh, n as nat);
    }
    Grid::from_parts(img.width(), img.height(), buf)
}

/// Atkinson dithering: in raster order each sample becomes 0 below 128 and
/// 255 otherwise, and (S − N) / 8, rounded toward zero, is added whole to each
/// of the neighbours (+1, 0), (+2, 0), (−1, +1), (0, +1), (+1, +1) and
/// (0, +2) that lie in the grid, each sum clamped to [0, 255].
pub fn atkinson_dither(img: &Grid) -> (r: Grid)
    requires
        img.wf(),
    ensures
        r.wf(),
        r@ == atkinson_spec(img@),
        all_binary(r@.pixels),
{
    let ghost src = img@.pixels;
    let ghost gw = img@.width as int;
    let ghost gh = img@.height as int;
    let mut buf: Vec<u8> = img.pixels().clone();
    assert(buf@ =~= src);
    let n: usize = buf.len();
    let w: usize = img.width() as usize;
    let h: usize = img.height() as usize;
    let mut i: usize = 0;
    while i < n
        invariant
            n == src.len(),
            n == w * h,
            w == gw,
            h == gh,
            i <= n,
            buf@.len() == n,
            buf@ == atkinson_scan(src, gw, gh, i as nat),
        decreases n - i,
    {
        proof {
            lemma_raster(i as int, w as int, h as int);
        }
        let ghost before = buf@;
        let x: usize = i % w;
        let y: usize = i / w;
        let s: u8 = buf[i];
        let q: u8 = binarize_sample(s);
        let e: i32 = div8_toward_zero_exec(s as i32 - q as i32);
        buf[i] = q;
        if x + 1 < w {
            let v: u8 = atkinson_share_exec(buf[i + 1], e);
            buf[i + 1] = v;
        }
        if w - x > 2 {
            let v: u8 = atkinson_share_exec(buf[i + 2], e);
            buf[i + 2] = v;
        }
        if x >= 1 && y + 1 < h {
            let v: u8 = atkinson_share_exec(buf[i + w - 1], e);
            buf[i + w - 1] = v;
        }
        if y + 1 < h {
            let v: u8 = atkinson_share_exec(buf[i + w], e);
            buf[i + w] = v;
        }
        if x + 1 < w && y + 1 < h {
            let v: u8 = atkinson_share_exec(buf[i + w + 1], e);
            buf[i + w + 1] = v;
        }
        if h - y > 2 {
            let v: u8 = atkinson_share_exec(buf[i + 2 * w], e);
            buf[i + 2 * w] = v;
        }
        assert(buf@ =~= atkinson_step(before, w as int, h as int, i as int));
        i = i + 1;
    }
    proof {
        lemma_atkinson_scan(src, gw, gh, n as nat);
    }
    Grid::from_parts(img.width(), img.height(), buf)
}

} // verus!
