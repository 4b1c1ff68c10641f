//! Choosing a dithering routine by name.
use vstd::prelude::*;
use vstd::string::*;
use crate::grid::{Grid, GridView, all_binary};
use crate::pointwise::{
    DEFAULT_THRESHOLD, ordered_dither, ordered_spec, threshold_dither, threshold_spec,
};
use crate::diffusion::{atkinson_dither, atkinson_spec, floyd_steinberg_dither, floyd_steinberg_spec};

verus! {

/// The four dithering routines.
#[derive(Clone, Copy, Debug, PartialEq, Eq, Structural)]
pub enum Algorithm {
    FloydSteinberg,
    Ordered,
    Atkinson,
    Threshold,
}

/// The routine that a name selects; names other than the three below select
/// thresholding.
pub open spec fn algorithm_named(name: Seq<char>) -> Algorithm {
    if name == "floyd-steinberg"@ {
        Algorithm::FloydSteinberg
    } else if name == "ordered"@ {
        Algorithm::Ordered
    } else if name == "atkinson"@ {
        Algorithm::Atkinson
    } else {
        Algorithm::Threshold
    }
}

/// The grid that running `alg` on `g` yields; thresholding uses the default
/// threshold.
pub open spec fn dither_spec(alg: Algorithm, g: GridView) -> GridView {
    match alg {
        Algorithm::FloydSteinberg => floyd_steinberg_spec(g),
        Algorithm::Ordered => ordered_spec(g),
        Algorithm::Atkinson => atkinson_spec(g),
        Algorithm::Threshold => threshold_spec(g, DEFAULT_THRESHOLD),
    }
}

/// Whether two strings hold the same characters.
fn same_chars(a: &str, b: &str) -> (r: bool)
    ensures
        r == (a@ == b@),
{
    let n: usize = a.unicode_len();
    if n != b.unicode_len() {
        return false;
    }
    let mut i: usize = 0;
    while i < n
        invariant
            n == a@.len(),
            n == b@.len(),
            i <= n,
            a@.subrange(0, i as int) == b@.subrange(0, i as int),
        decreases n - i,
    {
        if a.get_char(i) != b.get_char(i) {
            assert(a@[i as int] != b@[i as int]);
            return false;
        }
        assert(a@.subrange(0, i + 1) =~= a@.subrange(0, i as int).push(a@[i as int]));
        assert(b@.subrange(0, i + 1) =~= b@.subrange(0, i as int).push(b@[i as int]));
        i = i + 1;
    }
    assert(a@ =~= a@.subrange(0, n as int));
    assert(b@ =~= b@.subrange(0, n as int));
    true
}

impl Algorithm {
    /// Looks an algorithm up by name: "floyd-steinberg", "ordered" or
    /// "atkinson"; any other name means thresholding.
    pub fn from_name(name: &str) -> (r: Algorithm)
        ensures
            r == algorithm_named(name@),
    {
        if same_chars(name, "floyd-steinberg") {
            Algorithm::FloydSteinberg
        } else if same_chars(name, "ordered") {
            Algorithm::Ordered
        } else if same_chars(name, "atkinson") {
            Algorithm::Atkinson
        } else {
            Algorithm::Threshold
        }
    }
}

/// Runs `alg` on `img`; thresholding uses the default threshold of 128.
pub fn dither(alg: Algorithm, img: &Grid) -> (r: Grid)
    requires
        img.wf(),
    ensures
        r.wf(),
        r@ == dither_spec(alg, img@),
        r@.width == img@.width,
        r@.height == img@.height,
        all_binary(r@.pixels),
{
    match alg {
        Algorithm::FloydSteinberg => floyd_steinberg_dither(img),
        Algorithm::Ordered => ordered_dither(img),
        Algorithm::Atkinson => atkinson_dither(img),
        Algorithm::Threshold => threshold_dither(img, DEFAULT_THRESHOLD),
    }
}

/// Runs the routine that `alg_type` names on `img`. An unknown name is no
/// error: it falls back to thresholding at 128.
pub fn select_algorithm(alg_type: &str, img: Grid) -> (r: Grid)
    requires
        img.wf(),
    ensures
        r.wf(),
        r@ == dither_spec(algorithm_named(alg_type@), img@),
        r@.width == img@.width,
        r@.height == img@.height,
        all_binary(r@.pixels),
{
    dither(Algorithm::from_name(alg_type), &img)
}

} // verus!
