//! The pixel grid shared by every dithering routine.
use vstd::prelude::*;

verus! {

/// What a grid is: its dimensions and its samples in row-major order.
pub struct GridView {
    pub width: nat,
    pub height: nat,
    pub pixels: Seq<u8>,
}

/// A `width` by `height` grid of 8-bit luminance samples, row-major: the
/// sample at column `x` and row `y` is `pixels[y * width + x]`.
#[derive(Debug)]
pub struct Grid {
    width: u32,
    height: u32,
    pixels: Vec<u8>,
}

/// A sample that is one of the two output intensities.
pub open spec fn is_binary(v: u8) -> bool {
    v == 0 || v == 255
}

/// Every sample of `s` is 0 or 255.
pub open spec fn all_binary(s: Seq<u8>) -> bool {
    forall|i: int| 0 <= i < s.len() ==> #[trigger] is_binary(s[i])
}

/// The row-major index of column `x`, row `y` in a grid of width `w`.
pub open spec fn index_of(w: int, x: int, y: int) -> int {
    y * w + x
}

impl View for Grid {
    type V = GridView;

    closed spec fn view(&self) -> GridView {
        GridView { width: self.width as nat, height: self.height as nat, pixels: self.pixels@ }
    }
}

impl GridView {
    /// The sample count matches the dimensions.
    pub open spec fn wf(self) -> bool {
        self.pixels.len() == self.width * self.height
    }

    /// The two views have the same dimensions.
    pub open spec fn same_shape(self, other: GridView) -> bool {
        self.width == other.width && self.height == other.height
    }

    /// The sample at column `x`, row `y`.
    pub open spec fn at(self, x: int, y: int) -> u8 {
        self.pixels[index_of(self.width as int, x, y)]
    }

    /// Column `x`, row `y` lies inside the grid.
    pub open spec fn contains(self, x: int, y: int) -> bool {
        0 <= x < self.width && 0 <= y < self.height
    }
}

impl Grid {
    /// The grid's view is well formed.
    pub open spec fn wf(&self) -> bool {
        self@.wf()
    }

    /// Builds a grid from row-major samples; `None` unless there are exactly
    /// `width * height` of them.
    pub fn from_raw(width: u32, height: u32, pixels: Vec<u8>) -> (r: Option<Grid>)
        ensures
            r.is_some() <==> pixels@.len() == width as int * height as int,
            r.is_some() ==> r.unwrap()@ == (GridView {
                width: width as nat,
                height: height as nat,
                pixels: pixels@,
            }),
            r.is_some() ==> r.unwrap().wf(),
    {
        let len: u64 = pixels.len() as u64;
        assert(width as int * height as int <= 0xffff_ffff * 0xffff_ffff) by (nonlinear_arith)
            requires width <= 0xffff_ffff, height <= 0xffff_ffff;
        let area: u64 = width as u64 * height as u64;
        if len == area {
            Some(Grid { width, height, pixels })
        } else {
            None
        }
    }

    /// Builds a grid of the given size whose samples all equal `value`.
    pub fn filled(width: u32, height: u32, value: u8) -> (r: Grid)
        requires
            width as int * height as int <= usize::MAX,
        ensures
            r.wf(),
            r@.width == width,
            r@.height == height,
            r@.pixels == Seq::new((width * height) as nat, |i: int| value),
    {
        let n: usize = (width as usize) * (height as usize);
        let mut pixels: Vec<u8> = Vec::new();
        let mut i: usize = 0;
        while i < n
            invariant
                n == width as int * height as int,
                i <= n,
                pixels@ == Seq::new(i as nat, |k: int| value),
            decreases n - i,
        {
            pixels.push(value);
            i = i + 1;
            assert(pixels@ =~= Seq::new(i as nat, |k: int| value));
        }
        Grid { width, height, pixels }
    }

    /// Wraps samples already known to match the dimensions.
    pub(crate) fn from_parts(width: u32, height: u32, pixels: Vec<u8>) -> (r: Grid)
        requires
            pixels@.len() == width as int * height as int,
        ensures
            r.wf(),
            r@ == (GridView { width: width as nat, height: height as nat, pixels: pixels@ }),
    {
        Grid { width, height, pixels }
    }

    /// The number of columns.
    pub fn width(&self) -> (r: u32)
        ensures
            r == self@.width,
    {
        self.width
    }

    /// The number of rows.
    pub fn height(&self) -> (r: u32)
        ensures
            r == self@.height,
    {
        self.height
    }

    /// The samples in row-major order.
    pub fn pixels(&self) -> (r: &Vec<u8>)
        ensures
            r@ == self@.pixels,
    {
        &self.pixels
    }

    /// Gives up the grid, returning its row-major samples.
    pub fn into_raw(self) -> (r: Vec<u8>)
        ensures
            r@ == self@.pixels,
    {
        self.pixels
    }

    /// The sample at column `x`, row `y`.
    pub fn get(&self, x: u32, y: u32) -> (r: u8)
        requires
            self.wf(),
            self@.contains(x as int, y as int),
        ensures
            r == self@.at(x as int, y as int),
    {
        proof {
            lemma_index_in_grid(self.width as int, self.height as int, x as int, y as int);
            assert(self.pixels.len() == self.width as int * self.height as int);
        }
        let w: usize = self.width as usize;
        let row: usize = y as usize;
        let col: usize = x as usize;
        self.pixels[row * w + col]
    }
}

/// A cell inside a `w` by `h` grid has an index below `w * h`.
pub proof fn lemma_index_in_grid(w: int, h: int, x: int, y: int)
    requires
        0 <= x < w,
        0 <= y < h,
    ensures
        0 <= index_of(w, x, y) < w * h,
        0 <= y * w <= index_of(w, x, y),
{
    assert(0 <= y * w) by (nonlinear_arith)
        requires 0 <= y, 0 <= w;
    assert(y * w + x < w * h) by (nonlinear_arith)
        requires 0 <= x < w, 0 <= y < h;
}

} // verus!
