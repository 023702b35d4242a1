use vstd::arithmetic::div_mod::lemma_fundamental_div_mod_converse;
use vstd::prelude::*;

verus! {

/// An 8-bit RGB triple, as handed to the image encoder.
pub type Rgb8 = [u8; 3];

/// The output raster: `pixels[x][y]` is the pixel in column `x` and row `y`,
/// and `current` is the next pixel of the walk that visits every pixel once,
/// row by row, left to right.
#[derive(Debug)]
pub struct Screen {
    pub width: usize,
    pub height: usize,
    pub pixels: Vec<Vec<Rgb8>>,
    pub current: (usize, usize),
}

/// A `width` by `height` grid, every pixel black.
pub open spec fn black_grid(width: nat, height: nat) -> Seq<Seq<Rgb8>> {
    Seq::new(width, |x: int| Seq::new(height, |y: int| [0u8, 0u8, 0u8]))
}

/// Builds a `width` by `height` grid of black pixels, column by column.
pub fn init_screen(width: usize, height: usize) -> (r: Vec<Vec<Rgb8>>)
    ensures
        r@.len() == width,
        forall|x: int| 0 <= x < width ==> (#[trigger] r@[x])@.len() == height,
        r@.map_values(|c: Vec<Rgb8>| c@) =~= black_grid(width as nat, height as nat),
{
    let mut res: Vec<Vec<Rgb8>> = Vec::new();
    let mut x: usize = 0;
    while x < width
        invariant
            x <= width,
            res@.len() == x,
            forall|i: int| 0 <= i < x ==> (#[trigger] res@[i])@ =~= Seq::new(height as nat, |y: int| [0u8, 0u8, 0u8]),
        decreases width - x,
    {
        let mut col: Vec<Rgb8> = Vec::new();
        let mut y: usize = 0;
        while y < height
            invariant
                y <= height,
                col@.len() == y,
                forall|j: int| 0 <= j < y ==> #[trigger] col@[j] == [0u8, 0u8, 0u8],
            decreases height - y,
        {
            col.push([0u8, 0u8, 0u8]);
            y = y + 1;
        }
        res.push(col);
        x = x + 1;
    }
    res
}

/// The walk covers the raster exactly: pixel `(x, y)` is handed out by the
/// `k`-th call of `next` for `k == y * width + x`, which is below
/// `width * height`, and by no other call.
pub proof fn lemma_walk_visits_each_pixel_once(width: nat, height: nat, x: nat, y: nat)
    requires
        x < width,
        y < height,
    ensures
        y * width + x < width * height,
        (y * width + x) % width == x,
        (y * width + x) / width == y,
        forall|k: nat| #[trigger] (k % width) == x && k / width == y ==> k == y * width + x,
{
    assert(y * width + x < width * height) by (nonlinear_arith)
        requires
            x < width,
            y < height,
    ;
    lemma_fundamental_div_mod_converse((y * width + x) as int, width as int, y as int, x as int);
    assert forall|k: nat| #[trigger] (k % width) == x && k / width == y implies k == y * width + x by {
        vstd::arithmetic::div_mod::lemma_fundamental_div_mod(k as int, width as int);
        vstd::arithmetic::mul::lemma_mul_is_commutative(width as int, y as int);
    }
}

impl Screen {
    /// The pixels as a grid of columns.
    pub open spec fn grid(&self) -> Seq<Seq<Rgb8>> {
        self.pixels@.map_values(|c: Vec<Rgb8>| c@)
    }

    /// How many pixels the walk has handed out so far.
    pub open spec fn walked(&self) -> nat {
        (self.current.1 * self.width + self.current.0) as nat
    }

    /// The grid holds `width` columns of `height` pixels, and the walk stands
    /// on a pixel or just past the last row.
    pub open spec fn wf(&self) -> bool {
        &&& self.pixels@.len() == self.width
        &&& forall|x: int| 0 <= x < self.width ==> (#[trigger] self.pixels@[x])@.len() == self.height
        &&& self.current.1 <= self.height
        &&& self.width == 0 ==> self.current.0 == 0
        &&& self.width > 0 ==> self.current.0 < self.width
        &&& self.current.1 == self.height ==> self.current.0 == 0
    }

    /// A black screen of `width` by `height` pixels whose walk starts at the
    /// top left pixel.
    pub fn new(width: usize, height: usize) -> (r: Screen)
        ensures
            r.wf(),
            r.width == width,
            r.height == height,
            r.grid() =~= black_grid(width as nat, height as nat),
            r.walked() == 0,
    {
        let pixels = init_screen(width, height);
        Screen { width, height, pixels, current: (0, 0) }
    }

    /// The next pixel of the walk, `(x, y)`, or `None` once every pixel has
    /// been handed out. The `k`-th call hands out column `k % width` of row
    /// `k / width`.
    pub fn next(&mut self) -> (r: Option<(usize, usize)>)
        requires
            old(self).wf(),
        ensures
            final(self).wf(),
            final(self).width == old(self).width,
            final(self).height == old(self).height,
            final(self).pixels == old(self).pixels,
            old(self).walked() < old(self).width * old(self).height ==> {
                &&& r == Some(
                    (
                        (old(self).walked() % old(self).width as nat) as usize,
                        (old(self).walked() / old(self).width as nat) as usize,
                    ),
                )
                &&& final(self).walked() == old(self).walked() + 1
            },
            old(self).walked() >= old(self).width * old(self).height ==> {
                &&& r is None
                &&& final(self).walked() == old(self).walked()
            },
    {
        let w = self.width;
        let h = self.height;
        let (x, y) = self.current;
        if y >= h || w == 0 {
            proof {
                if w > 0 {
                    assert(y == h);
                    assert(x == 0);
                }
                assert(self.walked() >= w * h) by (nonlinear_arith)
                    requires
                        self.walked() == y * w + x,
                        y >= h || w == 0,
                        w == 0 ==> x == 0,
                        w > 0 ==> y == h && x == 0,
                ;
            }
            return None;
        }
        proof {
            assert(y * w + x < w * h) by (nonlinear_arith)
                requires
                    x < w,
                    y < h,
            ;
            lemma_fundamental_div_mod_converse((y * w + x) as int, w as int, y as int, x as int);
        }
        if x + 1 < w {
            self.current = (x + 1, y);
        } else {
            self.current = (0, y + 1);
            assert((y + 1) * w + 0 == y * w + x + 1) by (nonlinear_arith)
                requires
                    x + 1 == w,
            ;
        }
        Some((x, y))
    }

    /// The pixel in column `x` and row `y`.
    pub fn pixel(&self, x: usize, y: usize) -> (r: Rgb8)
        requires
            self.wf(),
            x < self.width,
            y < self.height,
        ensures
            r == self.grid()[x as int][y as int],
    {
        self.pixels[x][y]
    }

    /// Stores the color of the pixel in column `x` and row `y`; every other
    /// pixel and the walk are kept.
    pub fn set_pixel(&mut self, x: usize, y: usize, color: Rgb8)
        requires
            old(self).wf(),
            x < old(self).width,
            y < old(self).height,
        ensures
            final(self).wf(),
            final(self).width == old(self).width,
            final(self).height == old(self).height,
            final(self).walked() == old(self).walked(),
            final(self).grid() =~= old(self).grid().update(
                x as int,
                old(self).grid()[x as int].update(y as int, color),
            ),
    {
        self.pixels[x][y] = color;
    }
}

} // verus!
