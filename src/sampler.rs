//! Bitmaps and pixel sampling: which pixels of an image become color samples.

use vstd::prelude::*;
use crate::color::Rgb;

verus! {

/// A decoded RGBA image with 8-bit channels, row-major, four bytes per pixel.
pub struct Bitmap {
    pub width: u32,
    pub height: u32,
    pub rgba: Vec<u8>,
}

impl Bitmap {
    /// The buffer holds exactly four bytes per pixel.
    pub open spec fn wf(&self) -> bool {
        self.rgba.len() == 4 * self.width * self.height
    }
}

/// An RGBA pixel.
pub type Pixel = (u8, u8, u8, u8);

/// Number of sampled columns (or rows) along an edge of `len` pixels.
pub open spec fn grid_len(len: int, step: int) -> int {
    (len + step - 1) / step
}

/// The `j`-th pixel of the stride grid over a `width`-wide RGBA buffer, in
/// row-major order.
pub open spec fn grid_pixel(width: int, rgba: Seq<u8>, step: int, j: int) -> Pixel {
    let cols = grid_len(width, step);
    let x = (j % cols) * step;
    let y = (j / cols) * step;
    let o = 4 * (y * width + x);
    (rgba[o], rgba[o + 1], rgba[o + 2], rgba[o + 3])
}

/// Every `step`-th pixel of every `step`-th row.
pub open spec fn grid(width: int, height: int, rgba: Seq<u8>, step: int) -> Seq<Pixel> {
    Seq::new(
        (grid_len(width, step) * grid_len(height, step)) as nat,
        |j: int| grid_pixel(width, rgba, step, j),
    )
}

/// Opaque enough (alpha at least 200) and neither near-black nor near-white
/// (mean brightness strictly between 0.08 and 0.92).
pub open spec fn usable(p: Pixel) -> bool {
    &&& p.3 >= 200
    &&& (p.0 + p.1 + p.2) * 100 > 8 * 765
    &&& (p.0 + p.1 + p.2) * 100 < 92 * 765
}

pub open spec fn pixel_color(p: Pixel) -> Rgb {
    Rgb { r: (p.0 * 257) as u16, g: (p.1 * 257) as u16, b: (p.2 * 257) as u16 }
}

/// The usable pixels, as colors, in order.
pub open spec fn usable_colors(s: Seq<Pixel>) -> Seq<Rgb>
    decreases s.len(),
{
    if s.len() == 0 {
        Seq::empty()
    } else {
        let r = usable_colors(s.drop_last());
        if usable(s.last()) {
            r.push(pixel_color(s.last()))
        } else {
            r
        }
    }
}

/// Fewer usable samples than this and the filter is dropped.
pub open spec fn min_filtered() -> int {
    100
}

/// The color samples of an image: the usable grid pixels, or every grid
/// pixel when fewer than 100 are usable.
pub open spec fn samples(width: int, height: int, rgba: Seq<u8>, step: int) -> Seq<Rgb> {
    let g = grid(width, height, rgba, step);
    if usable_colors(g).len() < min_filtered() {
        g.map_values(|p: Pixel| pixel_color(p))
    } else {
        usable_colors(g)
    }
}

/// An image yields color samples exactly when it has pixels.
pub proof fn lemma_samples_nonempty(width: int, height: int, rgba: Seq<u8>, step: int)
    requires
        width >= 0,
        height >= 0,
        step >= 1,
    ensures
        samples(width, height, rgba, step).len() == 0 <==> (width == 0 || height == 0),
{
    let gw = grid_len(width, step);
    let gh = grid_len(height, step);
    assert(width == 0 ==> gw == 0) by (nonlinear_arith)
        requires
            gw == (width + step - 1) / step,
            step >= 1,
    ;
    assert(height == 0 ==> gh == 0) by (nonlinear_arith)
        requires
            gh == (height + step - 1) / step,
            step >= 1,
    ;
    assert(width >= 1 ==> gw >= 1) by (nonlinear_arith)
        requires
            gw == (width + step - 1) / step,
            step >= 1,
    ;
    assert(height >= 1 ==> gh >= 1) by (nonlinear_arith)
        requires
            gh == (height + step - 1) / step,
            step >= 1,
    ;
    assert(gw >= 0 && gh >= 0) by (nonlinear_arith)
        requires
            gw == (width + step - 1) / step,
            gh == (height + step - 1) / step,
            step >= 1,
            width >= 0,
            height >= 0,
    ;
    assert((gw == 0 || gh == 0) <==> gw * gh == 0) by (nonlinear_arith)
        requires
            gw >= 0,
            gh >= 0,
    ;
    let g = grid(width, height, rgba, step);
    if g.len() == 0 {
        assert(g =~= Seq::<Pixel>::empty());
        assert(usable_colors(g).len() == 0);
    }
}

/// Number of grid steps along an edge of `len` pixels.
pub fn grid_count(len: u32, step: u32) -> (n: usize)
    requires
        step >= 1,
    ensures
        n == grid_len(len as int, step as int),
        n * step >= len,
        n == 0 || (n - 1) * step < len,
{
    let n: u64 = (len as u64 + step as u64 - 1) / step as u64;
    proof {
        let l = len as int;
        let s = step as int;
        let q = (l + s - 1) / s;
        assert(n == q);
        assert(q * s >= l && (q == 0 || (q - 1) * s < l)) by (nonlinear_arith)
            requires
                s >= 1,
                l >= 0,
                q == (l + s - 1) / s,
        ;
        assert(q <= l) by (nonlinear_arith)
            requires
                s >= 1,
                l >= 0,
                q * s >= l,
                q == 0 || (q - 1) * s < l,
        ;
    }
    n as usize
}

proof fn lemma_grid_index(j: int, row: int, col: int, cols: int)
    requires
        0 <= col < cols,
        0 <= row,
        j == row * cols + col,
    ensures
        j % cols == col,
        j / cols == row,
{
    vstd::arithmetic::div_mod::lemma_fundamental_div_mod_converse(j, cols, row, col);
}

/// The pixel at `(x, y)`.
pub fn pixel_at(img: &Bitmap, x: usize, y: usize) -> (p: Pixel)
    requires
        img.wf(),
        x < img.width,
        y < img.height,
    ensures
        p == ({
            let o = 4 * (y * img.width + x);
            (img.rgba@[o], img.rgba@[o + 1], img.rgba@[o + 2], img.rgba@[o + 3])
        }),
{
    proof {
        assert(4 * (y * img.width + x) + 3 < 4 * img.width * img.height) by (nonlinear_arith)
            requires
                x < img.width,
                y < img.height,
        ;
    }
    let o: usize = 4 * (y * img.width as usize + x);
    (img.rgba[o], img.rgba[o + 1], img.rgba[o + 2], img.rgba[o + 3])
}

/// All pixels of the stride grid, row by row.
#[verifier::rlimit(40)]
pub fn grid_pixels(img: &Bitmap, step: u32) -> (r: Vec<Pixel>)
    requires
        img.wf(),
        step >= 1,
    ensures
        r@ == grid(img.width as int, img.height as int, img.rgba@, step as int),
{
    let cols = grid_count(img.width, step);
    let rows = grid_count(img.height, step);
    let mut out: Vec<Pixel> = Vec::new();
    let mut row: usize = 0;
    while row < rows
        invariant
            0 <= row <= rows,
            img.wf(),
            step >= 1,
            cols == grid_len(img.width as int, step as int),
            rows == grid_len(img.height as int, step as int),
            rows == 0 || (rows - 1) * step < img.height,
            cols == 0 || (cols - 1) * step < img.width,
            out.len() == row * cols,
            forall|j: int| 0 <= j < out.len() ==> #[trigger] out@[j] == grid_pixel(img.width as int, img.rgba@, step as int, j),
        decreases rows - row,
    {
        proof {
            assert(row * step <= (rows - 1) * step) by (nonlinear_arith)
                requires
                    row <= rows - 1,
                    step >= 1,
            ;
        }
        let y: usize = row * step as usize;
        let mut col: usize = 0;
        while col < cols
            invariant
                0 <= col <= cols,
                row < rows,
                img.wf(),
                step >= 1,
                y == row * step,
                y < img.height,
                cols == grid_len(img.width as int, step as int),
                cols == 0 || (cols - 1) * step < img.width,
                out.len() == row * cols + col,
                forall|j: int| 0 <= j < out.len() ==> #[trigger] out@[j] == grid_pixel(img.width as int, img.rgba@, step as int, j),
            decreases cols - col,
        {
            proof {
                assert(col * step <= (cols - 1) * step) by (nonlinear_arith)
                    requires
                        col <= cols - 1,
                        step >= 1,
                ;
                lemma_grid_index(out.len() as int, row as int, col as int, cols as int);
            }
            let x: usize = col * step as usize;
            let p = pixel_at(img, x, y);
            out.push(p);
            col = col + 1;
        }
        proof {
            assert((row + 1) * cols == row * cols + cols) by (nonlinear_arith);
        }
        row = row + 1;
    }
    proof {
        assert(rows * cols == cols * rows) by (nonlinear_arith);
        assert(out@ =~= grid(img.width as int, img.height as int, img.rgba@, step as int));
    }
    out
}

/// The usable pixels of a list, as colors.
pub fn filter_usable(px: &Vec<Pixel>) -> (r: Vec<Rgb>)
    ensures
        r@ == usable_colors(px@),
{
    let mut out: Vec<Rgb> = Vec::new();
    let mut i: usize = 0;
    while i < px.len()
        invariant
            0 <= i <= px.len(),
            out@ == usable_colors(px@.subrange(0, i as int)),
        decreases px.len() - i,
    {
        proof {
            assert(px@.subrange(0, i + 1).drop_last() =~= px@.subrange(0, i as int));
        }
        let p = px[i];
        let sum: u32 = p.0 as u32 + p.1 as u32 + p.2 as u32;
        if p.3 >= 200 && sum * 100 > 8 * 765 && sum * 100 < 92 * 765 {
            out.push(Rgb::from_u8(p.0, p.1, p.2));
        }
        i = i + 1;
    }
    assert(px@.subrange(0, px.len() as int) =~= px@);
    out
}

/// Every pixel of a list, as a color.
pub fn all_colors(px: &Vec<Pixel>) -> (r: Vec<Rgb>)
    ensures
        r@ == px@.map_values(|p: Pixel| pixel_color(p)),
{
    let mut out: Vec<Rgb> = Vec::new();
    let mut i: usize = 0;
    while i < px.len()
        invariant
            0 <= i <= px.len(),
            out@ =~= px@.subrange(0, i as int).map_values(|p: Pixel| pixel_color(p)),
        decreases px.len() - i,
    {
        let p = px[i];
        out.push(Rgb::from_u8(p.0, p.1, p.2));
        i = i + 1;
    }
    assert(px@.subrange(0, px.len() as int) =~= px@);
    out
}

} // verus!
