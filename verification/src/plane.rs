//! The raster: its cells in row-major order, their pixels, and the flat byte buffer.

use crate::error::RenderError;
use crate::palettes::Palette;
use crate::pixel::{Pixel, OPAQUE};
use vstd::arithmetic::div_mod::{lemma_fundamental_div_mod, lemma_fundamental_div_mod_converse};
use vstd::prelude::*;

verus! {

/// The row of the `k`-th cell of a raster that is `width` cells wide, rows first.
pub open spec fn row_of(k: int, width: u32) -> u32 {
    (k / (width as int)) as u32
}

/// The column of the `k`-th cell of a raster that is `width` cells wide.
pub open spec fn col_of(k: int, width: u32) -> u32 {
    (k % (width as int)) as u32
}

/// Row-major order numbers the cells without gaps: the cell in `row` and `col` of a raster
/// of `width` by `height` cells has the index `row * width + col`, which lies below
/// `width * height` and leads back to that row and column.
pub proof fn lemma_index_of_cell(row: u32, col: u32, width: u32, height: u32)
    requires
        row < height,
        col < width,
    ensures
        0 <= row * width + col < width * height,
        row_of(row * width + col, width) == row,
        col_of(row * width + col, width) == col,
{
    lemma_fundamental_div_mod_converse(row * width + col, width as int, row as int, col as int);
    assert(row * width + col < width * height) by (nonlinear_arith)
        requires
            row < height,
            col < width,
    ;
}

/// Every index below `width * height` is that of one cell of the raster: its row lies
/// below `height`, its column below `width`, and the two give the index back.
pub proof fn lemma_cell_of_index(k: int, width: u32, height: u32)
    requires
        0 <= k < width * height,
    ensures
        row_of(k, width) < height,
        col_of(k, width) < width,
        row_of(k, width) * width + col_of(k, width) == k,
{
    let w = width as int;
    assert(w > 0) by (nonlinear_arith)
        requires
            0 <= k < w * height,
            w >= 0,
    ;
    lemma_fundamental_div_mod(k, w);
    let q = k / w;
    let r = k % w;
    assert(0 <= q < height) by (nonlinear_arith)
        requires
            k == w * q + r,
            0 <= r < w,
            0 <= k < w * height,
    ;
    assert(w * q == q * w) by (nonlinear_arith);
}

/// Whether the two stages of a render can give `out` for the cell in `row` and `col`:
/// `sample` gives an iteration count for the cell, and `color` gives `out` for that count
/// under the cap.
pub open spec fn shades<S: Fn(u32, u32) -> u32, C: Fn(Palette, u32, u32) -> Result<
    Pixel,
    RenderError,
>>(
    sample: S,
    color: C,
    pal: Palette,
    cap: u32,
    row: u32,
    col: u32,
    out: Result<Pixel, RenderError>,
) -> bool {
    exists|i: u32|
        #[trigger] call_ensures(sample, (row, col), i) && call_ensures(color, (pal, i, cap), out)
}

/// Whether `pixels` are the pixels of the first `pixels.len()` cells in row-major order.
pub open spec fn shaded<S: Fn(u32, u32) -> u32, C: Fn(Palette, u32, u32) -> Result<
    Pixel,
    RenderError,
>>(sample: S, color: C, pal: Palette, cap: u32, width: u32, pixels: Seq<Pixel>) -> bool {
    forall|k: int|
        0 <= k < pixels.len() ==> shades(
            sample,
            color,
            pal,
            cap,
            row_of(k, width),
            col_of(k, width),
            Ok(#[trigger] pixels[k]),
        )
}

/// Whether the render stops with the error `e`: the cells before some cell have their
/// pixels, and that cell, the first to fail, gives `e`.
pub open spec fn stops_with<S: Fn(u32, u32) -> u32, C: Fn(Palette, u32, u32) -> Result<
    Pixel,
    RenderError,
>>(sample: S, color: C, pal: Palette, cap: u32, width: u32, height: u32, e: RenderError) -> bool {
    exists|done: Seq<Pixel>|
        #![trigger shaded(sample, color, pal, cap, width, done)]
        {
            &&& done.len() < width * height
            &&& shaded(sample, color, pal, cap, width, done)
            &&& shades(
                sample,
                color,
                pal,
                cap,
                row_of(done.len() as int, width),
                col_of(done.len() as int, width),
                Err(e),
            )
        }
}

/// The flat buffer of a pixel sequence: four bytes for each pixel, in order.
pub open spec fn rgba_bytes(pixels: Seq<Pixel>) -> Seq<u8> {
    Seq::new(4 * pixels.len(), |k: int| pixels[k / 4]@[k % 4])
}

/// Where the bytes of each pixel lie in the flat buffer, and that every fourth byte is
/// the opaque alpha.
pub proof fn lemma_rgba_layout(pixels: Seq<Pixel>, k: int)
    requires
        0 <= k < pixels.len(),
    ensures
        rgba_bytes(pixels).len() == 4 * pixels.len(),
        rgba_bytes(pixels)[4 * k] == pixels[k].red(),
        rgba_bytes(pixels)[4 * k + 1] == pixels[k].green(),
        rgba_bytes(pixels)[4 * k + 2] == pixels[k].blue(),
        rgba_bytes(pixels)[4 * k + 3] == OPAQUE,
{
}

/// The pixels of all cells of a raster in row-major order, or the error of the first cell
/// that has none.
#[verifier::loop_isolation(false)]
fn shade_cells<S, C>(
    width: u32,
    height: u32,
    cap: u32,
    pal: Palette,
    sample: S,
    color: C,
) -> (res: Result<Vec<Pixel>, RenderError>) where
    S: Fn(u32, u32) -> u32,
    C: Fn(Palette, u32, u32) -> Result<Pixel, RenderError>,

    requires
        forall|row: u32, col: u32|
            row < height && col < width ==> call_requires(sample, (row, col)),
        forall|row: u32, col: u32, i: u32|
            call_ensures(sample, (row, col), i) ==> call_requires(color, (pal, i, cap)),
    ensures
        match res {
            Ok(pixels) => {
                &&& pixels@.len() == width * height
                &&& shaded(sample, color, pal, cap, width, pixels@)
            },
            Err(e) => stops_with(sample, color, pal, cap, width, height, e),
        },
{
    let mut pixels: Vec<Pixel> = Vec::new();
    let mut row: u32 = 0;
    while row < height
        invariant
            row <= height,
            pixels@.len() == row * width,
            shaded(sample, color, pal, cap, width, pixels@),
        decreases height - row,
    {
        let mut col: u32 = 0;
        while col < width
            invariant
                row < height,
                col <= width,
                pixels@.len() == row * width + col,
                shaded(sample, color, pal, cap, width, pixels@),
            decreases width - col,
        {
            let ghost done = pixels@;
            proof {
                lemma_index_of_cell(row, col, width, height);
            }
            let i: u32 = sample(row, col);
            match color(pal, i, cap) {
                Ok(pixel) => {
                    pixels.push(pixel);
                    assert forall|k: int| 0 <= k < pixels@.len() implies shades(
                        sample,
                        color,
                        pal,
                        cap,
                        row_of(k, width),
                        col_of(k, width),
                        Ok(#[trigger] pixels@[k]),
                    ) by {
                        if k < done.len() {
                            assert(pixels@[k] == done[k]);
                        }
                    }
                },
                Err(e) => {
                    return Err(e);
                },
            }
            col += 1;
        }
        assert((row + 1) * width == row * width + width) by (nonlinear_arith);
        row += 1;
    }
    assert(height * width == width * height) by (nonlinear_arith);
    Ok(pixels)
}

/// A raster of `width` by `height` cells under an iteration cap. It holds no pixels until
/// the set has been calculated, and one pixel for each cell from then on.
pub struct Plane {
    width: u32,
    height: u32,
    max_iters: u32,
    pixels: Vec<Pixel>,
}

impl View for Plane {
    type V = Seq<Pixel>;

    /// The pixels calculated so far, in row-major order.
    closed spec fn view(&self) -> Seq<Pixel> {
        self.pixels@
    }
}

impl Plane {
    #[verifier::type_invariant]
    spec fn empty_or_full(self) -> bool {
        self.pixels@.len() == 0 || self.pixels@.len() == self.width * self.height
    }

    pub closed spec fn spec_width(&self) -> u32 {
        self.width
    }

    pub closed spec fn spec_height(&self) -> u32 {
        self.height
    }

    pub closed spec fn spec_max_iters(&self) -> u32 {
        self.max_iters
    }

    /// The number of cells.
    pub open spec fn cells(&self) -> int {
        self.width() * self.height()
    }

    /// An empty raster of the given size and cap.
    pub fn new(width: u32, height: u32, max_iters: u32) -> (plane: Plane)
        ensures
            plane.width() == width,
            plane.height() == height,
            plane.max_iters() == max_iters,
            plane@ == Seq::<Pixel>::empty(),
    {
        Plane { width, height, max_iters, pixels: Vec::new() }
    }

    #[verifier::when_used_as_spec(spec_width)]
    pub fn width(&self) -> (w: u32)
        ensures
            w == self.width(),
    {
        self.width
    }

    #[verifier::when_used_as_spec(spec_height)]
    pub fn height(&self) -> (h: u32)
        ensures
            h == self.height(),
    {
        self.height
    }

    #[verifier::when_used_as_spec(spec_max_iters)]
    pub fn max_iters(&self) -> (n: u32)
        ensures
            n == self.max_iters(),
    {
        self.max_iters
    }

    /// The pixels calculated so far, in row-major order: none, or one for each cell.
    pub fn pixels(&self) -> (pixels: &Vec<Pixel>)
        ensures
            pixels@ == self@,
            pixels@.len() == 0 || pixels@.len() == self.cells(),
    {
        proof {
            use_type_invariant(self);
        }
        &self.pixels
    }

    /// Calculates the pixel of every cell, row by row from the top and from left to right
    /// within a row. For each cell `sample` gives the iteration count and `color` the pixel
    /// of that count under the raster's cap. Whatever the raster held before is dropped.
    ///
    /// The first cell for which `color` fails ends the calculation with that error, and the
    /// raster is left without pixels.
    pub fn calculate_set<S, C>(&mut self, pal: Palette, sample: S, color: C) -> (res: Result<
        (),
        RenderError,
    >) where S: Fn(u32, u32) -> u32, C: Fn(Palette, u32, u32) -> Result<Pixel, RenderError>
        requires
            forall|row: u32, col: u32|
                row < old(self).height() && col < old(self).width() ==> call_requires(
                    sample,
                    (row, col),
                ),
            forall|row: u32, col: u32, i: u32|
                call_ensures(sample, (row, col), i) ==> call_requires(
                    color,
                    (pal, i, old(self).max_iters()),
                ),
        ensures
            final(self).width() == old(self).width(),
            final(self).height() == old(self).height(),
            final(self).max_iters() == old(self).max_iters(),
            match res {
                Ok(()) => {
                    &&& final(self)@.len() == final(self).cells()
                    &&& shaded(
                        sample,
                        color,
                        pal,
                        final(self).max_iters(),
                        final(self).width(),
                        final(self)@,
                    )
                },
                Err(e) => {
                    &&& final(self)@.len() == 0
                    &&& stops_with(
                        sample,
                        color,
                        pal,
                        final(self).max_iters(),
                        final(self).width(),
                        final(self).height(),
                        e,
                    )
                },
            },
    {
        match shade_cells(self.width, self.height, self.max_iters, pal, sample, color) {
            Ok(pixels) => {
                self.pixels = pixels;
                Ok(())
            },
            Err(e) => {
                self.pixels = Vec::new();
                Err(e)
            },
        }
    }

    /// The flat buffer for a surface: the pixels in order, four bytes each (red, green,
    /// blue, alpha).
    pub fn to_bytes(&self) -> (bytes: Vec<u8>)
        ensures
            bytes@ == rgba_bytes(self@),
    {
        let mut bytes: Vec<u8> = Vec::new();
        let mut k: usize = 0;
        while k < self.pixels.len()
            invariant
                k <= self.pixels@.len(),
                bytes@.len() == 4 * k,
                forall|j: int| 0 <= j < 4 * k ==> bytes@[j] == rgba_bytes(self.pixels@)[j],
            decreases self.pixels@.len() - k,
        {
            let rgba: [u8; 4] = self.pixels[k].to_rgba();
            bytes.push(rgba[0]);
            bytes.push(rgba[1]);
            bytes.push(rgba[2]);
            bytes.push(rgba[3]);
            k += 1;
        }
        assert(bytes@ =~= rgba_bytes(self@));
        bytes
    }
}

} // verus!
