//! The render pipeline: from a palette name and the two stages to the flat RGBA buffer.

use crate::error::RenderError;
use crate::palettes::Palette;
use crate::pixel::Pixel;
use crate::plane::{col_of, rgba_bytes, row_of, shaded, shades, stops_with, Plane};
use vstd::prelude::*;

verus! {

/// Whether `out` is an outcome of rendering a raster of `width` by `height` cells with the
/// palette `pal` under the cap `cap`: the buffer of the pixels of all cells, or the error of
/// the first cell, in row-major order, that has no pixel.
pub open spec fn renders_with<S: Fn(u32, u32) -> u32, C: Fn(Palette, u32, u32) -> Result<
    Pixel,
    RenderError,
>>(
    width: u32,
    height: u32,
    pal: Palette,
    cap: u32,
    sample: S,
    color: C,
    out: Result<Seq<u8>, RenderError>,
) -> bool {
    match out {
        Ok(bytes) => exists|pixels: Seq<Pixel>|
            #![trigger shaded(sample, color, pal, cap, width, pixels)]
            {
                &&& pixels.len() == width * height
                &&& shaded(sample, color, pal, cap, width, pixels)
                &&& bytes == rgba_bytes(pixels)
            },
        Err(e) => stops_with(sample, color, pal, cap, width, height, e),
    }
}

/// Whether `out` is an outcome of rendering with the palette called `name`. An unknown
/// name gives its error whatever the stages do; a known one gives what `renders_with`
/// says of its palette.
pub open spec fn renders<S: Fn(u32, u32) -> u32, C: Fn(Palette, u32, u32) -> Result<
    Pixel,
    RenderError,
>>(
    width: u32,
    height: u32,
    name: Seq<char>,
    cap: u32,
    sample: S,
    color: C,
    out: Result<Seq<u8>, RenderError>,
) -> bool {
    match Palette::named(name) {
        Err(e) => out == Err::<Seq<u8>, RenderError>(e),
        Ok(pal) => renders_with(width, height, pal, cap, sample, color, out),
    }
}

/// Renders the raster into the flat buffer that a surface takes: `width * height` pixels in
/// row-major order, four bytes each.
///
/// `palette` names the colouring strategy; an unknown name is refused before any cell is
/// looked at. For each cell `sample` gives the iteration count of the cell's point, and
/// `color` the pixel of that count under the cap `max_iters`. An error of `color` ends the
/// render, and no buffer is made.
pub fn render<S, C>(
    width: u32,
    height: u32,
    palette: &str,
    max_iters: u32,
    sample: S,
    color: C,
) -> (res: Result<Vec<u8>, RenderError>) where
    S: Fn(u32, u32) -> u32,
    C: Fn(Palette, u32, u32) -> Result<Pixel, RenderError>,

    requires
        forall|row: u32, col: u32|
            row < height && col < width ==> call_requires(sample, (row, col)),
        forall|pal: Palette, row: u32, col: u32, i: u32|
            Palette::named(palette@) == Ok::<Palette, RenderError>(pal) && call_ensures(
                sample,
                (row, col),
                i,
            ) ==> call_requires(color, (pal, i, max_iters)),
    ensures
        match res {
            Ok(bytes) => renders(width, height, palette@, max_iters, sample, color, Ok(bytes@)),
            Err(e) => renders(width, height, palette@, max_iters, sample, color, Err(e)),
        },
        res matches Ok(bytes) ==> bytes@.len() == 4 * (width * height),
{
    let pal: Palette = match Palette::from_name(palette) {
        Ok(pal) => pal,
        Err(e) => {
            return Err(e);
        },
    };
    let mut plane: Plane = Plane::new(width, height, max_iters);
    match plane.calculate_set(pal, sample, color) {
        Ok(()) => {
            let bytes: Vec<u8> = plane.to_bytes();
            assert(shaded(sample, color, pal, max_iters, width, plane@));
            Ok(bytes)
        },
        Err(e) => Err(e),
    }
}

/// Whether `sample` gives one count for each cell.
pub open spec fn sample_is_function<S: Fn(u32, u32) -> u32>(sample: S) -> bool {
    forall|row: u32, col: u32, i: u32, j: u32|
        call_ensures(sample, (row, col), i) && call_ensures(sample, (row, col), j) ==> i == j
}

/// Whether `color` gives one outcome for each palette, count and cap.
pub open spec fn color_is_function<C: Fn(Palette, u32, u32) -> Result<Pixel, RenderError>>(
    color: C,
) -> bool {
    forall|pal: Palette, i: u32, n: u32, p: Result<Pixel, RenderError>, q: Result<Pixel, RenderError>|
        call_ensures(color, (pal, i, n), p) && call_ensures(color, (pal, i, n), q) ==> p == q
}

/// With stages that are functions, a cell has one outcome.
proof fn lemma_one_shade<S: Fn(u32, u32) -> u32, C: Fn(Palette, u32, u32) -> Result<
    Pixel,
    RenderError,
>>(
    sample: S,
    color: C,
    pal: Palette,
    cap: u32,
    row: u32,
    col: u32,
    p: Result<Pixel, RenderError>,
    q: Result<Pixel, RenderError>,
)
    requires
        sample_is_function(sample),
        color_is_function(color),
        shades(sample, color, pal, cap, row, col, p),
        shades(sample, color, pal, cap, row, col, q),
    ensures
        p == q,
{
    let i = choose|i: u32| #[trigger]
        call_ensures(sample, (row, col), i) && call_ensures(color, (pal, i, cap), p);
    let j = choose|j: u32| #[trigger]
        call_ensures(sample, (row, col), j) && call_ensures(color, (pal, j, cap), q);
    assert(i == j);
}

/// With stages that are functions, a cell that fails lies beyond every run of cells that
/// have their pixels.
proof fn lemma_failure_is_beyond<S: Fn(u32, u32) -> u32, C: Fn(Palette, u32, u32) -> Result<
    Pixel,
    RenderError,
>>(sample: S, color: C, pal: Palette, cap: u32, width: u32, pixels: Seq<Pixel>, k: int, e: RenderError)
    requires
        sample_is_function(sample),
        color_is_function(color),
        shaded(sample, color, pal, cap, width, pixels),
        0 <= k,
        shades(sample, color, pal, cap, row_of(k, width), col_of(k, width), Err(e)),
    ensures
        pixels.len() <= k,
{
    if k < pixels.len() {
        lemma_one_shade(
            sample,
            color,
            pal,
            cap,
            row_of(k, width),
            col_of(k, width),
            Ok(pixels[k]),
            Err(e),
        );
    }
}

/// Rendering twice gives the same outcome: with the same size, palette name and cap, and
/// with stages that are functions, two outcomes of a render are equal, byte for byte where
/// they are buffers and error for error where they are not.
pub proof fn lemma_render_is_idempotent<S: Fn(u32, u32) -> u32, C: Fn(Palette, u32, u32) -> Result<
    Pixel,
    RenderError,
>>(
    width: u32,
    height: u32,
    name: Seq<char>,
    cap: u32,
    sample: S,
    color: C,
    first: Result<Seq<u8>, RenderError>,
    second: Result<Seq<u8>, RenderError>,
)
    requires
        sample_is_function(sample),
        color_is_function(color),
        renders(width, height, name, cap, sample, color, first),
        renders(width, height, name, cap, sample, color, second),
    ensures
        first == second,
{
    if let Ok(pal) = Palette::named(name) {
        // The pixels behind each outcome: all of them for a buffer, those before the
        // failing cell for an error.
        let pa = lemma_pixels_behind(width, height, pal, cap, sample, color, first);
        let pb = lemma_pixels_behind(width, height, pal, cap, sample, color, second);
        if let Err(d) = first {
            lemma_failure_is_beyond(sample, color, pal, cap, width, pb, pa.len() as int, d);
        }
        if let Err(e) = second {
            lemma_failure_is_beyond(sample, color, pal, cap, width, pa, pb.len() as int, e);
        }
        match (first, second) {
            (Ok(a), Ok(b)) => {
                assert forall|k: int| 0 <= k < pa.len() implies pa[k] == pb[k] by {
                    lemma_one_shade(
                        sample,
                        color,
                        pal,
                        cap,
                        row_of(k, width),
                        col_of(k, width),
                        Ok(pa[k]),
                        Ok(pb[k]),
                    );
                }
                assert(pa =~= pb);
            },
            (Err(d), Err(e)) => {
                let k = pa.len() as int;
                lemma_one_shade(
                    sample,
                    color,
                    pal,
                    cap,
                    row_of(k, width),
                    col_of(k, width),
                    Err(d),
                    Err(e),
                );
            },
            _ => {},
        }
    }
}

/// The pixels that an outcome of a render with a known palette rests on.
proof fn lemma_pixels_behind<S: Fn(u32, u32) -> u32, C: Fn(Palette, u32, u32) -> Result<
    Pixel,
    RenderError,
>>(
    width: u32,
    height: u32,
    pal: Palette,
    cap: u32,
    sample: S,
    color: C,
    out: Result<Seq<u8>, RenderError>,
) -> (pixels: Seq<Pixel>)
    requires
        renders_with(width, height, pal, cap, sample, color, out),
    ensures
        shaded(sample, color, pal, cap, width, pixels),
        match out {
            Ok(bytes) => pixels.len() == width * height && bytes == rgba_bytes(pixels),
            Err(e) => pixels.len() < width * height && shades(
                sample,
                color,
                pal,
                cap,
                row_of(pixels.len() as int, width),
                col_of(pixels.len() as int, width),
                Err(e),
            ),
        },
{
    match out {
        Ok(bytes) => choose|pixels: Seq<Pixel>|
            #![trigger shaded(sample, color, pal, cap, width, pixels)]
            pixels.len() == width * height && shaded(sample, color, pal, cap, width, pixels)
                && bytes == rgba_bytes(pixels),
        Err(e) => choose|done: Seq<Pixel>|
            #![trigger shaded(sample, color, pal, cap, width, done)]
            done.len() < width * height && shaded(sample, color, pal, cap, width, done) && shades(
                sample,
                color,
                pal,
                cap,
                row_of(done.len() as int, width),
                col_of(done.len() as int, width),
                Err(e),
            ),
    }
}

} // verus!
