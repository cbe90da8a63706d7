//! The colouring strategies: from an iteration count to a pixel.
//!
//! The basic palette is integer arithmetic throughout. The other three shape their tone with
//! floating-point curves; what stands here is their last step, which takes the curve's values
//! as wide integers and makes the pixel.

use crate::error::RenderError;
use crate::pixel::{channel, truncate_channel, Pixel};
use vstd::prelude::*;
use vstd::utf8::{decode_utf8, encode_utf8, encode_utf8_decode_utf8};

verus! {

/// Whether two strings hold the same text.
fn same_text(a: &str, b: &str) -> (same: bool)
    ensures
        same == (a@ == b@),
{
    let x = a.as_bytes();
    let y = b.as_bytes();
    proof {
        encode_utf8_decode_utf8(a@);
        encode_utf8_decode_utf8(b@);
    }
    if x.len() != y.len() {
        return false;
    }
    let mut k: usize = 0;
    while k < x.len()
        invariant
            k <= x.len(),
            x.len() == y.len(),
            forall|j: int| 0 <= j < k ==> x@[j] == y@[j],
            x@ == encode_utf8(a@),
            y@ == encode_utf8(b@),
            decode_utf8(x@) == a@,
            decode_utf8(y@) == b@,
        decreases x.len() - k,
    {
        if x[k] != y[k] {
            return false;
        }
        k += 1;
    }
    assert(x@ =~= y@);
    true
}

/// The colouring strategies that a render can be asked for.
#[derive(Clone, Copy, Debug, PartialEq, Eq, Structural)]
pub enum Palette {
    Basic,
    Hsv,
    Rgb,
    Lch,
}

impl Palette {
    /// The strategy that a name stands for.
    pub open spec fn named(name: Seq<char>) -> Result<Palette, RenderError> {
        if name == "basic"@ {
            Ok(Palette::Basic)
        } else if name == "hsv"@ {
            Ok(Palette::Hsv)
        } else if name == "rgb"@ {
            Ok(Palette::Rgb)
        } else if name == "lch"@ {
            Ok(Palette::Lch)
        } else {
            Err(RenderError::UnknownPalette)
        }
    }

    /// Selects a strategy by its name: `"basic"`, `"hsv"`, `"rgb"` or `"lch"`, in exactly
    /// this spelling. Any other name is refused as unknown.
    pub fn from_name(name: &str) -> (res: Result<Palette, RenderError>)
        ensures
            res == Palette::named(name@),
    {
        if same_text(name, "basic") {
            Ok(Palette::Basic)
        } else if same_text(name, "hsv") {
            Ok(Palette::Hsv)
        } else if same_text(name, "rgb") {
            Ok(Palette::Rgb)
        } else if same_text(name, "lch") {
            Ok(Palette::Lch)
        } else {
            Err(RenderError::UnknownPalette)
        }
    }
}

/// Half of `v`, rounded down.
fn floor_half(v: i64) -> (h: i64)
    requires
        i64::MIN + 2 <= v,
    ensures
        h == (v as int) / 2,
{
    if v >= 0 {
        v / 2
    } else {
        -((1 - v) / 2)
    }
}

/// The basic palette: three bands of blue-tinted ramps, by the iteration count alone.
#[derive(Clone, Copy, Debug, PartialEq, Eq)]
pub struct BasicColoring;

impl BasicColoring {
    /// The first band: counts below 16.
    pub open spec fn in_low_band(i: int) -> bool {
        i < 16
    }

    /// The second band: counts from 16 up to, but not including, 64.
    pub open spec fn in_mid_band(i: int) -> bool {
        16 <= i < 64
    }

    /// The third band: counts from 64 on.
    pub open spec fn in_high_band(i: int) -> bool {
        i >= 64
    }

    /// The red, green and blue values of the count `i` before they are cut down to
    /// eight bits. A count that no band holds would be black; `lemma_bands_cover`
    /// shows that there is none.
    pub open spec fn wide_rgb(i: int) -> (int, int, int) {
        if Self::in_low_band(i) {
            (8 * i, 8 * i, 128 + 4 * i)
        } else if Self::in_mid_band(i) {
            (112 + i, 112 + i, 176 + i)
        } else if Self::in_high_band(i) {
            (319 - i, (128 + (319 - i)) / 2, 319 - i)
        } else {
            (0, 0, 0)
        }
    }

    /// The channels of the count `i`: the wide values, each cut down to eight bits.
    pub open spec fn rgb_of(i: int) -> (u8, u8, u8) {
        let wide = Self::wide_rgb(i);
        (channel(wide.0), channel(wide.1), channel(wide.2))
    }

    /// Every count lies in exactly one of the three bands.
    pub proof fn lemma_bands_cover(i: int)
        ensures
            Self::in_low_band(i) || Self::in_mid_band(i) || Self::in_high_band(i),
            !(Self::in_low_band(i) && Self::in_mid_band(i)),
            !(Self::in_low_band(i) && Self::in_high_band(i)),
            !(Self::in_mid_band(i) && Self::in_high_band(i)),
    {
    }

    /// Up to the count 319 every wide value is a channel value already, so that cutting
    /// it down changes nothing.
    pub proof fn lemma_channels_fit(i: int)
        requires
            0 <= i <= 319,
        ensures
            0 <= Self::wide_rgb(i).0 <= 255,
            0 <= Self::wide_rgb(i).1 <= 255,
            0 <= Self::wide_rgb(i).2 <= 255,
            Self::rgb_of(i) == (
                Self::wide_rgb(i).0 as u8,
                Self::wide_rgb(i).1 as u8,
                Self::wide_rgb(i).2 as u8,
            ),
    {
    }

    /// The pixel of the iteration count `i`. The cap does not enter: the three bands cover
    /// every count, the cap itself and what lies above it included.
    pub fn color(&self, i: u32, _n: u32) -> (p: Pixel)
        ensures
            p.rgb() == Self::rgb_of(i as int),
    {
        let i: i64 = i as i64;
        let (r, g, b): (i64, i64, i64) = if i < 16 {
            (8 * i, 8 * i, 128 + 4 * i)
        } else if i < 64 {
            (112 + i, 112 + i, 176 + i)
        } else {
            let r: i64 = 319 - i;
            (r, floor_half(128 + r), r)
        };
        Pixel::new(truncate_channel(r), truncate_channel(g), truncate_channel(b))
    }
}

/// The hue-sector palette. Its tone curve gives a hue in one of six sectors and a second
/// channel value; the sector decides which channels are full, which take the second value
/// and which stay dark.
#[derive(Clone, Copy, Debug, PartialEq, Eq)]
pub struct HsvColoring;

/// The number of hue sectors.
pub const HUE_SECTORS: u32 = 6;

/// The value of the channel that a hue sector keeps full.
pub const FULL: u8 = 255;

impl HsvColoring {
    /// The channels of a hue sector, `x` being the second value. Black beyond the sixth
    /// sector, where `quantize` gives no pixel.
    pub open spec fn sector_rgb(sector: int, x: u8) -> (u8, u8, u8) {
        if sector == 0 {
            (FULL, x, 0)
        } else if sector == 1 {
            (x, FULL, 0)
        } else if sector == 2 {
            (0, FULL, x)
        } else if sector == 3 {
            (0, x, FULL)
        } else if sector == 4 {
            (x, 0, FULL)
        } else if sector == 5 {
            (FULL, 0, x)
        } else {
            (0, 0, 0)
        }
    }

    /// The pixel of a hue sector and the wide second value `x`, which is cut down to eight
    /// bits. A sector beyond the sixth is an error.
    pub fn quantize(&self, sector: u32, x: i64) -> (res: Result<Pixel, RenderError>)
        ensures
            sector < HUE_SECTORS ==> res is Ok && res->Ok_0.rgb() == Self::sector_rgb(
                sector as int,
                channel(x as int),
            ),
            sector >= HUE_SECTORS ==> res == Err::<Pixel, RenderError>(
                RenderError::HueOutOfRange,
            ),
    {
        let x: u8 = truncate_channel(x);
        match sector {
            0 => Ok(Pixel::new(FULL, x, 0)),
            1 => Ok(Pixel::new(x, FULL, 0)),
            2 => Ok(Pixel::new(0, FULL, x)),
            3 => Ok(Pixel::new(0, x, FULL)),
            4 => Ok(Pixel::new(x, 0, FULL)),
            5 => Ok(Pixel::new(FULL, 0, x)),
            _ => Err(RenderError::HueOutOfRange),
        }
    }
}

/// The grey palette: one tone value on all three channels.
#[derive(Clone, Copy, Debug, PartialEq, Eq)]
pub struct RgbNormalizedColoring;

impl RgbNormalizedColoring {
    /// The grey pixel of the wide tone `value`, cut down to eight bits.
    pub fn quantize(&self, value: i64) -> (p: Pixel)
        ensures
            p.rgb() == (channel(value as int), channel(value as int), channel(value as int)),
    {
        let tone: u8 = truncate_channel(value);
        Pixel::new(tone, tone, tone)
    }
}

/// The lightness-chroma-hue palette, whose conversion ends in three wide channel values.
#[derive(Clone, Copy, Debug, PartialEq, Eq)]
pub struct LchColoring;

impl LchColoring {
    /// The pixel of three wide channel values, each cut down to eight bits by itself.
    pub fn quantize(&self, red: i64, green: i64, blue: i64) -> (p: Pixel)
        ensures
            p.rgb() == (channel(red as int), channel(green as int), channel(blue as int)),
    {
        Pixel::new(truncate_channel(red), truncate_channel(green), truncate_channel(blue))
    }
}

} // verus!
