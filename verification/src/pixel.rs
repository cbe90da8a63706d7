//! Pixels and 8-bit channels.

use vstd::prelude::*;

verus! {

/// The alpha value of every pixel: fully opaque.
pub const OPAQUE: u8 = 255;

/// The 8-bit channel that a wide channel value is cut down to: its low eight bits,
/// that is the value modulo 256 (never negative).
pub open spec fn channel(v: int) -> u8 {
    (v % 256) as u8
}

/// Cuts a wide channel value down to eight bits. Values outside `0..=255` wrap around;
/// nothing is clamped.
pub fn truncate_channel(v: i64) -> (c: u8)
    ensures
        c == channel(v as int),
        0 <= v <= 255 ==> c == v,
{
    let low: i64 = v & 0xff;
    assert(0 <= low < 256 && low == (v as int) % 256) by (bit_vector)
        requires
            low == v & 0xff,
    ;
    low as u8
}

/// One raster cell: red, green and blue channels, and an alpha channel that is always
/// fully opaque.
#[derive(Clone, Copy, Debug, PartialEq, Eq)]
pub struct Pixel {
    red: u8,
    green: u8,
    blue: u8,
    alpha: u8,
}

impl View for Pixel {
    type V = Seq<u8>;

    /// The four bytes of the pixel in the order in which a surface reads them.
    open spec fn view(&self) -> Seq<u8> {
        seq![self.red(), self.green(), self.blue(), OPAQUE]
    }
}

impl Pixel {
    #[verifier::type_invariant]
    spec fn is_opaque(self) -> bool {
        self.alpha == OPAQUE
    }

    pub closed spec fn spec_red(&self) -> u8 {
        self.red
    }

    pub closed spec fn spec_green(&self) -> u8 {
        self.green
    }

    pub closed spec fn spec_blue(&self) -> u8 {
        self.blue
    }

    /// The red, green and blue channels as one value.
    pub open spec fn rgb(&self) -> (u8, u8, u8) {
        (self.red(), self.green(), self.blue())
    }

    /// An opaque pixel with the given channels.
    pub fn new(red: u8, green: u8, blue: u8) -> (p: Pixel)
        ensures
            p.rgb() == (red, green, blue),
    {
        Pixel { red, green, blue, alpha: OPAQUE }
    }

    #[verifier::when_used_as_spec(spec_red)]
    pub fn red(&self) -> (c: u8)
        ensures
            c == self.red(),
    {
        self.red
    }

    #[verifier::when_used_as_spec(spec_green)]
    pub fn green(&self) -> (c: u8)
        ensures
            c == self.green(),
    {
        self.green
    }

    #[verifier::when_used_as_spec(spec_blue)]
    pub fn blue(&self) -> (c: u8)
        ensures
            c == self.blue(),
    {
        self.blue
    }

    /// The alpha channel, which is `OPAQUE` for every pixel.
    pub fn alpha(&self) -> (a: u8)
        ensures
            a == OPAQUE,
    {
        proof {
            use_type_invariant(self);
        }
        self.alpha
    }

    /// The four bytes of the pixel: red, green, blue, alpha.
    pub fn to_rgba(&self) -> (bytes: [u8; 4])
        ensures
            bytes@ == self@,
    {
        proof {
            use_type_invariant(self);
        }
        [self.red, self.green, self.blue, self.alpha]
    }
}

} // verus!
