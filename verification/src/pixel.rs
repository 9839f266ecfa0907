//! Pixel types and per-pixel predicates.

use vstd::prelude::*;

verus! {

/// One 8-bit RGBA pixel.
#[derive(Clone, Copy, Debug, PartialEq, Eq, Structural)]
pub struct Rgba {
    pub red: u8,
    pub green: u8,
    pub blue: u8,
    pub alpha: u8,
}

/// One 8-bit RGB color triple, as it appears in feature data.
#[derive(Clone, Copy, Debug, PartialEq, Eq, Structural)]
pub struct PixelColor {
    pub red: u8,
    pub green: u8,
    pub blue: u8,
}

impl Rgba {
    /// An opaque pixel from its three color channels.
    pub fn opaque(red: u8, green: u8, blue: u8) -> (r: Rgba)
        ensures
            r == (Rgba { red, green, blue, alpha: 255u8 }),
    {
        Rgba { red, green, blue, alpha: 255 }
    }

    /// The color channels alone.
    pub fn color(&self) -> (r: PixelColor)
        ensures
            r == (PixelColor { red: self.red, green: self.green, blue: self.blue }),
    {
        PixelColor { red: self.red, green: self.green, blue: self.blue }
    }
}

/// A pixel counts as bright when every color channel exceeds the threshold.
pub open spec fn spec_is_bright(p: Rgba, threshold: u8) -> bool {
    p.red > threshold && p.green > threshold && p.blue > threshold
}

/// Executable form of [`spec_is_bright`].
pub fn is_bright(p: &Rgba, threshold: u8) -> (r: bool)
    ensures
        r == spec_is_bright(*p, threshold),
{
    p.red > threshold && p.green > threshold && p.blue > threshold
}

/// The largest of the three color channels.
pub open spec fn spec_channel_max(p: Rgba) -> u8 {
    if p.red >= p.green && p.red >= p.blue {
        p.red
    } else if p.green >= p.blue {
        p.green
    } else {
        p.blue
    }
}

/// The smallest of the three color channels.
pub open spec fn spec_channel_min(p: Rgba) -> u8 {
    if p.red <= p.green && p.red <= p.blue {
        p.red
    } else if p.green <= p.blue {
        p.green
    } else {
        p.blue
    }
}

/// A pixel is near-uniform when its color channels span at most `band` levels.
pub open spec fn spec_is_flat(p: Rgba, band: u8) -> bool {
    spec_channel_max(p) - spec_channel_min(p) <= band
}

/// Executable form of [`spec_is_flat`].
pub fn is_flat(p: &Rgba, band: u8) -> (r: bool)
    ensures
        r == spec_is_flat(*p, band),
{
    let hi: u8 = if p.red >= p.green && p.red >= p.blue {
        p.red
    } else if p.green >= p.blue {
        p.green
    } else {
        p.blue
    };
    let lo: u8 = if p.red <= p.green && p.red <= p.blue {
        p.red
    } else if p.green <= p.blue {
        p.green
    } else {
        p.blue
    };
    hi - lo <= band
}

} // verus!
