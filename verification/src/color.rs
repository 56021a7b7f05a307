//! Colors and the pixel formats that decide how a color is laid out in memory.

use vstd::prelude::*;

verus! {

/// Four 8-bit channels. The fourth is written through to a format's fourth
/// byte where the format has one; it is never blended.
#[derive(Clone, Copy, Debug, PartialEq, Eq, Structural)]
pub struct Color {
    pub red: u8,
    pub green: u8,
    pub blue: u8,
    pub alpha: u8,
}

/// The channel order of a framebuffer.
#[derive(Clone, Copy, Debug, PartialEq, Eq, Structural)]
pub enum PixelFormat {
    /// Red, green, blue, then alpha.
    Rgb,
    /// Blue, green, red, then alpha.
    Bgr,
    /// Any other layout; nothing can be drawn in it.
    Other,
}

impl Color {
    /// The color with the given channels.
    pub fn rgba(red: u8, green: u8, blue: u8, alpha: u8) -> (color: Color)
        ensures
            color == (Color { red, green, blue, alpha }),
    {
        Color { red, green, blue, alpha }
    }
}

impl PixelFormat {
    /// Whether pixels can be written in this format.
    pub open spec fn supported(self) -> bool {
        self is Rgb || self is Bgr
    }

    /// The four channel bytes of `color` in the order this format stores
    /// them; empty for a format that is not supported.
    pub open spec fn channels(self, color: Color) -> Seq<u8> {
        match self {
            PixelFormat::Rgb => seq![color.red, color.green, color.blue, color.alpha],
            PixelFormat::Bgr => seq![color.blue, color.green, color.red, color.alpha],
            PixelFormat::Other => Seq::empty(),
        }
    }

    /// The bytes that one pixel of `color` occupies: the channel bytes cut
    /// down to `bytes_per_pixel`.
    pub open spec fn encode(self, color: Color, bytes_per_pixel: nat) -> Seq<u8> {
        self.channels(color).take(bytes_per_pixel as int)
    }

    pub fn is_supported(&self) -> (yes: bool)
        ensures
            yes == self.supported(),
    {
        match self {
            PixelFormat::Rgb => true,
            PixelFormat::Bgr => true,
            PixelFormat::Other => false,
        }
    }

    /// Arranges the channels of `color` for this format, or `None` where the
    /// format is not supported.
    pub fn pack(&self, color: Color) -> (packed: Option<[u8; 4]>)
        ensures
            packed is Some <==> self.supported(),
            packed matches Some(bytes) ==> bytes@ == self.channels(color),
    {
        match self {
            PixelFormat::Rgb => Some([color.red, color.green, color.blue, color.alpha]),
            PixelFormat::Bgr => Some([color.blue, color.green, color.red, color.alpha]),
            PixelFormat::Other => None,
        }
    }
}

} // verus!
