//! The font: pre-rasterized glyphs of Noto Sans Mono, looked up by character,
//! weight and raster height.

use vstd::prelude::*;
use noto_sans_mono_bitmap::get_raster;
use crate::glyph::{glyph_view, GlyphRaster, GlyphView};

verus! {

/// The weights that the font is built with.
#[derive(Clone, Copy, Debug, PartialEq, Eq, Structural)]
pub enum FontWeight {
    /// The regular weight.
    Regular,
}

/// The raster heights that the font is built with.
#[derive(Clone, Copy, Debug, PartialEq, Eq, Structural)]
pub enum RasterHeight {
    /// Rasters of 16 rows.
    Size16,
}

/// The width in pixels that every glyph of one weight and raster height has.
pub open spec fn glyph_width(weight: FontWeight, height: RasterHeight) -> nat {
    match (weight, height) {
        (FontWeight::Regular, RasterHeight::Size16) => 7,
    }
}

/// The glyph that the font holds for `c` in the given weight and raster
/// height, or `None` where it holds none.
pub uninterp spec fn font_glyph(c: char, weight: FontWeight, height: RasterHeight) -> Option<GlyphView>;

/// Looks `c` up with `noto_sans_mono_bitmap::get_raster`.
///
/// Believed, not proved: the lookup depends on its arguments alone, so its
/// result is the value that [`font_glyph`] names; and a glyph that is found
/// is as wide as every other of its weight and raster height, which is
/// [`glyph_width`] pixels.
#[verifier::external_body]
pub(crate) fn lookup_glyph(
    c: char,
    weight: FontWeight,
    height: RasterHeight,
) -> (glyph: Option<GlyphRaster<'static>>)
    ensures
        glyph_view(glyph) == font_glyph(c, weight, height),
        glyph matches Some(raster) ==> raster.width == glyph_width(weight, height),
{
    let style = match weight {
        FontWeight::Regular => noto_sans_mono_bitmap::FontWeight::Regular,
    };
    let size = match height {
        RasterHeight::Size16 => noto_sans_mono_bitmap::RasterHeight::Size16,
    };
    match get_raster(c, style, size) {
        Some(found) => Some(
            GlyphRaster { width: found.width(), height: found.height(), rows: found.raster() },
        ),
        None => None,
    }
}

} // verus!
