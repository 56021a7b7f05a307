//! Single-line text: measuring a string, and drawing it left to right.

use vstd::prelude::*;
use crate::color::Color;
use crate::font::{font_glyph, lookup_glyph, FontWeight, RasterHeight};
use crate::glyph::{glyph_view, GlyphRaster, GlyphView};
use crate::shape::rect;
use crate::sink::PixelSink;
use crate::surface::Surface;

verus! {

/// The weight in which text is set.
pub const WEIGHT: FontWeight = FontWeight::Regular;

/// The raster height in which text is set.
pub const RASTER_HEIGHT: RasterHeight = RasterHeight::Size16;

/// The space that follows every glyph, in pixels.
pub const TRACKING: usize = 1;

/// What a character without a glyph adds to a measured width.
pub const FALLBACK_ADVANCE: usize = 8;

/// The height of the line in which the placeholder of a character without a
/// glyph stands.
pub const FALLBACK_LINE_HEIGHT: usize = 16;

/// The width of the placeholder box drawn for a character without a glyph.
pub const FALLBACK_BOX_WIDTH: usize = 6;

/// The height of the placeholder box drawn for a character without a glyph.
pub const FALLBACK_BOX_HEIGHT: usize = 10;

/// The most that one character adds to a measured width: the width of a
/// glyph of the font and its tracking, or the fallback advance.
pub const MAX_ADVANCE: usize = 8;

/// The glyphs that the font holds for the characters of `text`, in order.
pub open spec fn glyphs_of(text: Seq<char>) -> Seq<Option<GlyphView>> {
    text.map_values(|c: char| font_glyph(c, WEIGHT, RASTER_HEIGHT))
}

/// What one character adds to a measured width: the glyph's width and the
/// tracking, or the fallback advance where the glyph is missing.
pub open spec fn measured_advance(glyph: Option<GlyphView>) -> nat {
    match glyph {
        Some(raster) => raster.width + TRACKING as nat,
        None => FALLBACK_ADVANCE as nat,
    }
}

/// The height that one character asks of its line.
pub open spec fn measured_height(glyph: Option<GlyphView>) -> nat {
    match glyph {
        Some(raster) => raster.height,
        None => FALLBACK_LINE_HEIGHT as nat,
    }
}

/// The sum of the measured advances of `glyphs`.
pub open spec fn advance_sum(glyphs: Seq<Option<GlyphView>>) -> nat
    decreases glyphs.len(),
{
    if glyphs.len() == 0 {
        0
    } else {
        advance_sum(glyphs.drop_last()) + measured_advance(glyphs.last())
    }
}

/// The largest measured height among `glyphs`, or 0 where there is none.
pub open spec fn tallest(glyphs: Seq<Option<GlyphView>>) -> nat
    decreases glyphs.len(),
{
    if glyphs.len() == 0 {
        0
    } else if tallest(glyphs.drop_last()) >= measured_height(glyphs.last()) {
        tallest(glyphs.drop_last())
    } else {
        measured_height(glyphs.last())
    }
}

/// The width and height of a line of `glyphs`: the advances summed, less
/// the tracking after the last glyph, and the largest height. An empty line
/// measures 0 by 0.
pub open spec fn extent(glyphs: Seq<Option<GlyphView>>) -> (nat, nat) {
    (
        if advance_sum(glyphs) >= TRACKING {
            (advance_sum(glyphs) - TRACKING) as nat
        } else {
            0
        },
        tallest(glyphs),
    )
}

/// How far the pen moves after one character is drawn: past the glyph and
/// the tracking, or past the placeholder box and the tracking.
pub open spec fn pen_advance(glyph: Option<GlyphView>) -> nat {
    match glyph {
        Some(raster) => raster.width + TRACKING as nat,
        None => (FALLBACK_BOX_WIDTH + TRACKING) as nat,
    }
}

/// The pixels that one character paints with the pen at `(x, y)`: the lit
/// cells of its glyph, or the placeholder box.
pub open spec fn glyph_region(glyph: Option<GlyphView>, x: int, y: int) -> Set<(int, int)> {
    match glyph {
        Some(raster) => raster.region_at(x, y),
        None => rect(x, y, FALLBACK_BOX_WIDTH as int, FALLBACK_BOX_HEIGHT as int),
    }
}

/// Where the pen stands after `glyphs` have been drawn from column `x`.
pub open spec fn pen_after(glyphs: Seq<Option<GlyphView>>, x: int) -> int
    decreases glyphs.len(),
{
    if glyphs.len() == 0 {
        x
    } else {
        pen_after(glyphs.drop_last(), x) + pen_advance(glyphs.last())
    }
}

/// Whether character `i` of a line that starts at `(x, y)` paints `p`: the
/// pixel belongs to the character's region, placed where the pen stands after
/// the characters before it.
pub open spec fn paints(
    glyphs: Seq<Option<GlyphView>>,
    i: int,
    x: int,
    y: int,
    p: (int, int),
) -> bool {
    &&& 0 <= i < glyphs.len()
    &&& glyph_region(glyphs[i], pen_after(glyphs.take(i), x), y).contains(p)
}

/// The pixels that a line of `glyphs` paints when it starts at `(x, y)`:
/// those that one of its characters paints.
pub open spec fn text_region(glyphs: Seq<Option<GlyphView>>, x: int, y: int) -> Set<(int, int)> {
    Set::new(|p: (int, int)| exists|i: int| paints(glyphs, i, x, y, p))
}

/// The pen never moves left.
pub proof fn lemma_pen_moves_right(glyphs: Seq<Option<GlyphView>>, k: int, x: int)
    requires
        0 <= k <= glyphs.len(),
    ensures
        x <= pen_after(glyphs.take(k), x) <= pen_after(glyphs, x),
    decreases glyphs.len(),
{
    if k == glyphs.len() {
        assert(glyphs.take(k) =~= glyphs);
        if k > 0 {
            lemma_pen_moves_right(glyphs.drop_last(), k - 1, x);
        }
    } else {
        assert(glyphs.drop_last().take(k) =~= glyphs.take(k));
        lemma_pen_moves_right(glyphs.drop_last(), k, x);
    }
}

/// A line paints what the line without its last character paints, and what
/// the last character paints where the pen then stands.
pub proof fn lemma_text_region_grows(glyphs: Seq<Option<GlyphView>>, x: int, y: int)
    requires
        glyphs.len() > 0,
    ensures
        text_region(glyphs, x, y) == text_region(glyphs.drop_last(), x, y).union(
            glyph_region(glyphs.last(), pen_after(glyphs.drop_last(), x), y),
        ),
{
    let front = glyphs.drop_last();
    let last = glyphs.len() - 1;
    let tail = glyph_region(glyphs.last(), pen_after(front, x), y);
    assert(glyphs.take(last) =~= front);
    assert forall|i: int, p: (int, int)| 0 <= i < last implies paints(front, i, x, y, p) == paints(
        glyphs,
        i,
        x,
        y,
        p,
    ) by {
        assert(front.take(i) =~= glyphs.take(i));
    }
    assert forall|p: (int, int)| text_region(glyphs, x, y).contains(p) == (text_region(
        front,
        x,
        y,
    ).contains(p) || tail.contains(p)) by {
        if text_region(front, x, y).contains(p) {
            let i = choose|i: int| paints(front, i, x, y, p);
            assert(paints(glyphs, i, x, y, p));
        }
        if tail.contains(p) {
            assert(paints(glyphs, last, x, y, p));
        }
        if text_region(glyphs, x, y).contains(p) {
            let i = choose|i: int| paints(glyphs, i, x, y, p);
            if i < last {
                assert(paints(front, i, x, y, p));
            }
        }
    }
    assert(text_region(glyphs, x, y) =~= text_region(front, x, y).union(tail));
}

/// A pixel of a line belongs to its first `k` characters, or lies at or to
/// the right of where the pen stands after them.
pub proof fn lemma_text_region_prefix(
    glyphs: Seq<Option<GlyphView>>,
    k: int,
    x: int,
    y: int,
    p: (int, int),
)
    requires
        0 <= k <= glyphs.len(),
    ensures
        text_region(glyphs.take(k), x, y).contains(p) ==> text_region(glyphs, x, y).contains(p),
        text_region(glyphs, x, y).contains(p) ==> text_region(glyphs.take(k), x, y).contains(p)
            || p.0 >= pen_after(glyphs.take(k), x),
{
    let front = glyphs.take(k);
    if text_region(front, x, y).contains(p) {
        let i = choose|i: int| paints(front, i, x, y, p);
        assert(front.take(i) =~= glyphs.take(i));
        assert(paints(glyphs, i, x, y, p));
    }
    if text_region(glyphs, x, y).contains(p) {
        let i = choose|i: int| paints(glyphs, i, x, y, p);
        if i < k {
            assert(front.take(i) =~= glyphs.take(i));
            assert(paints(front, i, x, y, p));
        } else {
            assert(glyphs.take(i).take(k) =~= front);
            lemma_pen_moves_right(glyphs.take(i), k, x);
        }
    }
}

/// Once the pen has left the visible area, the rest of the line paints
/// nothing that shows: the first `k` characters paint what the line paints.
pub proof fn lemma_rest_is_hidden(
    surface: Surface,
    glyphs: Seq<Option<GlyphView>>,
    k: int,
    x: int,
    y: int,
    color: Color,
)
    requires
        0 <= k <= glyphs.len(),
        pen_after(glyphs.take(k), x) >= surface.width,
    ensures
        surface.paint(text_region(glyphs.take(k), x, y), color) == surface.paint(
            text_region(glyphs, x, y),
            color,
        ),
{
    let shown = text_region(glyphs.take(k), x, y);
    let whole = text_region(glyphs, x, y);
    assert forall|px: int, py: int| surface.in_bounds(px, py) implies (#[trigger] shown.contains(
        (px, py),
    ) <==> whole.contains((px, py))) by {
        lemma_text_region_prefix(glyphs, k, x, y, (px, py));
    }
    surface.lemma_paint_visible(shown, whole, color);
}

/// Whether every glyph of the line that is present is a grid as wide and as
/// high as it says.
pub open spec fn well_shaped(glyphs: Seq<Option<GlyphView>>) -> bool {
    forall|i: int|
        0 <= i < glyphs.len() ==> (#[trigger] glyphs[i] matches Some(raster)
            ==> raster.rectangular())
}

/// A part of a line measures no more than the line, and the pen travels no
/// farther over it than it measures.
pub proof fn lemma_measure_grows(glyphs: Seq<Option<GlyphView>>, k: int, x: int)
    requires
        0 <= k <= glyphs.len(),
    ensures
        advance_sum(glyphs.take(k)) <= advance_sum(glyphs),
        tallest(glyphs.take(k)) <= tallest(glyphs),
        pen_after(glyphs.take(k), x) <= x + advance_sum(glyphs.take(k)),
    decreases glyphs.len(),
{
    if k == glyphs.len() {
        assert(glyphs.take(k) =~= glyphs);
        if k > 0 {
            let front = glyphs.drop_last();
            lemma_measure_grows(front, k - 1, x);
            assert(front.take(k - 1) =~= front);
        }
    } else {
        let front = glyphs.drop_last();
        assert(front.take(k) =~= glyphs.take(k));
        lemma_measure_grows(front, k, x);
    }
}

/// A drawn line lies within the box that it measures: every pixel that the
/// line paints from `(x, y)` is less than the measured width to the right of
/// `x`, and less than the measured height below `y`.
pub proof fn lemma_line_within_extent(
    glyphs: Seq<Option<GlyphView>>,
    x: int,
    y: int,
    p: (int, int),
)
    requires
        well_shaped(glyphs),
        text_region(glyphs, x, y).contains(p),
    ensures
        x <= p.0 < x + extent(glyphs).0,
        y <= p.1 < y + extent(glyphs).1,
{
    let i = choose|i: int| paints(glyphs, i, x, y, p);
    lemma_pen_moves_right(glyphs, i, x);
    lemma_measure_grows(glyphs, i, x);
    lemma_measure_grows(glyphs, i + 1, x);
    assert(glyphs.take(i + 1).drop_last() =~= glyphs.take(i));
}

/// An empty line measures 0 by 0.
pub proof fn lemma_empty_line()
    ensures
        extent(glyphs_of(Seq::<char>::empty())) == (0nat, 0nat),
{
}

/// The width of a line that holds a character is the sum of the advances of
/// its characters less one tracking: the one after the last character.
pub proof fn lemma_width_drops_last_tracking(glyphs: Seq<Option<GlyphView>>)
    requires
        glyphs.len() > 0,
    ensures
        extent(glyphs).0 == advance_sum(glyphs) - TRACKING,
{
}

/// Text drawn over a cleared surface: a visible pixel of the text reads back
/// as the text's color, and every other visible pixel as the background's.
pub proof fn lemma_text_over_background(
    surface: Surface,
    glyphs: Seq<Option<GlyphView>>,
    x: int,
    y: int,
    background: Color,
    foreground: Color,
    px: int,
    py: int,
)
    requires
        surface.wf(),
        surface.format.supported(),
        surface.in_bounds(px, py),
    ensures
        ({
            let filled = surface.paint(
                rect(0, 0, surface.width as int, surface.height as int),
                background,
            );
            let drawn = filled.paint(text_region(glyphs, x, y), foreground);
            drawn.pixel(px, py) == if text_region(glyphs, x, y).contains((px, py)) {
                surface.format.encode(foreground, surface.bytes_per_pixel)
            } else {
                surface.format.encode(background, surface.bytes_per_pixel)
            }
        }),
{
    let full = rect(0, 0, surface.width as int, surface.height as int);
    let filled = surface.paint(full, background);
    let region = text_region(glyphs, x, y);
    surface.lemma_painted_pixel(full, background, px, py);
    if region.contains((px, py)) {
        filled.lemma_painted_pixel(region, foreground, px, py);
    } else {
        filled.lemma_unpainted_pixel(region, foreground, px, py);
    }
}

/// Adds one character to a measured line: `width` grows by the character's
/// advance, and `height` rises to the character's height where that is
/// larger.
pub fn measure_glyph(
    width: usize,
    height: usize,
    glyph: Option<GlyphRaster>,
) -> (grown: (usize, usize))
    requires
        width + measured_advance(glyph_view(glyph)) <= usize::MAX,
    ensures
        grown.0 == width + measured_advance(glyph_view(glyph)),
        grown.1 == if height >= measured_height(glyph_view(glyph)) {
            height as nat
        } else {
            measured_height(glyph_view(glyph))
        },
{
    match glyph {
        Some(raster) => {
            let taller: usize = if height >= raster.height {
                height
            } else {
                raster.height
            };
            (width + (raster.width + TRACKING), taller)
        },
        None => {
            let taller: usize = if height >= FALLBACK_LINE_HEIGHT {
                height
            } else {
                FALLBACK_LINE_HEIGHT
            };
            (width + FALLBACK_ADVANCE, taller)
        },
    }
}

/// The width and height in pixels that `text` takes as one line of the
/// font.
pub fn measure(text: &str) -> (size: (usize, usize))
    requires
        text@.len() * MAX_ADVANCE <= usize::MAX,
    ensures
        size.0 == extent(glyphs_of(text@)).0,
        size.1 == extent(glyphs_of(text@)).1,
{
    let ghost glyphs = glyphs_of(text@);
    let mut width: usize = 0;
    let mut height: usize = 0;
    for c in it: text.chars()
        invariant
            it.seq() == text@,
            glyphs == glyphs_of(text@),
            text@.len() * MAX_ADVANCE <= usize::MAX,
            width == advance_sum(glyphs.take(it.index())),
            width == it.index() * MAX_ADVANCE,
            height == tallest(glyphs.take(it.index())),
    {
        let glyph = lookup_glyph(c, WEIGHT, RASTER_HEIGHT);
        proof {
            let i = it.index();
            assert(glyphs.take(i + 1).drop_last() =~= glyphs.take(i));
        }
        let grown = measure_glyph(width, height, glyph);
        width = grown.0;
        height = grown.1;
    }
    proof {
        assert(glyphs.take(glyphs.len() as int) =~= glyphs);
    }
    (width.saturating_sub(TRACKING), height)
}

impl<'a> PixelSink<'a> {
    /// Draws one character with the pen at `(x, y)`: its glyph where it has
    /// one, the placeholder box where it has none. Returns the column where
    /// the pen stands afterwards, or `None` where that column is beyond the
    /// largest coordinate.
    pub fn draw_glyph(
        &mut self,
        x: usize,
        y: usize,
        glyph: Option<GlyphRaster>,
        color: Color,
    ) -> (next_x: Option<usize>)
        ensures
            final(self)@ == old(self)@.paint(
                glyph_region(glyph_view(glyph), x as int, y as int),
                color,
            ),
            final(self)@.wf(),
            next_x == if x + pen_advance(glyph_view(glyph)) <= usize::MAX {
                Some((x + pen_advance(glyph_view(glyph))) as usize)
            } else {
                None
            },
    {
        match glyph {
            Some(raster) => match self.blit(x, y, &raster, color) {
                Some(end) => end.checked_add(TRACKING),
                None => None,
            },
            None => {
                self.fill_rect(x, y, FALLBACK_BOX_WIDTH, FALLBACK_BOX_HEIGHT, color);
                x.checked_add(FALLBACK_BOX_WIDTH + TRACKING)
            },
        }
    }

    /// Draws `text` as one line that starts at `(x, y)`, left to right, in
    /// `color`. There is no wrapping: what runs past the visible area is
    /// dropped, and drawing ends once the pen has left it.
    pub fn draw(&mut self, x: usize, y: usize, text: &str, color: Color)
        ensures
            final(self)@ == old(self)@.paint(
                text_region(glyphs_of(text@), x as int, y as int),
                color,
            ),
            final(self)@.wf(),
    {
        let ghost before = self@;
        let ghost glyphs = glyphs_of(text@);
        let ghost whole = text_region(glyphs, x as int, y as int);
        let visible_width: usize = self.width();
        let mut pen: usize = x;
        proof {
            before.lemma_paint_nothing(text_region(glyphs.take(0), x as int, y as int), color);
        }
        for c in it: text.chars()
            invariant
                it.seq() == text@,
                glyphs == glyphs_of(text@),
                whole == text_region(glyphs, x as int, y as int),
                before == old(self)@,
                before.wf(),
                visible_width == before.width,
                pen == pen_after(glyphs.take(it.index()), x as int),
                self@ == before.paint(
                    text_region(glyphs.take(it.index()), x as int, y as int),
                    color,
                ),
        {
            let ghost i = it.index();
            let ghost drawn = text_region(glyphs.take(i), x as int, y as int);
            if pen >= visible_width {
                proof {
                    lemma_rest_is_hidden(before, glyphs, i, x as int, y as int, color);
                }
                return;
            }
            let glyph = lookup_glyph(c, WEIGHT, RASTER_HEIGHT);
            let next = self.draw_glyph(pen, y, glyph, color);
            proof {
                assert(glyphs.take(i + 1).drop_last() =~= glyphs.take(i));
                lemma_text_region_grows(glyphs.take(i + 1), x as int, y as int);
                before.lemma_paint_union(
                    drawn,
                    glyph_region(glyph_view(glyph), pen as int, y as int),
                    color,
                );
            }
            match next {
                Some(next_pen) => {
                    pen = next_pen;
                },
                None => {
                    proof {
                        lemma_rest_is_hidden(before, glyphs, i + 1, x as int, y as int, color);
                    }
                    return;
                },
            }
        }
        proof {
            assert(glyphs.take(glyphs.len() as int) =~= glyphs);
        }
    }
}

} // verus!
