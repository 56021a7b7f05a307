//! Glyph rasters and the blit that composites one onto a framebuffer.

use vstd::prelude::*;
use crate::color::Color;
use crate::sink::PixelSink;

verus! {

/// A cell is lit, and takes the drawing color, when its intensity is above
/// this value; every other cell leaves the framebuffer alone.
pub const INTENSITY_THRESHOLD: u8 = 8;

/// One rasterized character: rows of intensity cells, one byte per cell, and
/// the width and height of the box that the character occupies in a line.
#[derive(Clone, Copy, Debug)]
pub struct GlyphRaster<'a> {
    pub width: usize,
    pub height: usize,
    pub rows: &'a [&'a [u8]],
}

/// A glyph raster as a value.
pub struct GlyphView {
    pub width: nat,
    pub height: nat,
    pub rows: Seq<Seq<u8>>,
}

impl GlyphView {
    /// Whether the raster has a cell in column `dx` of row `dy`, and that
    /// cell is lit.
    pub open spec fn lit(self, dx: int, dy: int) -> bool {
        &&& 0 <= dy < self.rows.len()
        &&& 0 <= dx < self.rows[dy].len()
        &&& self.rows[dy][dx] > INTENSITY_THRESHOLD
    }

    /// Whether the cells form a grid of `height` rows that are `width` cells
    /// long each.
    pub open spec fn rectangular(self) -> bool {
        &&& self.rows.len() == self.height
        &&& forall|dy: int| 0 <= dy < self.rows.len() ==> #[trigger] self.rows[dy].len() == self.width
    }

    /// The pixels under the lit cells when the raster's first cell stands at
    /// `(x, y)`.
    pub open spec fn region_at(self, x: int, y: int) -> Set<(int, int)> {
        Set::new(|p: (int, int)| self.lit(p.0 - x, p.1 - y))
    }

    /// The part of [`GlyphView::region_at`] that lies in the rows before
    /// `dy`, or in row `dy` before column `dx`.
    spec fn region_before(self, x: int, y: int, dx: int, dy: int) -> Set<(int, int)> {
        Set::new(
            |p: (int, int)|
                self.lit(p.0 - x, p.1 - y) && (p.1 - y < dy || (p.1 - y == dy && p.0 - x < dx)),
        )
    }
}

impl<'a> View for GlyphRaster<'a> {
    type V = GlyphView;

    open spec fn view(&self) -> GlyphView {
        GlyphView {
            width: self.width as nat,
            height: self.height as nat,
            rows: Seq::new(self.rows@.len(), |i: int| self.rows@[i]@),
        }
    }
}

/// The view of a glyph that may be missing.
pub open spec fn glyph_view(glyph: Option<GlyphRaster>) -> Option<GlyphView> {
    match glyph {
        Some(raster) => Some(raster@),
        None => None,
    }
}

impl<'a> PixelSink<'a> {
    /// Composites `raster` with its first cell at `(x, y)`: every lit cell
    /// writes `color` through [`PixelSink::write_pixel`], every other cell
    /// writes nothing. Returns the column just right of the glyph's box, for
    /// the caller to advance from, or `None` where that column is beyond the
    /// largest coordinate.
    pub fn blit(
        &mut self,
        x: usize,
        y: usize,
        raster: &GlyphRaster,
        color: Color,
    ) -> (next_x: Option<usize>)
        ensures
            final(self)@ == old(self)@.paint(raster@.region_at(x as int, y as int), color),
            final(self)@.wf(),
            next_x == if x + raster@.width <= usize::MAX {
                Some((x + raster@.width) as usize)
            } else {
                None
            },
    {
        let ghost before = self@;
        let ghost glyph = raster@;
        let ghost whole = glyph.region_at(x as int, y as int);
        let next_x: Option<usize> = x.checked_add(raster.width);
        let visible_width: usize = self.width();
        let visible_height: usize = self.height();
        if x >= visible_width || y >= visible_height {
            proof {
                before.lemma_paint_nothing(whole, color);
            }
            return next_x;
        }
        let row_count: usize = raster.rows.len();
        let dy_end: usize = if row_count < visible_height - y {
            row_count
        } else {
            visible_height - y
        };
        proof {
            before.lemma_paint_nothing(glyph.region_before(x as int, y as int, 0, 0), color);
        }
        let mut dy: usize = 0;
        while dy < dy_end
            invariant
                dy <= dy_end <= row_count == glyph.rows.len(),
                x < visible_width == before.width,
                y + dy_end <= visible_height == before.height,
                glyph == raster@,
                before.wf(),
                self@ == before.paint(glyph.region_before(x as int, y as int, 0, dy as int), color),
            decreases dy_end - dy,
        {
            let cells: &[u8] = raster.rows[dy];
            let cell_count: usize = cells.len();
            let dx_end: usize = if cell_count < visible_width - x {
                cell_count
            } else {
                visible_width - x
            };
            let mut dx: usize = 0;
            while dx < dx_end
                invariant
                    dx <= dx_end <= cell_count == cells@.len(),
                    cells@ == glyph.rows[dy as int],
                    dy < dy_end <= glyph.rows.len(),
                    x + dx_end <= visible_width == before.width,
                    y + dy_end <= visible_height == before.height,
                    self@ == before.paint(
                        glyph.region_before(x as int, y as int, dx as int, dy as int),
                        color,
                    ),
                decreases dx_end - dx,
            {
                let ghost done = glyph.region_before(x as int, y as int, dx as int, dy as int);
                let ghost next = glyph.region_before(x as int, y as int, dx + 1, dy as int);
                if cells[dx] > INTENSITY_THRESHOLD {
                    let _ = self.write_pixel(x + dx, y + dy, color);
                    proof {
                        before.lemma_paint_union(done, set![(x + dx, y + dy)], color);
                        assert(done.union(set![(x + dx, y + dy)]) =~= next);
                    }
                } else {
                    assert(done =~= next);
                }
                dx += 1;
            }
            proof {
                before.lemma_paint_visible(
                    glyph.region_before(x as int, y as int, dx_end as int, dy as int),
                    glyph.region_before(x as int, y as int, 0, dy + 1),
                    color,
                );
            }
            dy += 1;
        }
        proof {
            before.lemma_paint_visible(
                glyph.region_before(x as int, y as int, 0, dy_end as int),
                whole,
                color,
            );
        }
        next_x
    }
}

} // verus!
