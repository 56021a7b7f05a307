//! Solid rectangles, and clearing the whole visible area.

use vstd::prelude::*;
use crate::color::Color;
use crate::sink::PixelSink;
use crate::surface::Surface;

verus! {

/// The pixels of the rectangle `[x, x + width) x [y, y + height)`.
pub open spec fn rect(x: int, y: int, width: int, height: int) -> Set<(int, int)> {
    Set::new(|p: (int, int)| x <= p.0 < x + width && y <= p.1 < y + height)
}

/// Clearing is filling the rectangle that starts at `(0, 0)` and is as large
/// as the visible area.
pub proof fn lemma_clear_is_full_fill(surface: Surface, color: Color)
    ensures
        surface.paint(surface.visible(), color) == surface.paint(
            rect(0, 0, surface.width as int, surface.height as int),
            color,
        ),
{
    surface.lemma_paint_visible(
        surface.visible(),
        rect(0, 0, surface.width as int, surface.height as int),
        color,
    );
}

/// Clearing twice with one color leaves the bytes that clearing once leaves.
pub proof fn lemma_clear_twice(surface: Surface, color: Color)
    ensures
        ({
            let once = surface.paint(surface.visible(), color);
            once.paint(once.visible(), color) == once
        }),
{
    let once = surface.paint(surface.visible(), color);
    assert(once.visible() =~= surface.visible());
    surface.lemma_paint_twice(surface.visible(), color);
}

impl<'a> PixelSink<'a> {
    /// Writes `color` to every pixel of the rectangle that starts at
    /// `(x, y)` and is `width` by `height` pixels, through
    /// [`PixelSink::write_pixel`]: what lies outside the visible area is
    /// dropped.
    pub fn fill_rect(&mut self, x: usize, y: usize, width: usize, height: usize, color: Color)
        ensures
            final(self)@ == old(self)@.paint(
                rect(x as int, y as int, width as int, height as int),
                color,
            ),
            final(self)@.wf(),
    {
        let ghost before = self@;
        let ghost whole = rect(x as int, y as int, width as int, height as int);
        let visible_width: usize = self.width();
        let visible_height: usize = self.height();
        if x >= visible_width || y >= visible_height {
            proof {
                before.lemma_paint_nothing(whole, color);
            }
            return;
        }
        let x_end: usize = if width < visible_width - x {
            x + width
        } else {
            visible_width
        };
        let y_end: usize = if height < visible_height - y {
            y + height
        } else {
            visible_height
        };
        proof {
            before.lemma_paint_nothing(rect(x as int, y as int, width as int, 0), color);
        }
        let mut row: usize = y;
        while row < y_end
            invariant
                y <= row <= y_end <= visible_height == before.height,
                x <= x_end <= visible_width == before.width,
                x_end == x + width || x_end == visible_width,
                x_end <= x + width,
                y_end == y + height || y_end == visible_height,
                y_end <= y + height,
                before.wf(),
                self@ == before.paint(rect(x as int, y as int, width as int, row - y), color),
            decreases y_end - row,
        {
            let ghost above = rect(x as int, y as int, width as int, row - y);
            assert(above.union(rect(x as int, row as int, 0, 1)) =~= above);
            let mut column: usize = x;
            while column < x_end
                invariant
                    x <= column <= x_end <= visible_width == before.width,
                    row < y_end <= visible_height == before.height,
                    self@ == before.paint(
                        above.union(rect(x as int, row as int, column - x, 1)),
                        color,
                    ),
                decreases x_end - column,
            {
                let ghost done = above.union(rect(x as int, row as int, column - x, 1));
                let _ = self.write_pixel(column, row, color);
                proof {
                    before.lemma_paint_union(done, set![(column as int, row as int)], color);
                    assert(done.union(set![(column as int, row as int)]) =~= above.union(
                        rect(x as int, row as int, column + 1 - x, 1),
                    ));
                }
                column += 1;
            }
            proof {
                before.lemma_paint_visible(
                    above.union(rect(x as int, row as int, x_end - x, 1)),
                    rect(x as int, y as int, width as int, row + 1 - y),
                    color,
                );
            }
            row += 1;
        }
        proof {
            before.lemma_paint_visible(
                rect(x as int, y as int, width as int, y_end - y),
                whole,
                color,
            );
        }
    }

    /// Fills the entire visible area with `color`.
    pub fn clear(&mut self, color: Color)
        ensures
            final(self)@ == old(self)@.paint(old(self)@.visible(), color),
            final(self)@.wf(),
    {
        let ghost before = self@;
        let width: usize = self.width();
        let height: usize = self.height();
        self.fill_rect(0, 0, width, height, color);
        proof {
            before.lemma_paint_visible(
                rect(0, 0, width as int, height as int),
                before.visible(),
                color,
            );
        }
    }
}

} // verus!
