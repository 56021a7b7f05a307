//! The mathematical model of a framebuffer, and what painting does to it.
//!
//! A [`Surface`] is a descriptor together with the bytes it describes. Every
//! drawing operation of this crate is stated as [`Surface::paint`]: a set of
//! pixel coordinates takes one color, clipped to the visible area, and every
//! other byte keeps its value.

use vstd::prelude::*;
use vstd::arithmetic::div_mod::{
    lemma_fundamental_div_mod,
    lemma_fundamental_div_mod_converse,
    lemma_mod_pos_bound,
};
use crate::color::{Color, PixelFormat};

verus! {

/// A framebuffer as a value: its dimensions in pixels, its row stride in
/// pixels, the bytes one pixel occupies, its channel order, and its bytes.
pub struct Surface {
    pub width: nat,
    pub height: nat,
    pub stride: nat,
    pub bytes_per_pixel: nat,
    pub format: PixelFormat,
    pub bytes: Seq<u8>,
}

impl Surface {
    /// A pixel holds at most the four channel bytes, a row is at least as
    /// long as it is wide, and the byte region covers every row.
    pub open spec fn wf(self) -> bool {
        &&& self.bytes_per_pixel <= 4
        &&& self.width <= self.stride
        &&& self.stride * self.height * self.bytes_per_pixel <= self.bytes.len()
    }

    /// Whether `(x, y)` lies in the visible area.
    pub open spec fn in_bounds(self, x: int, y: int) -> bool {
        0 <= x < self.width && 0 <= y < self.height
    }

    /// The pixels of the visible area.
    pub open spec fn visible(self) -> Set<(int, int)> {
        Set::new(|p: (int, int)| self.in_bounds(p.0, p.1))
    }

    /// The index of the first byte of pixel `(x, y)`.
    pub open spec fn offset(self, x: int, y: int) -> int {
        (y * self.stride + x) * self.bytes_per_pixel
    }

    /// The bytes that pixel `(x, y)` occupies, as they read back.
    pub open spec fn pixel(self, x: int, y: int) -> Seq<u8> {
        self.bytes.subrange(self.offset(x, y), self.offset(x, y) + self.bytes_per_pixel)
    }

    /// The column of the pixel slot that byte `i` belongs to.
    pub open spec fn column_of(self, i: int) -> int {
        (i / self.bytes_per_pixel as int) % self.stride as int
    }

    /// The row of the pixel slot that byte `i` belongs to.
    pub open spec fn row_of(self, i: int) -> int {
        (i / self.bytes_per_pixel as int) / self.stride as int
    }

    /// Whether painting `region` writes byte `i`: the format can be written,
    /// and the byte belongs to a visible pixel of the region.
    pub open spec fn covered(self, region: Set<(int, int)>, i: int) -> bool {
        &&& self.format.supported()
        &&& self.bytes_per_pixel > 0
        &&& self.in_bounds(self.column_of(i), self.row_of(i))
        &&& region.contains((self.column_of(i), self.row_of(i)))
    }

    /// Byte `i` after `region` has been painted in `color`.
    pub open spec fn painted_byte(self, region: Set<(int, int)>, color: Color, i: int) -> u8 {
        if self.covered(region, i) {
            self.format.channels(color)[i % self.bytes_per_pixel as int]
        } else {
            self.bytes[i]
        }
    }

    /// The surface after every visible pixel of `region` has been written in
    /// `color`. Pixels outside the visible area are dropped, and a surface
    /// whose format is not supported is left as it is.
    pub open spec fn paint(self, region: Set<(int, int)>, color: Color) -> Surface {
        Surface {
            bytes: Seq::new(self.bytes.len(), |i: int| self.painted_byte(region, color, i)),
            ..self
        }
    }

    /// The byte `i` belongs to the slot of pixel `(x, y)` exactly when it lies
    /// in the `bytes_per_pixel` bytes from that pixel's offset, and then its
    /// place in the slot is its distance from the offset.
    pub proof fn lemma_slot(self, x: int, y: int, i: int)
        requires
            self.bytes_per_pixel > 0,
            0 <= x < self.stride,
            0 <= y,
            0 <= i,
        ensures
            (self.column_of(i) == x && self.row_of(i) == y) <==> (self.offset(x, y) <= i
                < self.offset(x, y) + self.bytes_per_pixel),
            self.offset(x, y) <= i < self.offset(x, y) + self.bytes_per_pixel ==> i
                % self.bytes_per_pixel as int == i - self.offset(x, y),
    {
        let b = self.bytes_per_pixel as int;
        let s = self.stride as int;
        let p = y * s + x;
        let off = self.offset(x, y);
        let q = i / b;
        lemma_fundamental_div_mod(i, b);
        lemma_mod_pos_bound(i, b);
        assert(b * q == q * b) by (nonlinear_arith);
        if off <= i < off + b {
            lemma_fundamental_div_mod_converse(i, b, p, i - off);
            lemma_fundamental_div_mod_converse(p, s, y, x);
        }
        if self.column_of(i) == x && self.row_of(i) == y {
            lemma_fundamental_div_mod(q, s);
            assert(s * y == y * s) by (nonlinear_arith);
        }
    }

    /// The slot of a visible pixel lies inside the byte region.
    pub proof fn lemma_slot_fits(self, x: int, y: int)
        requires
            self.wf(),
            self.in_bounds(x, y),
        ensures
            0 <= self.offset(x, y),
            self.offset(x, y) + self.bytes_per_pixel <= self.bytes.len(),
    {
        let b = self.bytes_per_pixel as int;
        let s = self.stride as int;
        let h = self.height as int;
        assert(0 <= (y * s + x) * b && (y * s + x) * b + b <= s * h * b) by (nonlinear_arith)
            requires
                0 <= x < s,
                0 <= y < h,
                0 <= b,
        ;
    }

    /// Painting one region and then another in the same color paints their
    /// union.
    pub proof fn lemma_paint_union(
        self,
        first: Set<(int, int)>,
        second: Set<(int, int)>,
        color: Color,
    )
        ensures
            self.paint(first, color).paint(second, color) == self.paint(first.union(second), color),
    {
        assert(self.paint(first, color).paint(second, color).bytes =~= self.paint(
            first.union(second),
            color,
        ).bytes);
    }

    /// Two regions that hold the same visible pixels paint the same surface.
    pub proof fn lemma_paint_visible(
        self,
        one: Set<(int, int)>,
        other: Set<(int, int)>,
        color: Color,
    )
        requires
            forall|x: int, y: int|
                self.in_bounds(x, y) ==> (#[trigger] one.contains((x, y)) <==> other.contains(
                    (x, y),
                )),
        ensures
            self.paint(one, color) == self.paint(other, color),
    {
        assert(self.paint(one, color).bytes =~= self.paint(other, color).bytes);
    }

    /// A region without a visible pixel paints nothing.
    pub proof fn lemma_paint_nothing(self, region: Set<(int, int)>, color: Color)
        requires
            forall|x: int, y: int| self.in_bounds(x, y) ==> !#[trigger] region.contains((x, y)),
        ensures
            self.paint(region, color) == self,
    {
        assert(self.paint(region, color).bytes =~= self.bytes);
    }

    /// Nothing can be painted on a surface whose format is not supported, or
    /// whose pixels occupy no bytes.
    pub proof fn lemma_paint_undrawable(self, region: Set<(int, int)>, color: Color)
        requires
            !self.format.supported() || self.bytes_per_pixel == 0,
        ensures
            self.paint(region, color) == self,
    {
        assert(self.paint(region, color).bytes =~= self.bytes);
    }

    /// Painting a region a second time in the same color changes nothing.
    pub proof fn lemma_paint_twice(self, region: Set<(int, int)>, color: Color)
        ensures
            self.paint(region, color).paint(region, color) == self.paint(region, color),
    {
        self.lemma_paint_union(region, region, color);
        assert(region.union(region) =~= region);
    }

    /// A painted visible pixel reads back as the encoding of the color.
    pub proof fn lemma_painted_pixel(self, region: Set<(int, int)>, color: Color, x: int, y: int)
        requires
            self.wf(),
            self.format.supported(),
            self.in_bounds(x, y),
            region.contains((x, y)),
        ensures
            self.paint(region, color).pixel(x, y) == self.format.encode(
                color,
                self.bytes_per_pixel,
            ),
    {
        let after = self.paint(region, color);
        let off = self.offset(x, y);
        let b = self.bytes_per_pixel as int;
        self.lemma_slot_fits(x, y);
        assert forall|j: int| off <= j < off + b implies #[trigger] after.bytes[j]
            == self.format.channels(color)[j - off] by {
            self.lemma_slot(x, y, j);
        }
    }

    /// A visible pixel outside the region keeps its bytes.
    pub proof fn lemma_unpainted_pixel(self, region: Set<(int, int)>, color: Color, x: int, y: int)
        requires
            self.wf(),
            self.in_bounds(x, y),
            !region.contains((x, y)),
        ensures
            self.paint(region, color).pixel(x, y) == self.pixel(x, y),
    {
        let after = self.paint(region, color);
        let off = self.offset(x, y);
        let b = self.bytes_per_pixel as int;
        self.lemma_slot_fits(x, y);
        assert forall|j: int| off <= j < off + b implies #[trigger] after.bytes[j]
            == self.bytes[j] by {
            self.lemma_slot(x, y, j);
        }
    }
}

} // verus!
