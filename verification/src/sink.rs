//! The pixel sink: a validated framebuffer descriptor and the one primitive
//! that writes a pixel into its byte region.

use vstd::prelude::*;
use crate::color::{Color, PixelFormat};
use crate::fault::Fault;
use crate::surface::Surface;

verus! {

/// A raw framebuffer as the platform hands it over: dimensions in pixels, the
/// row stride in pixels, the bytes one pixel occupies, the channel order, and
/// the byte region itself.
pub struct FramebufferDescriptor<'a> {
    pub width: usize,
    pub height: usize,
    pub stride: usize,
    pub bytes_per_pixel: usize,
    pub format: PixelFormat,
    pub bytes: &'a mut [u8],
}

/// Why a descriptor cannot back a sink.
#[derive(Clone, Copy, Debug, PartialEq, Eq, Structural)]
pub enum DescriptorError {
    /// A pixel is said to occupy more than the four channel bytes.
    PixelTooWide,
    /// A row is said to be shorter than the visible width.
    StrideTooShort,
    /// The byte region does not cover `stride * height * bytes_per_pixel`
    /// bytes.
    RegionTooSmall,
}

impl<'a> FramebufferDescriptor<'a> {
    /// The surface that this descriptor describes.
    pub open spec fn surface(&self) -> Surface {
        Surface {
            width: self.width as nat,
            height: self.height as nat,
            stride: self.stride as nat,
            bytes_per_pixel: self.bytes_per_pixel as nat,
            format: self.format,
            bytes: self.bytes@,
        }
    }

    /// What, if anything, keeps this descriptor from backing a sink. The
    /// pixel size is looked at first, then the stride, then the region.
    pub open spec fn defect(&self) -> Option<DescriptorError> {
        if self.bytes_per_pixel > 4 {
            Some(DescriptorError::PixelTooWide)
        } else if self.stride < self.width {
            Some(DescriptorError::StrideTooShort)
        } else if self.stride * self.height * self.bytes_per_pixel > self.bytes@.len() {
            Some(DescriptorError::RegionTooSmall)
        } else {
            None
        }
    }
}

/// The owner of a framebuffer. Its descriptor is known to be consistent, so
/// every write of a visible pixel lands inside the byte region.
pub struct PixelSink<'a> {
    descriptor: FramebufferDescriptor<'a>,
}

impl<'a> View for PixelSink<'a> {
    type V = Surface;

    closed spec fn view(&self) -> Surface {
        self.descriptor.surface()
    }
}

/// Whether `stride * height * bytes_per_pixel` bytes fit in `len` bytes.
fn region_covers(stride: usize, height: usize, bytes_per_pixel: usize, len: usize) -> (yes: bool)
    ensures
        yes <==> stride * height * bytes_per_pixel <= len,
{
    match stride.checked_mul(height) {
        Some(pixels) => match pixels.checked_mul(bytes_per_pixel) {
            Some(bytes) => bytes <= len,
            None => false,
        },
        None => {
            if bytes_per_pixel == 0 {
                true
            } else {
                assert(stride * height <= stride * height * bytes_per_pixel) by (nonlinear_arith)
                    requires
                        bytes_per_pixel >= 1,
                ;
                false
            }
        },
    }
}

impl<'a> PixelSink<'a> {
    #[verifier::type_invariant]
    spec fn consistent(self) -> bool {
        self.descriptor.surface().wf()
    }

    /// Takes ownership of a framebuffer, or says what is wrong with its
    /// descriptor.
    pub fn new(
        descriptor: FramebufferDescriptor<'a>,
    ) -> (made: Result<PixelSink<'a>, DescriptorError>)
        ensures
            match made {
                Ok(sink) => {
                    &&& descriptor.defect() is None
                    &&& sink@ == descriptor.surface()
                    &&& sink@.wf()
                },
                Err(error) => descriptor.defect() == Some(error),
            },
    {
        if descriptor.bytes_per_pixel > 4 {
            return Err(DescriptorError::PixelTooWide);
        }
        if descriptor.stride < descriptor.width {
            return Err(DescriptorError::StrideTooShort);
        }
        if !region_covers(
            descriptor.stride,
            descriptor.height,
            descriptor.bytes_per_pixel,
            descriptor.bytes.len(),
        ) {
            return Err(DescriptorError::RegionTooSmall);
        }
        Ok(PixelSink { descriptor })
    }

    /// The visible width in pixels.
    pub fn width(&self) -> (width: usize)
        ensures
            width == self@.width,
            self@.wf(),
    {
        proof {
            use_type_invariant(self);
        }
        self.descriptor.width
    }

    /// The visible height in pixels.
    pub fn height(&self) -> (height: usize)
        ensures
            height == self@.height,
            self@.wf(),
    {
        proof {
            use_type_invariant(self);
        }
        self.descriptor.height
    }

    /// The length of a row in pixels, padding included.
    pub fn stride(&self) -> (stride: usize)
        ensures
            stride == self@.stride,
    {
        self.descriptor.stride
    }

    /// The number of bytes that one pixel occupies.
    pub fn bytes_per_pixel(&self) -> (bytes_per_pixel: usize)
        ensures
            bytes_per_pixel == self@.bytes_per_pixel,
    {
        self.descriptor.bytes_per_pixel
    }

    /// The channel order of the framebuffer.
    pub fn format(&self) -> (format: PixelFormat)
        ensures
            format == self@.format,
    {
        self.descriptor.format
    }

    /// The byte region as it stands.
    pub fn bytes(&self) -> (bytes: &[u8])
        ensures
            bytes@ == self@.bytes,
    {
        &*self.descriptor.bytes
    }

    /// Writes `color` at `(x, y)`. A position outside the visible area is
    /// dropped without a signal. On a format that is not supported the write
    /// of a visible pixel is skipped and reported.
    pub fn write_pixel(&mut self, x: usize, y: usize, color: Color) -> (outcome: Result<(), Fault>)
        ensures
            final(self)@ == old(self)@.paint(set![(x as int, y as int)], color),
            final(self)@.wf(),
            outcome is Err <==> old(self)@.in_bounds(x as int, y as int)
                && !old(self)@.format.supported(),
            outcome matches Err(fault) ==> fault == Fault::UnsupportedFormat,
            old(self)@.in_bounds(x as int, y as int) && old(self)@.format.supported()
                ==> final(self)@.pixel(x as int, y as int)
                == old(self)@.format.encode(color, old(self)@.bytes_per_pixel),
            !old(self)@.in_bounds(x as int, y as int) || !old(self)@.format.supported()
                ==> final(self)@ == old(self)@,
    {
        proof {
            use_type_invariant(&*self);
        }
        let ghost before = self@;
        let ghost target = set![(x as int, y as int)];
        if x >= self.descriptor.width || y >= self.descriptor.height {
            proof {
                before.lemma_paint_nothing(target, color);
            }
            return Ok(());
        }
        let packed: [u8; 4] = match self.descriptor.format.pack(color) {
            Some(packed) => packed,
            None => {
                proof {
                    before.lemma_paint_undrawable(target, color);
                }
                return Err(Fault::UnsupportedFormat);
            },
        };
        let bytes_per_pixel: usize = self.descriptor.bytes_per_pixel;
        if bytes_per_pixel == 0 {
            proof {
                before.lemma_paint_undrawable(target, color);
            }
            return Ok(());
        }
        let stride: usize = self.descriptor.stride;
        let len: usize = self.descriptor.bytes.len();
        proof {
            before.lemma_slot_fits(x as int, y as int);
            assert(y * stride <= y * stride + x <= (y * stride + x) * bytes_per_pixel)
                by (nonlinear_arith)
                requires
                    bytes_per_pixel >= 1,
            ;
        }
        let offset: usize = (y * stride + x) * bytes_per_pixel;
        let mut k: usize = 0;
        while k < bytes_per_pixel
            invariant
                k <= bytes_per_pixel <= 4,
                before.wf(),
                offset + bytes_per_pixel <= before.bytes.len() == len,
                packed@ == before.format.channels(color),
                self.descriptor.surface() == (Surface { bytes: self.descriptor.bytes@, ..before }),
                self.descriptor.bytes@.len() == before.bytes.len(),
                forall|i: int|
                    0 <= i < before.bytes.len() ==> #[trigger] self.descriptor.bytes@[i] == if offset
                        <= i < offset + k {
                        packed@[i - offset]
                    } else {
                        before.bytes[i]
                    },
            decreases bytes_per_pixel - k,
        {
            self.descriptor.bytes[offset + k] = packed[k];
            k += 1;
        }
        proof {
            let after = self@;
            assert forall|i: int| 0 <= i < before.bytes.len() implies after.bytes[i]
                == before.painted_byte(target, color, i) by {
                before.lemma_slot(x as int, y as int, i);
            }
            assert(after.bytes =~= before.paint(target, color).bytes);
            before.lemma_painted_pixel(target, color, x as int, y as int);
        }
        Ok(())
    }
}

} // verus!
