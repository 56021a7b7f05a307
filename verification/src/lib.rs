//! Text and solid shapes on a raw linear framebuffer.
//!
//! A [`PixelSink`] owns a framebuffer descriptor together with its byte
//! region and offers one clipped, format-aware pixel write. Rectangle fills,
//! glyph blits and single-line text are built on that write, and every one of
//! them is specified as painting a set of pixel coordinates on the
//! mathematical [`Surface`] that the sink stands for.
//!
//! - [`color`]: colors, pixel formats and the encoding of a pixel.
//! - [`fault`]: the conditions that drawing can run into.
//! - [`surface`]: the model of a framebuffer and of painting on it.
//! - [`sink`]: the validated descriptor and the pixel write.
//! - [`shape`]: rectangle fills and clearing.
//! - [`glyph`]: glyph rasters and the blit.
//! - [`font`]: the glyphs of the built-in font.
//! - [`text`]: measuring and drawing a line of text.
//! - [`driver`]: the driver's states and the frame it renders.

pub mod color;
pub mod fault;
pub mod surface;
pub mod sink;
pub mod shape;
pub mod glyph;
pub mod font;
pub mod text;
pub mod driver;

pub use color::{Color, PixelFormat};
pub use driver::{center, render_centered, DriverEvent, DriverState, Frame, Halt};
pub use fault::{Fault, Severity};
pub use font::{FontWeight, RasterHeight};
pub use glyph::{GlyphRaster, INTENSITY_THRESHOLD};
pub use sink::{DescriptorError, FramebufferDescriptor, PixelSink};
pub use surface::Surface;
pub use text::{measure, measure_glyph};
