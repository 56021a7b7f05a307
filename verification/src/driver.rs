//! The driver: the states it passes through, and the one frame it renders.

use vstd::prelude::*;
use crate::color::Color;
use crate::fault::{Fault, Severity};
use crate::sink::PixelSink;
use crate::text::{extent, glyphs_of, measure, text_region, MAX_ADVANCE};

verus! {

/// Why the driver idles.
#[derive(Clone, Copy, Debug, PartialEq, Eq, Structural)]
pub enum Halt {
    /// A fatal fault ended the session before anything could be shown.
    Fatal,
    /// The frame is rendered and nothing is left to do.
    Done,
}

/// Where the driver stands. `Idle` is the end: no event leads out of it.
#[derive(Clone, Copy, Debug, PartialEq, Eq, Structural)]
pub enum DriverState {
    /// Waiting for the platform to hand over a framebuffer.
    Booting,
    /// Drawing the frame.
    Rendering,
    /// Waiting forever.
    Idle(Halt),
}

/// What can happen to the driver.
#[derive(Clone, Copy, Debug, PartialEq, Eq, Structural)]
pub enum DriverEvent {
    /// The platform handed over a framebuffer.
    FramebufferReady,
    /// The frame has been drawn.
    FrameDrawn,
    /// A fault was met.
    Faulted(Fault),
}

impl DriverState {
    /// The state that follows `self` on `event`. A fatal fault halts a
    /// driver that is still running, a recoverable one changes nothing, an
    /// idle driver stays idle, and an event that the state does not expect
    /// is ignored.
    pub open spec fn after(self, event: DriverEvent) -> DriverState {
        match (self, event) {
            (DriverState::Idle(halt), _) => DriverState::Idle(halt),
            (_, DriverEvent::Faulted(fault)) => if fault.spec_severity() == Severity::Fatal {
                DriverState::Idle(Halt::Fatal)
            } else {
                self
            },
            (DriverState::Booting, DriverEvent::FramebufferReady) => DriverState::Rendering,
            (DriverState::Rendering, DriverEvent::FrameDrawn) => DriverState::Idle(Halt::Done),
            _ => self,
        }
    }

    /// Takes one step of the driver.
    pub fn step(self, event: DriverEvent) -> (next: DriverState)
        ensures
            next == self.after(event),
    {
        match self {
            DriverState::Idle(halt) => DriverState::Idle(halt),
            DriverState::Booting => match event {
                DriverEvent::Faulted(fault) => match fault.severity() {
                    Severity::Fatal => DriverState::Idle(Halt::Fatal),
                    Severity::Recoverable => DriverState::Booting,
                },
                DriverEvent::FramebufferReady => DriverState::Rendering,
                DriverEvent::FrameDrawn => DriverState::Booting,
            },
            DriverState::Rendering => match event {
                DriverEvent::Faulted(fault) => match fault.severity() {
                    Severity::Fatal => DriverState::Idle(Halt::Fatal),
                    Severity::Recoverable => DriverState::Rendering,
                },
                DriverEvent::FramebufferReady => DriverState::Rendering,
                DriverEvent::FrameDrawn => DriverState::Idle(Halt::Done),
            },
        }
    }

    /// An idle driver stays as it is, whatever happens.
    pub proof fn lemma_idle_is_final(self, event: DriverEvent)
        requires
            self is Idle,
        ensures
            self.after(event) == self,
    {
    }

    /// A recoverable fault never changes the state.
    pub proof fn lemma_recoverable_goes_on(self, fault: Fault)
        requires
            fault.spec_severity() == Severity::Recoverable,
        ensures
            self.after(DriverEvent::Faulted(fault)) == self,
    {
    }

    /// A fatal fault leaves the driver idle.
    pub proof fn lemma_fatal_halts(self, fault: Fault)
        requires
            fault.spec_severity() == Severity::Fatal,
        ensures
            self.after(DriverEvent::Faulted(fault)) is Idle,
            !(self is Idle) ==> self.after(DriverEvent::Faulted(fault)) == DriverState::Idle(
                Halt::Fatal,
            ),
    {
    }
}

/// Where something `measured` pixels long starts when it is centered in
/// `surface` pixels: half of what is left over, and 0 where it is longer
/// than the surface.
pub open spec fn centered(surface: nat, measured: nat) -> nat {
    if surface >= measured {
        ((surface - measured) / 2) as nat
    } else {
        0
    }
}

/// Computes [`centered`].
pub fn center(surface: usize, measured: usize) -> (start: usize)
    ensures
        start == centered(surface as nat, measured as nat),
{
    surface.saturating_sub(measured) / 2
}

/// What [`render_centered`] did: where the text starts, and the fault that
/// kept it from showing, if any.
#[derive(Clone, Copy, Debug, PartialEq, Eq, Structural)]
pub struct Frame {
    pub x: usize,
    pub y: usize,
    pub fault: Option<Fault>,
}

/// Clears the framebuffer to `background` and draws `text` in `foreground`,
/// centered in both directions. On a format that is not supported every
/// write is skipped, and the frame says so once.
pub fn render_centered(
    sink: &mut PixelSink,
    text: &str,
    background: Color,
    foreground: Color,
) -> (frame: Frame)
    requires
        text@.len() * MAX_ADVANCE <= usize::MAX,
    ensures
        frame.x == centered(old(sink)@.width, extent(glyphs_of(text@)).0),
        frame.y == centered(old(sink)@.height, extent(glyphs_of(text@)).1),
        frame.fault == if old(sink)@.format.supported() {
            None
        } else {
            Some(Fault::UnsupportedFormat)
        },
        final(sink)@ == old(sink)@.paint(old(sink)@.visible(), background).paint(
            text_region(glyphs_of(text@), frame.x as int, frame.y as int),
            foreground,
        ),
        final(sink)@.wf(),
{
    sink.clear(background);
    let size = measure(text);
    let x: usize = center(sink.width(), size.0);
    let y: usize = center(sink.height(), size.1);
    sink.draw(x, y, text, foreground);
    let fault: Option<Fault> = if sink.format().is_supported() {
        None
    } else {
        Some(Fault::UnsupportedFormat)
    };
    Frame { x, y, fault }
}

} // verus!
