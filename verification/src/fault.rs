//! The conditions that drawing can run into, and how grave each one is.

use vstd::prelude::*;

verus! {

/// A condition that drawing can run into.
#[derive(Clone, Copy, Debug, PartialEq, Eq, Structural)]
pub enum Fault {
    /// The platform handed over no framebuffer. Nothing can be drawn, ever.
    NoFramebuffer,
    /// The framebuffer's format is not one that pixels can be written in. The
    /// write is skipped and drawing goes on.
    UnsupportedFormat,
}

/// Whether drawing can go on after a fault.
#[derive(Clone, Copy, Debug, PartialEq, Eq, Structural)]
pub enum Severity {
    /// The driver halts.
    Fatal,
    /// The operation is skipped and the driver continues.
    Recoverable,
}

impl Fault {
    pub open spec fn spec_severity(self) -> Severity {
        match self {
            Fault::NoFramebuffer => Severity::Fatal,
            Fault::UnsupportedFormat => Severity::Recoverable,
        }
    }

    /// A missing framebuffer is fatal; an unsupported format is not.
    #[verifier::when_used_as_spec(spec_severity)]
    pub fn severity(self) -> (severity: Severity)
        ensures
            severity == self.spec_severity(),
    {
        match self {
            Fault::NoFramebuffer => Severity::Fatal,
            Fault::UnsupportedFormat => Severity::Recoverable,
        }
    }
}

} // verus!
