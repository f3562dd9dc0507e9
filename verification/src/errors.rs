//! The failure vocabulary of the core: extraction failures, a torn-down
//! channel, and an engine fault.
use vstd::prelude::*;

verus! {

/// Everything the core can report to its caller.
#[derive(Clone, Copy, PartialEq, Eq, Structural, Debug)]
pub enum Error {
    /// The external probing tool could not be invoked at all.
    ProbeUnavailable,
    /// The probing tool ran but exited reporting an error.
    ProbeFailed,
    /// The probe's output could not be read as a report of the expected shape.
    MalformedReport,
    /// A time field of the report is not a decimal number of seconds
    /// representable in milliseconds.
    InvalidTimestamp,
    /// A command or event was sent to a worker whose other end is gone.
    ChannelClosed,
    /// The native playback engine reported a fault.
    EngineFault,
}

} // verus!
