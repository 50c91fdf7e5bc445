//! The ways in which reading or writing an image fails.

use vstd::prelude::*;
use crate::reader::BoundsError;

verus! {

/// An image that cannot be read as a disc.
#[derive(Clone, Copy, Debug, PartialEq, Eq, Structural)]
pub enum FormatError {
    /// A structure of the image reaches beyond the bytes at hand.
    OutOfBounds(BoundsError),
    /// The header does not carry the magic value of a disc.
    MagicMismatch {
        /// The value that a disc carries.
        expected: u32,
        /// The value that was read.
        found: u32,
    },
}

/// The step of a write at which the sink failed.
#[derive(Clone, Copy, Debug, PartialEq, Eq, Structural)]
pub enum Operation {
    /// Moving the cursor.
    Seek,
    /// Writing bytes at the cursor.
    Write,
}

/// A disc whose files cannot be placed.
#[derive(Clone, Copy, Debug, PartialEq, Eq, Structural)]
pub enum LayoutError {
    /// The files, each padded to the alignment, take more room than the image has.
    CapacityExceeded,
    /// No entry of the directory table carries the name of the boot file.
    BootFileMissing,
}

/// A write of an image that did not complete.
#[derive(Debug)]
pub enum WriteError<F> {
    /// The files could not be placed. Nothing was written.
    Layout(LayoutError),
    /// The sink failed. What it holds from then on is unknown.
    Io {
        /// What was being attempted.
        operation: Operation,
        /// The failure as the sink reported it.
        cause: F,
    },
}

} // verus!
