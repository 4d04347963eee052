//! The ways in which loading a dataset can fail.

use vstd::prelude::*;

verus! {

/// Why a dataset could not be loaded. Every failure ends the whole load: no
/// partial dataset is ever handed out.
#[derive(Clone, Copy, Debug, PartialEq, Eq, Structural)]
pub enum DecodeError {
    /// A file could not be read.
    IOError,
    /// A file is shorter than the header of its kind.
    InvalidSize,
    /// The counts and dimensions in the headers ask for more bytes than the
    /// payloads hold.
    OutOfRange,
}

} // verus!
