use vstd::prelude::*;

verus! {

/// The kinds of failure that decoding and encoding report.
#[derive(Clone, Copy, PartialEq, Eq, Structural, Debug)]
pub enum IoError {
    /// The input ended before a complete value could be read.
    UnexpectedEof,
    /// The input, or the value to write, does not form valid data.
    InvalidData,
}

} // verus!
