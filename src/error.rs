use vstd::prelude::*;

verus! {

/// Errors raised while decoding names and record payloads.
#[derive(Debug, PartialEq, Eq, Structural, Clone, Copy)]
pub enum Error {
    /// The buffer ended before the expected structure was complete.
    UnexpectedEOF,
    /// A compression pointer does not point strictly below every earlier one.
    BadPointer,
    /// A label introducer uses a reserved bit pattern.
    UnknownLabelFormat,
    /// A literal label holds a byte outside ASCII.
    LabelIsNotAscii,
    /// A record payload fails the length rule of its kind.
    WrongRdataLength,
    /// The record kind is declared but has no codec yet.
    NotImplemented,
}

} // verus!
