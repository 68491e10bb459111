use vstd::prelude::*;

verus! {

/// The error kinds this library reports. All are terminal and carry no
/// payload; callers decide how to surface them.
#[derive(Clone, Copy, Debug, PartialEq, Eq, Structural)]
pub enum DateTimeError {
    /// Input text does not match the expected calendar-date or timestamp
    /// format, or denotes an invalid calendar date.
    DateTimeParseFailed,
    /// A valid wall-clock moment could not be mapped to an absolute instant
    /// in the target timezone (non-existent local time).
    DateTimeConversionFailed,
    /// A supplied zone identifier is not a recognized IANA timezone.
    StringParseError,
    /// A constructed or bridged date lies outside the valid calendar range
    /// of the representation involved.
    InvalidDateError,
}

} // verus!
