//! The error taxonomy shared by all fallible constructors and conversions.

use vstd::prelude::*;

verus! {

/// Why a value could not be built or converted.
///
/// Checked arithmetic signals overflow by returning no value rather than
/// through this type.
#[derive(Clone, Copy, Debug, PartialEq, Eq, Structural)]
pub enum Error {
    /// A component was outside its legal range at construction.
    InvalidComponent,
    /// A sign or range mismatch while converting between representations,
    /// such as narrowing a negative duration to an unsigned one or reading
    /// an instant outside the supported year span.
    ConversionFailure,
    /// A malformed format-specifier string.
    InvalidFormatString,
}

} // verus!
