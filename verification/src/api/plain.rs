//! The error that parsing an enum from its plain text form reports.
use vstd::prelude::*;

verus! {

#[verifier::external_type_specification]
#[verifier::external_body]
pub struct ExParseEnumError(conjure_object::plain::ParseEnumError);

/// A fresh `ParseEnumError`.
///
/// Wraps `conjure_object::plain::ParseEnumError::new`, a unit-like constructor; nothing is
/// claimed of the value, which carries no data.
#[verifier::external_body]
pub(crate) fn parse_enum_error() -> conjure_object::plain::ParseEnumError {
    conjure_object::plain::ParseEnumError::new()
}

} // verus!
