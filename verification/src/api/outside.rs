//! Outside value types that log records carry through unchanged.
use vstd::prelude::*;

verus! {

#[verifier::external_type_specification]
#[verifier::external_body]
pub struct ExSafeLong(conjure_object::SafeLong);

#[verifier::external_type_specification]
#[verifier::external_body]
pub struct ExAny(conjure_object::Any);

} // verus!
