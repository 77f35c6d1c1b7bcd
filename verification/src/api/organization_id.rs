use vstd::prelude::*;

verus! {

/// The identifier of an organization.
#[derive(Debug, Clone, PartialEq, Eq, PartialOrd, Ord, Hash, Default)]
pub struct OrganizationId(pub String);

} // verus!
