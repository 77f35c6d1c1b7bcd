use vstd::prelude::*;

verus! {

/// The identifier of a user.
#[derive(Debug, Clone, PartialEq, Eq, PartialOrd, Ord, Hash, Default)]
pub struct UserId(pub String);

} // verus!
