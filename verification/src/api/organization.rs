use vstd::prelude::*;

verus! {

/// An organization that a log entry is attributed to.
#[derive(Debug, Clone, PartialEq, Eq, PartialOrd, Ord, Hash)]
pub struct Organization {
    id: String,
    reason: String,
}

impl Organization {
    pub closed spec fn spec_id(&self) -> Seq<char> {
        self.id@
    }

    pub closed spec fn spec_reason(&self) -> Seq<char> {
        self.reason@
    }

    /// Constructs a new instance of the type.
    pub fn new(id: String, reason: String) -> (r: Organization)
        ensures
            r.spec_id() == id@,
            r.spec_reason() == reason@,
    {
        Organization { id, reason }
    }

    /// Organization RID. Not exposed to downstream consumers.
    pub fn id(&self) -> (r: &str)
        ensures
            r@ == self.spec_id(),
    {
        self.id.as_str()
    }

    /// Explanation of why this organization was attributed to this log.
    pub fn reason(&self) -> (r: &str)
        ensures
            r@ == self.spec_reason(),
    {
        self.reason.as_str()
    }
}

} // verus!
