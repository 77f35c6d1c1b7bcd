use crate::api::endpoint::Endpoint;
use crate::text::string_of;
use vstd::prelude::*;

verus! {

/// The largest value a `SafeLong` holds: 2^53 - 1.
pub const SAFE_LONG_MAX: i64 = 9007199254740991;

/// Whether a value is in the range of a `SafeLong`: -(2^53 - 1) to 2^53 - 1.
pub open spec fn in_safe_long_range(v: int) -> bool {
    -SAFE_LONG_MAX <= v <= SAFE_LONG_MAX
}

/// A timestamped event of a span.
#[derive(Debug, Clone, PartialEq, Eq, PartialOrd, Ord, Hash)]
pub struct Annotation {
    timestamp: i64,
    value: String,
    endpoint: Endpoint,
}

impl Annotation {
    pub closed spec fn spec_timestamp(&self) -> i64 {
        self.timestamp
    }

    pub closed spec fn spec_value(&self) -> Seq<char> {
        self.value@
    }

    pub closed spec fn spec_endpoint(&self) -> Endpoint {
        self.endpoint
    }

    /// Constructs a new instance of the type; the timestamp is in the `SafeLong` range.
    pub fn new(timestamp: i64, value: &str, endpoint: Endpoint) -> (r: Annotation)
        requires
            in_safe_long_range(timestamp as int),
        ensures
            r.spec_timestamp() == timestamp,
            r.spec_value() == value@,
            r.spec_endpoint() == endpoint,
    {
        Annotation { timestamp, value: string_of(value), endpoint }
    }

    /// Time annotation was created (epoch microsecond value)
    pub fn timestamp(&self) -> (r: i64)
        ensures
            r == self.spec_timestamp(),
    {
        self.timestamp
    }

    /// Value encapsulated by this annotation
    pub fn value(&self) -> (r: &str)
        ensures
            r@ == self.spec_value(),
    {
        self.value.as_str()
    }

    pub fn endpoint(&self) -> (r: &Endpoint)
        ensures
            *r == self.spec_endpoint(),
    {
        &self.endpoint
    }
}

} // verus!
