use crate::api::annotation::{Annotation, in_safe_long_range};
use vstd::prelude::*;

verus! {

/// A trace span as the trace log records it. Timestamp and duration are microseconds.
pub struct Span {
    pub trace_id: String,
    pub id: String,
    pub name: String,
    pub parent_id: Option<String>,
    pub timestamp: i64,
    pub duration: i64,
    pub annotations: Vec<Annotation>,
    pub tags: Vec<(String, String)>,
}

impl Span {
    /// Timestamp and duration are in the `SafeLong` range.
    pub open spec fn wf(&self) -> bool {
        in_safe_long_range(self.timestamp as int) && in_safe_long_range(self.duration as int)
    }
}

} // verus!
