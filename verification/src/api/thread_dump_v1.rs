use conjure_object::{Any, SafeLong};
use std::collections::BTreeMap;
use vstd::prelude::*;

verus! {

/// One frame of a thread's stack.
#[derive(Debug, Clone, PartialEq, Eq, PartialOrd, Ord, Hash)]
pub struct StackFrameV1 {
    pub address: Option<String>,
    pub procedure: Option<String>,
    pub file: Option<String>,
    pub line: Option<i32>,
    pub params: BTreeMap<String, Any>,
}

/// One thread of a thread dump.
#[derive(Debug, Clone, PartialEq, Eq, PartialOrd, Ord, Hash)]
pub struct ThreadInfoV1 {
    pub id: Option<SafeLong>,
    pub name: Option<String>,
    pub stack_trace: Vec<StackFrameV1>,
    pub params: BTreeMap<String, Any>,
}

/// A thread dump.
#[derive(Debug, Clone, PartialEq, Eq, PartialOrd, Ord, Hash)]
pub struct ThreadDumpV1 {
    threads: Vec<ThreadInfoV1>,
}

impl ThreadDumpV1 {
    pub closed spec fn spec_threads(&self) -> Seq<ThreadInfoV1> {
        self.threads@
    }

    /// Constructs a new instance of the type: a dump of no threads.
    pub fn new() -> (r: ThreadDumpV1)
        ensures
            r.spec_threads().len() == 0,
    {
        ThreadDumpV1 { threads: Vec::new() }
    }

    /// A dump of the given threads, in the given order.
    pub fn of_threads(threads: Vec<ThreadInfoV1>) -> (r: ThreadDumpV1)
        ensures
            r.spec_threads() == threads@,
    {
        ThreadDumpV1 { threads }
    }

    /// Information about each of the threads in the thread dump. "Thread" may refer to a
    /// userland thread such as a goroutine, or an OS-level thread.
    pub fn threads(&self) -> (r: &[ThreadInfoV1])
        ensures
            r@ == self.spec_threads(),
    {
        self.threads.as_slice()
    }
}

} // verus!
