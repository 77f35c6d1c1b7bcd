use vstd::prelude::*;

verus! {

/// A resolved stack frame: function name, source file and line, where known.
pub struct Frame<'a> {
    pub name: Option<&'a str>,
    pub file: Option<&'a str>,
    pub line: Option<u32>,
}

} // verus!
