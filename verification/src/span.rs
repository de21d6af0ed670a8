use vstd::prelude::*;

verus! {

/// A half-open byte range `start..end` into a source text.
#[derive(Clone, Copy, Debug, PartialEq, Eq, Structural)]
pub struct Span {
    pub start: u32,
    pub end: u32,
}

} // verus!
