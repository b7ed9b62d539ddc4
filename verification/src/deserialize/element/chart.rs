//! Chart-level kinds.
use vstd::prelude::*;

verus! {

/// How notes that sound together are shown.
#[derive(Debug, Clone, Copy, PartialEq, Eq, Structural)]
pub enum EachStyle {
    Default,
    Broken,
}

impl Default for EachStyle {
    fn default() -> (r: EachStyle)
        ensures
            r == EachStyle::Default,
    {
        EachStyle::Default
    }
}

} // verus!
