//! Display settings that are not numbers.
use vstd::prelude::*;

verus! {

/// How the play field is mirrored when drawn.
#[derive(Debug, Clone, Copy, PartialEq, Eq, Structural)]
pub enum MirrorMode {
    NoMirror,
    Horizontal,
    Vertical,
    Both,
}

impl Default for MirrorMode {
    fn default() -> (r: MirrorMode)
        ensures
            r == MirrorMode::NoMirror,
    {
        MirrorMode::NoMirror
    }
}

/// Whether drawing under `m` flips the horizontal axis.
pub open spec fn flips_x(m: MirrorMode) -> bool {
    m is Horizontal || m is Both
}

/// Whether drawing under `m` keeps the vertical axis as the chart has it; the screen's
/// vertical axis points down, so every mode but these flips it.
pub open spec fn keeps_y(m: MirrorMode) -> bool {
    m is Vertical || m is Both
}

impl MirrorMode {
    /// Whether this mode flips the horizontal axis (`x` is negated).
    pub fn flips_x(self) -> (r: bool)
        ensures
            r == flips_x(self),
    {
        match self {
            MirrorMode::NoMirror | MirrorMode::Vertical => false,
            MirrorMode::Horizontal | MirrorMode::Both => true,
        }
    }

    /// Whether this mode keeps the chart's vertical axis (otherwise `y` is negated).
    pub fn keeps_y(self) -> (r: bool)
        ensures
            r == keeps_y(self),
    {
        match self {
            MirrorMode::NoMirror | MirrorMode::Horizontal => false,
            MirrorMode::Vertical | MirrorMode::Both => true,
        }
    }
}

} // verus!
