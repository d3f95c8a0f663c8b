//! Settings for laying out text.

use vstd::prelude::*;

verus! {

/// Horizontal text alignment.
#[derive(Clone, Copy, Debug, PartialEq, Eq, Structural)]
pub enum Alignment {
    Left,
    Center,
    Right,
}

impl Default for Alignment {
    fn default() -> (r: Self)
        ensures
            r == Alignment::Left,
    {
        Alignment::Left
    }
}

/// The line of the first row of text that the origin marks.
#[derive(Clone, Copy, Debug, PartialEq, Eq, Structural)]
pub enum Line {
    Ascent,
    Descent,
    Baseline,
    BetweenBaseAndCap,
}

impl Default for Line {
    fn default() -> (r: Self)
        ensures
            r == Line::Ascent,
    {
        Line::Ascent
    }
}

/// The direction in which successive rows of text go.
#[derive(Clone, Copy, Debug, PartialEq, Eq, Structural)]
pub enum Flow {
    Down,
    Up,
    Out,
}

impl Default for Flow {
    fn default() -> (r: Self)
        ensures
            r == Flow::Down,
    {
        Flow::Down
    }
}

} // verus!
