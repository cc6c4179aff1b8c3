//! The two-valued spin of a lattice site.

use vstd::prelude::*;

verus! {

/// The state of one lattice site.
#[derive(Clone, Copy, PartialEq, Eq, Structural, Debug)]
pub enum Spin {
    Up,
    Down,
}

/// The glyph that shows a spin in a rendered grid.
pub open spec fn glyph_of(s: Spin) -> char {
    if s == Spin::Up {
        '+'
    } else {
        ' '
    }
}

impl Spin {
    /// The opposite spin, as a mathematical value.
    pub open spec fn spec_flipped(self) -> Spin {
        match self {
            Spin::Up => Spin::Down,
            Spin::Down => Spin::Up,
        }
    }

    /// The opposite spin.
    pub fn flipped(&self) -> (r: Spin)
        ensures
            r == self.spec_flipped(),
    {
        match self {
            Spin::Up => Spin::Down,
            Spin::Down => Spin::Up,
        }
    }

    /// The glyph that shows this spin in a rendered grid.
    pub fn glyph(&self) -> (r: char)
        ensures
            r == glyph_of(*self),
    {
        match self {
            Spin::Up => '+',
            Spin::Down => ' ',
        }
    }
}

} // verus!
