//! The six hex directions, their unit axial offsets, and rotation
//! arithmetic.
//!
//! Directions are arranged clockwise starting at East; opposite directions
//! sit three positions apart in the cycle, and rotation is addition modulo
//! six on the direction's index.

use vstd::prelude::*;
use vstd::arithmetic::div_mod::lemma_mod_multiples_vanish;
use crate::coords::Position;

verus! {

/// One of the six hex-grid directions, clockwise from East.
#[derive(Debug, Clone, Copy, PartialEq, Eq, Structural)]
pub enum HexDirection {
    East,
    Southeast,
    Southwest,
    West,
    Northwest,
    Northeast,
}

/// The index of a direction in the clockwise cycle, East first.
pub open spec fn index_of(d: HexDirection) -> int {
    match d {
        HexDirection::East => 0,
        HexDirection::Southeast => 1,
        HexDirection::Southwest => 2,
        HexDirection::West => 3,
        HexDirection::Northwest => 4,
        HexDirection::Northeast => 5,
    }
}

/// The direction at a cyclic index; indices are reduced modulo six, so the
/// result is defined for every integer.
pub open spec fn from_index(i: int) -> HexDirection {
    let m = i % 6;
    if m == 0 {
        HexDirection::East
    } else if m == 1 {
        HexDirection::Southeast
    } else if m == 2 {
        HexDirection::Southwest
    } else if m == 3 {
        HexDirection::West
    } else if m == 4 {
        HexDirection::Northwest
    } else {
        HexDirection::Northeast
    }
}

/// The unit axial offset of a direction.
pub open spec fn offset_spec(d: HexDirection) -> Position {
    match d {
        HexDirection::East => Position { alpha: 1, beta: 0 },
        HexDirection::Southeast => Position { alpha: 1, beta: (-1) as isize },
        HexDirection::Southwest => Position { alpha: 0, beta: (-1) as isize },
        HexDirection::West => Position { alpha: (-1) as isize, beta: 0 },
        HexDirection::Northwest => Position { alpha: (-1) as isize, beta: 1 },
        HexDirection::Northeast => Position { alpha: 0, beta: 1 },
    }
}

/// The direction reached from `d` after `steps` clockwise turns of 60
/// degrees; negative steps turn counterclockwise.
pub open spec fn rotate_spec(d: HexDirection, steps: int) -> HexDirection {
    from_index(index_of(d) + steps)
}

impl HexDirection {
    /// The direction whose cyclic index is `choice` reduced modulo six;
    /// accepts any integer, so a uniform draw from `[0, 6)` maps to a
    /// uniform random direction.
    pub fn from_int(choice: isize) -> (d: HexDirection)
        ensures
            d == from_index(choice as int),
    {
        let rem: isize = choice % 6;
        let idx: isize = if rem < 0 {
            rem + 6
        } else {
            rem
        };
        assert(idx == (choice as int) % 6);
        if idx == 0 {
            HexDirection::East
        } else if idx == 1 {
            HexDirection::Southeast
        } else if idx == 2 {
            HexDirection::Southwest
        } else if idx == 3 {
            HexDirection::West
        } else if idx == 4 {
            HexDirection::Northwest
        } else {
            HexDirection::Northeast
        }
    }

    /// The index of this direction in the clockwise cycle.
    pub fn to_int(self) -> (r: u8)
        ensures
            r as int == index_of(self),
    {
        match self {
            HexDirection::East => 0,
            HexDirection::Southeast => 1,
            HexDirection::Southwest => 2,
            HexDirection::West => 3,
            HexDirection::Northwest => 4,
            HexDirection::Northeast => 5,
        }
    }

    /// The unit axial offset of this direction.
    pub fn offset(&self) -> (r: Position)
        ensures
            r == offset_spec(*self),
    {
        match self {
            HexDirection::East => Position { alpha: 1, beta: 0 },
            HexDirection::Southeast => Position { alpha: 1, beta: -1 },
            HexDirection::Southwest => Position { alpha: 0, beta: -1 },
            HexDirection::West => Position { alpha: -1, beta: 0 },
            HexDirection::Northwest => Position { alpha: -1, beta: 1 },
            HexDirection::Northeast => Position { alpha: 0, beta: 1 },
        }
    }

    /// Rotates clockwise by `steps` turns of 60 degrees; negative steps
    /// rotate counterclockwise. Any magnitude of `steps` yields a valid
    /// direction.
    pub fn rotate(self, steps: isize) -> (d: HexDirection)
        ensures
            d == rotate_spec(self, steps as int),
    {
        let i = self.to_int() as isize;
        let rem: isize = steps % 6;
        let se: isize = if rem < 0 {
            rem + 6
        } else {
            rem
        };
        proof {
            assert(se == (steps as int) % 6);
            lemma_mod_multiples_vanish((steps as int) / 6, i + (steps as int) % 6, 6);
        }
        HexDirection::from_int(i + se)
    }
}

/// Rotating a direction by a full turn of six steps yields the direction
/// itself.
pub proof fn lemma_rotate_full_turn(d: HexDirection)
    ensures
        rotate_spec(d, 6) == d,
{
}

/// Rotations compose additively: rotating by `a` and then by `b` equals
/// rotating by `a + b` in one step.
pub proof fn lemma_rotate_additive(d: HexDirection, a: int, b: int)
    ensures
        rotate_spec(rotate_spec(d, a), b) == rotate_spec(d, a + b),
{
    let i = index_of(d);
    lemma_mod_multiples_vanish((i + a) / 6, (i + a) % 6 + b, 6);
}

} // verus!
