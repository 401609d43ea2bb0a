//! What the input layer hands to the simulation in a tick.

use vstd::prelude::*;

verus! {

/// The length of a unit direction: a component of `DIRECTION_UNIT` is full
/// deflection along its axis.
pub const DIRECTION_UNIT: i16 = 1000;

/// What a component of a diagonal unit direction amounts to: a thousand
/// divided by the square root of two, rounded down.
pub const DIAGONAL_UNIT: i16 = 707;

/// A direction of movement, in thousandths of full deflection.
#[derive(Debug, Clone, Copy, PartialEq, Eq, Structural)]
pub struct Direction {
    pub x: i16,
    pub y: i16,
}

impl Direction {
    /// Neither component exceeds full deflection.
    pub open spec fn wf(self) -> bool {
        &&& -DIRECTION_UNIT <= self.x <= DIRECTION_UNIT
        &&& -DIRECTION_UNIT <= self.y <= DIRECTION_UNIT
    }

    /// A direction, if neither component exceeds full deflection.
    pub fn new(x: i16, y: i16) -> (d: Option<Direction>)
        ensures
            d == (if (Direction { x, y }).wf() {
                Some(Direction { x, y })
            } else {
                None
            }),
    {
        if -DIRECTION_UNIT <= x && x <= DIRECTION_UNIT && -DIRECTION_UNIT <= y && y
            <= DIRECTION_UNIT {
            Some(Direction { x, y })
        } else {
            None
        }
    }
}

/// The sign of a number: -1, 0 or 1.
pub open spec fn signum(v: int) -> int {
    if v < 0 {
        -1
    } else if v > 0 {
        1
    } else {
        0
    }
}

impl Direction {
    /// The unit direction along the held axes: full deflection where one
    /// axis is held, the diagonal where both are.
    pub open spec fn of_axes(x: int, y: int) -> Direction {
        if x != 0 && y != 0 {
            Direction {
                x: (signum(x) * DIAGONAL_UNIT) as i16,
                y: (signum(y) * DIAGONAL_UNIT) as i16,
            }
        } else {
            Direction {
                x: (signum(x) * DIRECTION_UNIT) as i16,
                y: (signum(y) * DIRECTION_UNIT) as i16,
            }
        }
    }

    /// The unit direction that fits the signs of two axes, each of which is
    /// held toward the negative side, not held, or held toward the positive
    /// side.
    pub fn from_axes(x: i8, y: i8) -> (d: Direction)
        ensures
            d == Self::of_axes(x as int, y as int),
            d.wf(),
    {
        let unit = if x != 0 && y != 0 {
            DIAGONAL_UNIT
        } else {
            DIRECTION_UNIT
        };
        let dx = if x < 0 {
            -unit
        } else if x > 0 {
            unit
        } else {
            0
        };
        let dy = if y < 0 {
            -unit
        } else if y > 0 {
            unit
        } else {
            0
        };
        Direction { x: dx, y: dy }
    }
}

/// The player's input of one tick: a direction, or nothing.
#[derive(Debug, Clone, Copy, PartialEq, Eq, Structural)]
pub struct Actions {
    pub player_movement: Option<Direction>,
}

impl Actions {
    /// The direction, where there is one, is well formed.
    pub open spec fn wf(self) -> bool {
        self.player_movement is Some ==> self.player_movement->Some_0.wf()
    }

    /// The input of a tick in which the axes are held as given: no input
    /// where no axis is held, the unit direction along the held axes
    /// otherwise.
    pub fn from_axes(x: i8, y: i8) -> (a: Actions)
        ensures
            a.wf(),
            a.player_movement == (if x == 0 && y == 0 {
                None
            } else {
                Some(Direction::of_axes(x as int, y as int))
            }),
    {
        if x == 0 && y == 0 {
            Actions { player_movement: None }
        } else {
            Actions { player_movement: Some(Direction::from_axes(x, y)) }
        }
    }
}

} // verus!
