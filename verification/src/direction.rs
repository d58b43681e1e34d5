//! Eight-way compass directions and the turn directives that act on them.

use vstd::prelude::*;

verus! {

/// One of the eight compass directions an agent can face.
#[derive(Clone, Copy, Debug, PartialEq, Eq, Structural)]
pub enum Direction {
    Up,
    Down,
    Left,
    Right,
    UpLeft,
    UpRight,
    DownLeft,
    DownRight,
}

/// Unit offset of a direction: `Up` decreases `y`, `Left` decreases `x`.
pub open spec fn direction_delta(d: Direction) -> (int, int) {
    match d {
        Direction::Up => (0, -1),
        Direction::Down => (0, 1),
        Direction::Left => (-1, 0),
        Direction::Right => (1, 0),
        Direction::UpLeft => (-1, -1),
        Direction::UpRight => (1, -1),
        Direction::DownLeft => (-1, 1),
        Direction::DownRight => (1, 1),
    }
}

/// Quarter turn counter-clockwise (diagonals rotate among themselves).
pub open spec fn spec_turn_left(d: Direction) -> Direction {
    match d {
        Direction::Up => Direction::Left,
        Direction::Left => Direction::Down,
        Direction::Down => Direction::Right,
        Direction::Right => Direction::Up,
        Direction::UpLeft => Direction::DownLeft,
        Direction::DownLeft => Direction::DownRight,
        Direction::DownRight => Direction::UpRight,
        Direction::UpRight => Direction::UpLeft,
    }
}

/// Quarter turn clockwise (diagonals rotate among themselves).
pub open spec fn spec_turn_right(d: Direction) -> Direction {
    match d {
        Direction::Up => Direction::Right,
        Direction::Right => Direction::Down,
        Direction::Down => Direction::Left,
        Direction::Left => Direction::Up,
        Direction::UpLeft => Direction::UpRight,
        Direction::UpRight => Direction::DownRight,
        Direction::DownRight => Direction::DownLeft,
        Direction::DownLeft => Direction::UpLeft,
    }
}

/// Half turn: the opposite direction.
pub open spec fn spec_u_turn(d: Direction) -> Direction {
    match d {
        Direction::Up => Direction::Down,
        Direction::Down => Direction::Up,
        Direction::Left => Direction::Right,
        Direction::Right => Direction::Left,
        Direction::UpLeft => Direction::DownRight,
        Direction::UpRight => Direction::DownLeft,
        Direction::DownLeft => Direction::UpRight,
        Direction::DownRight => Direction::UpLeft,
    }
}

impl Direction {
    /// Moves one cell in this direction from `(x, y)`.
    #[inline(always)]
    pub fn apply(&self, x: i32, y: i32) -> (r: (i32, i32))
        requires
            i32::MIN < x < i32::MAX,
            i32::MIN < y < i32::MAX,
        ensures
            r.0 == x + direction_delta(*self).0,
            r.1 == y + direction_delta(*self).1,
    {
        match self {
            Direction::Up => (x, y - 1),
            Direction::Down => (x, y + 1),
            Direction::Left => (x - 1, y),
            Direction::Right => (x + 1, y),
            Direction::UpLeft => (x - 1, y - 1),
            Direction::UpRight => (x + 1, y - 1),
            Direction::DownLeft => (x - 1, y + 1),
            Direction::DownRight => (x + 1, y + 1),
        }
    }

    #[inline]
    pub fn turn_left(self) -> (r: Self)
        ensures
            r == spec_turn_left(self),
    {
        match self {
            Direction::Up => Direction::Left,
            Direction::Left => Direction::Down,
            Direction::Down => Direction::Right,
            Direction::Right => Direction::Up,
            Direction::UpLeft => Direction::DownLeft,
            Direction::DownLeft => Direction::DownRight,
            Direction::DownRight => Direction::UpRight,
            Direction::UpRight => Direction::UpLeft,
        }
    }

    #[inline]
    pub fn turn_right(self) -> (r: Self)
        ensures
            r == spec_turn_right(self),
    {
        match self {
            Direction::Up => Direction::Right,
            Direction::Right => Direction::Down,
            Direction::Down => Direction::Left,
            Direction::Left => Direction::Up,
            Direction::UpLeft => Direction::UpRight,
            Direction::UpRight => Direction::DownRight,
            Direction::DownRight => Direction::DownLeft,
            Direction::DownLeft => Direction::UpLeft,
        }
    }

    #[inline]
    pub fn u_turn(self) -> (r: Self)
        ensures
            r == spec_u_turn(self),
    {
        match self {
            Direction::Up => Direction::Down,
            Direction::Down => Direction::Up,
            Direction::Left => Direction::Right,
            Direction::Right => Direction::Left,
            Direction::UpLeft => Direction::DownRight,
            Direction::UpRight => Direction::DownLeft,
            Direction::DownLeft => Direction::UpRight,
            Direction::DownRight => Direction::UpLeft,
        }
    }
}

/// The rotational effect a fired transition has on an agent's facing.
#[derive(Clone, Copy, Debug, PartialEq, Eq, Structural)]
pub enum TurnDirection {
    /// Keep the current facing.
    Stay,
    /// Quarter turn clockwise.
    Right,
    /// Half turn.
    UTurn,
    /// Quarter turn counter-clockwise.
    Left,
    /// Ignore the current facing and face the given direction.
    Absolute(Direction),
}

/// Facing that results from applying a turn directive to a current facing.
pub open spec fn spec_apply_turn(t: TurnDirection, current: Direction) -> Direction {
    match t {
        TurnDirection::Stay => current,
        TurnDirection::Right => spec_turn_right(current),
        TurnDirection::UTurn => spec_u_turn(current),
        TurnDirection::Left => spec_turn_left(current),
        TurnDirection::Absolute(d) => d,
    }
}

impl TurnDirection {
    pub fn apply(&self, current_direction: Direction) -> (r: Direction)
        ensures
            r == spec_apply_turn(*self, current_direction),
    {
        match self {
            TurnDirection::Stay => current_direction,
            TurnDirection::Right => current_direction.turn_right(),
            TurnDirection::UTurn => current_direction.u_turn(),
            TurnDirection::Left => current_direction.turn_left(),
            TurnDirection::Absolute(dir) => *dir,
        }
    }
}

/// Turning left and then right (or right and then left) restores the facing,
/// and a double half turn does too: the three turn operators are bijections
/// on the eight directions and mutual inverses where expected.
pub proof fn lemma_turn_inverses(d: Direction)
    ensures
        spec_turn_right(spec_turn_left(d)) == d,
        spec_turn_left(spec_turn_right(d)) == d,
        spec_u_turn(spec_u_turn(d)) == d,
{
}

/// Four quarter turns in the same sense return to the starting facing.
pub proof fn lemma_turn_period(d: Direction)
    ensures
        spec_turn_left(spec_turn_left(spec_turn_left(spec_turn_left(d)))) == d,
        spec_turn_right(spec_turn_right(spec_turn_right(spec_turn_right(d)))) == d,
        spec_u_turn(d) == spec_turn_left(spec_turn_left(d)),
{
}

} // verus!
