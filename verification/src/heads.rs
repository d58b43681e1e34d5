//! Agents ("heads") crawling over the grid: position, facing, internal
//! mode, color, and a bounded trail of past positions.

use vstd::prelude::*;
use std::collections::VecDeque;
use crate::direction::Direction;
use crate::color::ColorValue;

verus! {

/// Mathematical image of a head: its fields, the trail as a sequence.
pub struct HeadModel {
    pub x: int,
    pub y: int,
    pub direction: Direction,
    pub previous_direction: Option<Direction>,
    pub internal_state: int,
    pub color: ColorValue,
    pub trail: Seq<(i32, i32)>,
}

/// One agent of the simulation.
pub struct Head {
    pub x: i32,
    pub y: i32,
    pub direction: Direction,
    pub internal_state: usize,
    pub previous_direction: Option<Direction>,
    pub color: ColorValue,
    pub trail: VecDeque<(i32, i32)>,
}

impl View for Head {
    type V = HeadModel;

    open spec fn view(&self) -> HeadModel {
        HeadModel {
            x: self.x as int,
            y: self.y as int,
            direction: self.direction,
            previous_direction: self.previous_direction,
            internal_state: self.internal_state as int,
            color: self.color,
            trail: self.trail@,
        }
    }
}

/// The trail after a move from `pos`: `pos` appended, the oldest entry
/// shed once the bound is exceeded.
pub open spec fn spec_trail_push(trail: Seq<(i32, i32)>, pos: (i32, i32), bound: int) -> Seq<
    (i32, i32),
> {
    let t = trail.push(pos);
    if t.len() > bound {
        t.drop_first()
    } else {
        t
    }
}

impl Head {
    /// A fresh head at `(x, y)`: facing up, mode `0`, empty trail.
    pub fn new(x: i32, y: i32, color: ColorValue) -> (h: Head)
        ensures
            h@.x == x as int,
            h@.y == y as int,
            h@.direction == Direction::Up,
            h@.previous_direction is None,
            h@.internal_state == 0,
            h@.color == color,
            h@.trail == Seq::<(i32, i32)>::empty(),
    {
        Head {
            x,
            y,
            direction: Direction::Up,
            previous_direction: None,
            internal_state: 0,
            color,
            trail: VecDeque::new(),
        }
    }

    /// Moves to `(x, y)`, recording the old position on the trail, which is
    /// kept no longer than `trail_length`.
    pub fn move_to(&mut self, x: i32, y: i32, trail_length: usize)
        ensures
            final(self)@ == (HeadModel {
                x: x as int,
                y: y as int,
                trail: spec_trail_push(
                    old(self)@.trail,
                    (old(self).x, old(self).y),
                    trail_length as int,
                ),
                ..old(self)@
            }),
    {
        let ox = self.x;
        let oy = self.y;
        self.trail.push_back((ox, oy));
        if self.trail.len() > trail_length {
            self.trail.pop_front();
        }
        self.x = x;
        self.y = y;
    }

    /// Adopts a new facing, remembering the old one.
    pub fn set_direction(&mut self, new_direction: Direction)
        ensures
            final(self)@ == (HeadModel {
                direction: new_direction,
                previous_direction: Option::Some(old(self).direction),
                ..old(self)@
            }),
    {
        self.previous_direction = Some(self.direction);
        self.direction = new_direction;
    }
}

} // verus!
