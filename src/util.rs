use vstd::prelude::*;

use crate::rng::RandomSource;

verus! {

/// One of the four cardinal directions.
#[derive(Clone, Copy, PartialEq, Eq, Structural, Debug)]
pub enum Direction {
    North,
    East,
    South,
    West,
}

/// The direction that a random draw selects: the draw modulo four picks
/// North, South, East or West in that order.
pub open spec fn direction_of(v: u64) -> Direction {
    if v % 4 == 0 {
        Direction::North
    } else if v % 4 == 1 {
        Direction::South
    } else if v % 4 == 2 {
        Direction::East
    } else {
        Direction::West
    }
}

impl Direction {
    /// Draws one value from `rng` and turns it into a direction.
    pub fn random_direction(rng: &mut RandomSource) -> (r: Direction)
        ensures
            r == direction_of(old(rng).peek()),
            *final(rng) == old(rng).advance(),
    {
        let v = rng.next_u64();
        let m = v % 4;
        if m == 0 {
            Direction::North
        } else if m == 1 {
            Direction::South
        } else if m == 2 {
            Direction::East
        } else {
            Direction::West
        }
    }
}

/// A grid coordinate. Coordinates wrap around on underflow, so stepping off
/// the low edge of the map yields a point that no map holds.
#[derive(Clone, Copy, PartialEq, Eq, Structural, Debug)]
pub struct Point {
    pub x: usize,
    pub y: usize,
}

/// `v - 1`, wrapping to the largest `usize` below zero.
pub open spec fn dec(v: usize) -> usize {
    if v == 0 {
        usize::MAX
    } else {
        (v - 1) as usize
    }
}

/// `v + 1`, wrapping to zero above the largest `usize`.
pub open spec fn inc(v: usize) -> usize {
    if v == usize::MAX {
        0
    } else {
        (v + 1) as usize
    }
}

/// The neighbour of `p` one step in direction `d`.
pub open spec fn step(p: Point, d: Direction) -> Point {
    match d {
        Direction::North => Point { x: p.x, y: dec(p.y) },
        Direction::East => Point { x: inc(p.x), y: p.y },
        Direction::South => Point { x: p.x, y: inc(p.y) },
        Direction::West => Point { x: dec(p.x), y: p.y },
    }
}

/// |a - b| over the integers.
pub open spec fn abs_diff(a: int, b: int) -> int {
    if a >= b {
        a - b
    } else {
        b - a
    }
}

/// Manhattan distance between two points.
pub open spec fn manhattan(a: Point, b: Point) -> int {
    abs_diff(a.x as int, b.x as int) + abs_diff(a.y as int, b.y as int)
}

/// `b` is one of the four cardinal neighbours of `a`: they are one step
/// apart over the integers.
pub open spec fn adjacent(a: Point, b: Point) -> bool {
    manhattan(a, b) == 1
}

impl Point {
    pub fn new(x: usize, y: usize) -> (r: Point)
        ensures
            r.x == x,
            r.y == y,
    {
        Point { x, y }
    }

    /// Copies the coordinates of `other` into `self`.
    pub fn set(&mut self, other: &Point)
        ensures
            *final(self) == *other,
    {
        self.x = other.x;
        self.y = other.y;
    }

    /// Moves `self` one step in `direction`.
    pub fn translate(&mut self, direction: &Direction)
        ensures
            *final(self) == step(*old(self), *direction),
    {
        match *direction {
            Direction::North => {
                self.y = self.y.wrapping_sub(1);
            },
            Direction::East => {
                self.x = self.x.wrapping_add(1);
            },
            Direction::South => {
                self.y = self.y.wrapping_add(1);
            },
            Direction::West => {
                self.x = self.x.wrapping_sub(1);
            },
        }
    }

    /// The neighbour one step in `direction`, leaving `self` as it is.
    pub fn translated(&self, direction: &Direction) -> (r: Point)
        ensures
            r == step(*self, *direction),
    {
        let mut p = *self;
        p.translate(direction);
        p
    }

    /// Manhattan distance, saturating at `usize::MAX`.
    pub fn distance_to(&self, other: &Point) -> (r: usize)
        ensures
            r as int == if manhattan(*self, *other) <= usize::MAX {
                manhattan(*self, *other)
            } else {
                usize::MAX as int
            },
    {
        let dx: usize = if self.x >= other.x {
            self.x - other.x
        } else {
            other.x - self.x
        };
        let dy: usize = if self.y >= other.y {
            self.y - other.y
        } else {
            other.y - self.y
        };
        dx.saturating_add(dy)
    }

    /// Whether `other` is one of the four cardinal neighbours of `self`.
    pub fn is_adjacent_to(&self, other: &Point) -> (r: bool)
        ensures
            r == adjacent(*self, *other),
    {
        self.distance_to(other) == 1
    }
}

/// A colour as red, green and blue components.
#[derive(Clone, Copy, PartialEq, Eq, Structural, Debug)]
pub struct Color {
    pub r: u8,
    pub g: u8,
    pub b: u8,
}

impl Color {
    pub fn new(r: u8, g: u8, b: u8) -> (c: Color)
        ensures
            c == (Color { r, g, b }),
    {
        Color { r, g, b }
    }

    pub fn red() -> (c: Color)
        ensures
            c == (Color { r: 255, g: 0, b: 0 }),
    {
        Color { r: 255, g: 0, b: 0 }
    }

    pub fn green() -> (c: Color)
        ensures
            c == (Color { r: 0, g: 255, b: 0 }),
    {
        Color { r: 0, g: 255, b: 0 }
    }

    pub fn black() -> (c: Color)
        ensures
            c == (Color { r: 0, g: 0, b: 0 }),
    {
        Color { r: 0, g: 0, b: 0 }
    }

    pub fn purple() -> (c: Color)
        ensures
            c == (Color { r: 160, g: 32, b: 240 }),
    {
        Color { r: 160, g: 32, b: 240 }
    }

    pub fn panel_green() -> (c: Color)
        ensures
            c == (Color { r: 76, g: 153, b: 0 }),
    {
        Color { r: 76, g: 153, b: 0 }
    }

    pub fn light_blue() -> (c: Color)
        ensures
            c == (Color { r: 0, g: 102, b: 204 }),
    {
        Color { r: 0, g: 102, b: 204 }
    }

    pub fn white() -> (c: Color)
        ensures
            c == (Color { r: 255, g: 255, b: 255 }),
    {
        Color { r: 255, g: 255, b: 255 }
    }
}

} // verus!
