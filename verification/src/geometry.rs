//! Arena geometry: grid cells, bounds, headings and heading resolution.

use vstd::prelude::*;

verus! {

/// Width of the arena in cells; cells have x in [0, ARENA_WIDTH).
pub const ARENA_WIDTH: i32 = 10;

/// Height of the arena in cells; cells have y in [0, ARENA_HEIGHT).
pub const ARENA_HEIGHT: i32 = 10;

/// A grid cell. Cells inside the arena satisfy `in_bounds_spec`; a head that
/// has just crossed the boundary may briefly hold a coordinate one step
/// outside, which the collision check then reports.
#[derive(Clone, Copy, PartialEq, Eq, Structural, Debug)]
pub struct Position {
    pub x: i32,
    pub y: i32,
}

/// The four headings the snake can hold.
#[derive(Clone, Copy, PartialEq, Eq, Structural, Debug)]
pub enum Direction {
    Left,
    Right,
    Up,
    Down,
}

/// The reverse of a heading.
pub open spec fn opposite_spec(d: Direction) -> Direction {
    match d {
        Direction::Left => Direction::Right,
        Direction::Right => Direction::Left,
        Direction::Up => Direction::Down,
        Direction::Down => Direction::Up,
    }
}

impl Direction {
    /// Returns the reverse of this heading.
    pub fn opposite(self) -> (r: Direction)
        ensures
            r == opposite_spec(self),
    {
        match self {
            Direction::Left => Direction::Right,
            Direction::Right => Direction::Left,
            Direction::Up => Direction::Down,
            Direction::Down => Direction::Up,
        }
    }
}

/// Reversing a heading twice yields the original heading.
pub proof fn lemma_opposite_involutive(d: Direction)
    ensures
        opposite_spec(opposite_spec(d)) == d,
{
}

/// No heading is its own reverse.
pub proof fn lemma_opposite_moves(d: Direction)
    ensures
        opposite_spec(d) != d,
{
}

/// True iff the cell lies inside the arena.
pub open spec fn in_bounds_spec(p: Position) -> bool {
    &&& 0 <= p.x < ARENA_WIDTH
    &&& 0 <= p.y < ARENA_HEIGHT
}

/// Boundary test: true iff 0 <= x < width and 0 <= y < height.
pub fn is_in_bounds(p: Position) -> (r: bool)
    ensures
        r == in_bounds_spec(p),
{
    0 <= p.x && p.x < ARENA_WIDTH && 0 <= p.y && p.y < ARENA_HEIGHT
}

/// One unit step from a cell along a heading: Left is x-1, Right is x+1,
/// Up is y+1, Down is y-1.
pub open spec fn step_position(p: Position, d: Direction) -> Position {
    match d {
        Direction::Left => (Position { x: (p.x - 1) as i32, y: p.y }),
        Direction::Right => (Position { x: (p.x + 1) as i32, y: p.y }),
        Direction::Up => (Position { x: p.x, y: (p.y + 1) as i32 }),
        Direction::Down => (Position { x: p.x, y: (p.y - 1) as i32 }),
    }
}

impl Position {
    /// Moves this cell one unit step along `d`.
    pub fn step(self, d: Direction) -> (r: Position)
        requires
            i32::MIN < self.x < i32::MAX,
            i32::MIN < self.y < i32::MAX,
        ensures
            r == step_position(self, d),
    {
        match d {
            Direction::Left => Position { x: self.x - 1, y: self.y },
            Direction::Right => Position { x: self.x + 1, y: self.y },
            Direction::Up => Position { x: self.x, y: self.y + 1 },
            Direction::Down => Position { x: self.x, y: self.y - 1 },
        }
    }
}

/// A unit step from a cell never lands on that same cell.
pub proof fn lemma_step_moves(p: Position, d: Direction)
    requires
        i32::MIN < p.x < i32::MAX,
        i32::MIN < p.y < i32::MAX,
    ensures
        step_position(p, d) != p,
{
}

/// The heading that results from one requested direction: a request equal to
/// the reverse of the current heading is rejected and the heading is kept;
/// any other request, and no request, leaves the requested (or current)
/// heading.
pub open spec fn resolve_heading(current: Direction, requested: Option<Direction>) -> Direction {
    match requested {
        Some(d) => if d == opposite_spec(current) {
            current
        } else {
            d
        },
        None => current,
    }
}

/// A request for the exact reverse of the current heading is never accepted:
/// the heading stays as it was.
pub proof fn lemma_reversal_rejected(current: Direction, requested: Direction)
    requires
        requested == opposite_spec(current),
    ensures
        resolve_heading(current, Some(requested)) == current,
{
}

/// The direction requested by the currently pressed keys, with precedence
/// Left > Right > Down > Up, or no request when no key is pressed.
pub open spec fn resolve_pressed_spec(left: bool, right: bool, down: bool, up: bool) -> Option<
    Direction,
> {
    if left {
        Some(Direction::Left)
    } else if right {
        Some(Direction::Right)
    } else if down {
        Some(Direction::Down)
    } else if up {
        Some(Direction::Up)
    } else {
        None
    }
}

/// Maps the four pressed-key flags to a single requested direction,
/// with precedence Left > Right > Down > Up.
pub fn resolve_pressed(left: bool, right: bool, down: bool, up: bool) -> (r: Option<Direction>)
    ensures
        r == resolve_pressed_spec(left, right, down, up),
{
    if left {
        Some(Direction::Left)
    } else if right {
        Some(Direction::Right)
    } else if down {
        Some(Direction::Down)
    } else if up {
        Some(Direction::Up)
    } else {
        None
    }
}

} // verus!
