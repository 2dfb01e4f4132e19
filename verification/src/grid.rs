//! The grid: its extent, its cells, and the rule by which a player moves.

use crate::outside::random_below;
use vstd::prelude::*;

verus! {

/// The extent of the grid. Fixed for the lifetime of a game.
#[derive(Clone, Copy, Debug, PartialEq, Eq, Structural)]
pub struct Field {
    pub width: u16,
    pub height: u16,
}

/// A cell of the grid.
#[derive(Clone, Copy, Debug, PartialEq, Eq, Hash, Structural)]
pub struct Position {
    pub x: u16,
    pub y: u16,
}

/// The four moves a player can ask for.
#[derive(Clone, Copy, Debug, PartialEq, Eq, Structural)]
pub enum Direction {
    Up,
    Down,
    Left,
    Right,
}

/// One step towards zero along an axis of `extent` cells: from 0 it wraps to
/// the last index.
pub open spec fn step_back(at: u16, extent: u16) -> u16 {
    if at == 0 {
        (extent - 1) as u16
    } else {
        (at - 1) as u16
    }
}

/// One step away from zero along an axis of `extent` cells. A step that
/// would reach or pass the last index returns to 0 instead, so the last
/// index is never the result of a forward step on an axis of two or more
/// cells.
pub open spec fn step_forward(at: u16, extent: u16) -> u16 {
    if at + 1 >= extent - 1 {
        0
    } else {
        (at + 1) as u16
    }
}

impl Position {
    pub fn new(x: u16, y: u16) -> (p: Self)
        ensures
            p == (Position { x, y }),
    {
        Self { x, y }
    }
}

impl Direction {
    /// The direction that undoes `self` on an unbounded grid.
    pub open spec fn opposite(self) -> Direction {
        match self {
            Direction::Up => Direction::Down,
            Direction::Down => Direction::Up,
            Direction::Left => Direction::Right,
            Direction::Right => Direction::Left,
        }
    }

    /// The direction that a drawn number stands for.
    pub open spec fn of_index(index: u16) -> Direction {
        if index == 1 {
            Direction::Down
        } else if index == 2 {
            Direction::Left
        } else if index == 3 {
            Direction::Right
        } else {
            Direction::Up
        }
    }

    /// Maps a drawn number to a direction: 0 is up, 1 down, 2 left, 3 right,
    /// and anything else up.
    pub fn from_index(index: u16) -> (d: Self)
        ensures
            d == Self::of_index(index),
    {
        match index {
            0 => Self::Up,
            1 => Self::Down,
            2 => Self::Left,
            3 => Self::Right,
            _ => Self::Up,
        }
    }

    /// A direction drawn at random. Nothing is promised about which one,
    /// beyond its coming from a draw among the four.
    pub fn random() -> (d: Self)
        ensures
            exists|index: u16| index < 4 && d == Self::of_index(index),
    {
        let index: u16 = random_below(4);
        Self::from_index(index)
    }
}

impl Field {
    /// Whether `cell` lies inside the grid.
    pub open spec fn holds(self, cell: Position) -> bool {
        cell.x < self.width && cell.y < self.height
    }

    /// The cell a player at `from` reaches by one move in `direction`.
    ///
    /// Up and left decrease a coordinate and wrap from 0 to the last index.
    /// Down and right increase it and return to 0 as soon as the last index
    /// would be reached.
    pub open spec fn stepped(self, from: Position, direction: Direction) -> Position {
        match direction {
            Direction::Up => Position { x: from.x, y: step_back(from.y, self.height) },
            Direction::Down => Position { x: from.x, y: step_forward(from.y, self.height) },
            Direction::Left => Position { x: step_back(from.x, self.width), y: from.y },
            Direction::Right => Position { x: step_forward(from.x, self.width), y: from.y },
        }
    }

    /// Whether `cell` lies inside the grid.
    pub fn contains(&self, cell: &Position) -> (inside: bool)
        ensures
            inside == self.holds(*cell),
    {
        cell.x < self.width && cell.y < self.height
    }

    /// Moves one cell from `from` in `direction`.
    pub fn step(&self, from: Position, direction: Direction) -> (to: Position)
        requires
            self.holds(from),
        ensures
            to == self.stepped(from, direction),
            self.holds(to),
    {
        let mut to = from;
        match direction {
            Direction::Up => {
                if to.y == 0 {
                    to.y = self.height - 1;
                } else {
                    to.y -= 1;
                }
            },
            Direction::Down => {
                to.y += 1;
                if to.y >= self.height - 1 {
                    to.y = 0;
                }
            },
            Direction::Left => {
                if to.x == 0 {
                    to.x = self.width - 1;
                } else {
                    to.x -= 1;
                }
            },
            Direction::Right => {
                to.x += 1;
                if to.x >= self.width - 1 {
                    to.x = 0;
                }
            },
        }
        to
    }
}

/// A move never leaves the grid.
pub proof fn lemma_step_stays_inside(field: Field, from: Position, direction: Direction)
    requires
        field.holds(from),
    ensures
        field.holds(field.stepped(from, direction)),
{
}

/// Moving left from the first column lands on the last column, and moving up
/// from the first row lands on the last row.
pub proof fn lemma_backward_step_wraps(field: Field, from: Position)
    requires
        field.holds(from),
    ensures
        from.x == 0 ==> field.stepped(from, Direction::Left) == (Position {
            x: (field.width - 1) as u16,
            y: from.y,
        }),
        from.y == 0 ==> field.stepped(from, Direction::Up) == (Position {
            x: from.x,
            y: (field.height - 1) as u16,
        }),
        from.x > 0 ==> field.stepped(from, Direction::Left).x == from.x - 1,
        from.y > 0 ==> field.stepped(from, Direction::Up).y == from.y - 1,
{
}

/// Moving right or down never lands on the last column or row of a grid
/// that has more than one: from the last index and from the one before it,
/// the move goes to 0.
pub proof fn lemma_forward_step_skips_last(field: Field, from: Position)
    requires
        field.holds(from),
    ensures
        field.width >= 2 ==> field.stepped(from, Direction::Right).x != field.width - 1,
        field.height >= 2 ==> field.stepped(from, Direction::Down).y != field.height - 1,
        from.x + 2 >= field.width ==> field.stepped(from, Direction::Right).x == 0,
        from.y + 2 >= field.height ==> field.stepped(from, Direction::Down).y == 0,
        from.x + 2 < field.width ==> field.stepped(from, Direction::Right).x == from.x + 1,
        from.y + 2 < field.height ==> field.stepped(from, Direction::Down).y == from.y + 1,
{
}

/// The position of `cell` along the axis on which `direction` moves.
pub open spec fn along(cell: Position, direction: Direction) -> u16 {
    match direction {
        Direction::Up | Direction::Down => cell.y,
        Direction::Left | Direction::Right => cell.x,
    }
}

/// The number of cells of `field` along the axis on which `direction` moves.
pub open spec fn extent_along(field: Field, direction: Direction) -> u16 {
    match direction {
        Direction::Up | Direction::Down => field.height,
        Direction::Left | Direction::Right => field.width,
    }
}

/// A move followed by the opposite move does not always come back: the wrap
/// is not symmetric. Right then left (down then up) comes back exactly when
/// the first move did not wrap, or started on the last index. Left then
/// right (up then down) comes back from every cell but the last index of an
/// axis of two or more cells.
pub proof fn lemma_step_and_back(field: Field, from: Position, direction: Direction)
    requires
        field.holds(from),
    ensures
        ({
            let at = along(from, direction);
            let extent = extent_along(field, direction);
            let back = field.stepped(field.stepped(from, direction), direction.opposite());
            match direction {
                Direction::Right | Direction::Down => (back == from) <==> (at + 2 < extent || at
                    == extent - 1),
                Direction::Left | Direction::Up => (back == from) <==> (at == 0 || at < extent
                    - 1),
            }
        }),
{
}

} // verus!
