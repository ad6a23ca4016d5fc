use vstd::prelude::*;

verus! {

/// An integer grid coordinate, centred on the arena (the origin is its middle).
#[derive(Debug, Default, Clone, Copy, PartialEq, Eq, Structural)]
pub struct Position {
    pub x: i32,
    pub y: i32,
}

/// `a + b` fits in `i32` on both axes.
pub open spec fn sum_fits(a: Position, b: Position) -> bool {
    i32::MIN <= a.x + b.x <= i32::MAX && i32::MIN <= a.y + b.y <= i32::MAX
}

pub open spec fn spec_add(a: Position, b: Position) -> Position {
    Position { x: (a.x + b.x) as i32, y: (a.y + b.y) as i32 }
}

impl core::ops::Add<Position> for Position {
    type Output = Position;

    fn add(self, rhs: Position) -> (r: Position) {
        Position { x: self.x + rhs.x, y: self.y + rhs.y }
    }
}

impl vstd::std_specs::ops::AddSpecImpl<Position> for Position {
    open spec fn obeys_add_spec() -> bool {
        true
    }

    open spec fn add_req(self, rhs: Position) -> bool {
        sum_fits(self, rhs)
    }

    open spec fn add_spec(self, rhs: Position) -> Position {
        spec_add(self, rhs)
    }
}

impl core::ops::Neg for Position {
    type Output = Position;

    fn neg(self) -> (r: Position) {
        Position { x: -self.x, y: -self.y }
    }
}

impl vstd::std_specs::ops::NegSpecImpl for Position {
    open spec fn obeys_neg_spec() -> bool {
        true
    }

    open spec fn neg_req(self) -> bool {
        self.x != i32::MIN && self.y != i32::MIN
    }

    open spec fn neg_spec(self) -> Position {
        Position { x: (-self.x) as i32, y: (-self.y) as i32 }
    }
}

impl core::ops::Sub<Position> for Position {
    type Output = Position;

    fn sub(self, rhs: Position) -> (r: Position) {
        Position { x: self.x - rhs.x, y: self.y - rhs.y }
    }
}

impl vstd::std_specs::ops::SubSpecImpl<Position> for Position {
    open spec fn obeys_sub_spec() -> bool {
        true
    }

    open spec fn sub_req(self, rhs: Position) -> bool {
        i32::MIN <= self.x - rhs.x <= i32::MAX
            && i32::MIN <= self.y - rhs.y <= i32::MAX
    }

    open spec fn sub_spec(self, rhs: Position) -> Position {
        Position { x: (self.x - rhs.x) as i32, y: (self.y - rhs.y) as i32 }
    }
}

impl Position {
    /// Moves this position by `rhs` in place.
    pub fn add_assign(&mut self, rhs: Position)
        requires
            sum_fits(*old(self), rhs),
        ensures
            *final(self) == spec_add(*old(self), rhs),
    {
        self.x = self.x + rhs.x;
        self.y = self.y + rhs.y;
    }
}

/// An axis-aligned box of `width` by `height` grid units, centred on the
/// position of the entity that carries it.
#[derive(Debug, Clone, Copy, PartialEq, Eq, Structural)]
pub struct Rec {
    pub width: i32,
    pub height: i32,
}

pub open spec fn abs(v: int) -> int {
    if v < 0 { -v } else { v }
}

/// Strict interior test: `|x| < width / 2` and `|y| < height / 2` over the
/// rationals, which is `2|x| < width` and `2|y| < height` over the integers.
pub open spec fn rec_contains(r: Rec, p: Position) -> bool {
    2 * abs(p.x as int) < r.width && 2 * abs(p.y as int) < r.height
}

impl Rec {
    /// Whether `position` (relative to the box's centre) lies strictly inside
    /// the box; a cell on the edge is outside.
    pub fn contains(&self, position: Position) -> (r: bool)
        ensures
            r == rec_contains(*self, position),
    {
        let x: i64 = position.x as i64;
        let y: i64 = position.y as i64;
        let w: i64 = self.width as i64;
        let h: i64 = self.height as i64;
        let ax: i64 = if x < 0 { -x } else { x };
        let ay: i64 = if y < 0 { -y } else { y };
        2 * ax < w && 2 * ay < h
    }
}

/// One of the four compass headings.
#[derive(Debug, Clone, Copy, PartialEq, Eq, Structural)]
pub enum Direction {
    Up,
    Down,
    Left,
    Right,
}

pub open spec fn spec_opposite(d: Direction) -> Direction {
    match d {
        Direction::Left => Direction::Right,
        Direction::Right => Direction::Left,
        Direction::Up => Direction::Down,
        Direction::Down => Direction::Up,
    }
}

/// The unit step of a direction: Up is `(0, 1)`, Down `(0, -1)`, Left
/// `(-1, 0)`, Right `(1, 0)`.
pub open spec fn unit(d: Direction) -> Position {
    match d {
        Direction::Up => Position { x: 0, y: 1 },
        Direction::Down => Position { x: 0, y: -1i32 },
        Direction::Left => Position { x: -1i32, y: 0 },
        Direction::Right => Position { x: 1, y: 0 },
    }
}

impl Direction {
    pub fn opposite(self) -> (r: Self)
        ensures
            r == spec_opposite(self),
    {
        match self {
            Self::Left => Self::Right,
            Self::Right => Self::Left,
            Self::Up => Self::Down,
            Self::Down => Self::Up,
        }
    }
}

impl Default for Direction {
    fn default() -> (r: Self)
        ensures
            r == Direction::Right,
    {
        Direction::Right
    }
}

impl From<Direction> for Position {
    fn from(value: Direction) -> (r: Self) {
        match value {
            Direction::Up => Position { x: 0, y: 1 },
            Direction::Down => Position { x: 0, y: -1 },
            Direction::Left => Position { x: -1, y: 0 },
            Direction::Right => Position { x: 1, y: 0 },
        }
    }
}

impl vstd::std_specs::convert::FromSpecImpl<Direction> for Position {
    open spec fn obeys_from_spec() -> bool {
        true
    }

    open spec fn from_spec(v: Direction) -> Position {
        unit(v)
    }
}

/// Turning around twice faces the same way again.
pub proof fn lemma_opposite_involutive(d: Direction)
    ensures
        spec_opposite(spec_opposite(d)) == d,
{
}

} // verus!
