//! Squares and the displacements between them.
use vstd::prelude::*;

verus! {

/// A square of the board, named by its file `x` and its rank `y`, both counted from zero.
#[derive(Copy, Clone, Debug, PartialEq, Eq, Structural)]
pub struct Coordinate {
    pub x: usize,
    pub y: usize,
}

/// A displacement between two squares, or a square read as a signed pair.
#[derive(Copy, Clone, Debug, PartialEq, Eq, Structural)]
pub struct Vector {
    pub x: i32,
    pub y: i32,
}

/// The distance between two numbers.
pub open spec fn distance(a: int, b: int) -> int {
    if a >= b {
        a - b
    } else {
        b - a
    }
}

/// The sign of a number: -1, 0 or 1.
pub open spec fn sign(a: int) -> int {
    if a > 0 {
        1
    } else if a < 0 {
        -1
    } else {
        0
    }
}

impl Coordinate {
    /// Whether the square lies on the eight by eight board.
    pub open spec fn in_bounds(self) -> bool {
        self.x < 8 && self.y < 8
    }

    /// The square on file `x` and rank `y`.
    pub fn new(x: usize, y: usize) -> (c: Self)
        ensures
            c == (Coordinate { x, y }),
    {
        Coordinate { x, y }
    }

    /// The square named by a pair of file and rank.
    pub fn from_tuple_usize(tuple: (usize, usize)) -> (c: Self)
        ensures
            c == (Coordinate { x: tuple.0, y: tuple.1 }),
    {
        Coordinate::new(tuple.0, tuple.1)
    }

    /// The square as a signed pair.
    pub fn vector(&self) -> (v: Vector)
        requires
            self.x <= i32::MAX,
            self.y <= i32::MAX,
        ensures
            v.x == self.x,
            v.y == self.y,
    {
        Vector::new(self.x_i32(), self.y_i32())
    }

    /// The file as a signed number.
    pub fn x_i32(&self) -> (x: i32)
        requires
            self.x <= i32::MAX,
        ensures
            x == self.x,
    {
        self.x as i32
    }

    /// The rank as a signed number.
    pub fn y_i32(&self) -> (y: i32)
        requires
            self.y <= i32::MAX,
        ensures
            y == self.y,
    {
        self.y as i32
    }
}

impl Vector {
    /// The displacement by `x` files and `y` ranks.
    pub fn new(x: i32, y: i32) -> (v: Self)
        ensures
            v == (Vector { x, y }),
    {
        Vector { x, y }
    }

    /// The componentwise difference `self - other`.
    pub fn subtract(&self, other: Vector) -> (v: Vector)
        requires
            i32::MIN <= self.x - other.x <= i32::MAX,
            i32::MIN <= self.y - other.y <= i32::MAX,
        ensures
            v.x == self.x - other.x,
            v.y == self.y - other.y,
    {
        Vector::new(self.x - other.x, self.y - other.y)
    }

    /// The componentwise distance between `self` and `other`.
    pub fn difference(&self, other: Vector) -> (v: Vector)
        requires
            distance(self.x as int, other.x as int) <= i32::MAX,
            distance(self.y as int, other.y as int) <= i32::MAX,
        ensures
            v.x == distance(self.x as int, other.x as int),
            v.y == distance(self.y as int, other.y as int),
    {
        let x: i32 = if self.x >= other.x {
            self.x - other.x
        } else {
            other.x - self.x
        };
        let y: i32 = if self.y >= other.y {
            self.y - other.y
        } else {
            other.y - self.y
        };
        Vector::new(x, y)
    }

    /// The componentwise sign: the single step that leads along `self`.
    pub fn direction(&self) -> (v: Vector)
        ensures
            v.x == sign(self.x as int),
            v.y == sign(self.y as int),
    {
        let direction_x: i32 = if self.x > 0 {
            1
        } else if self.x < 0 {
            -1
        } else {
            0
        };
        let direction_y: i32 = if self.y > 0 {
            1
        } else if self.y < 0 {
            -1
        } else {
            0
        };
        Vector::new(direction_x, direction_y)
    }
}

} // verus!
