//! Grid coordinates.

use crate::structs::shape::Rect;
use vstd::arithmetic::div_mod::{lemma_fundamental_div_mod, lemma_fundamental_div_mod_converse};
use vstd::arithmetic::mul::lemma_mul_is_commutative;
use vstd::prelude::*;
use vstd::std_specs::cmp::PartialEqSpec;

verus! {

/// The greatest whole number that is not above `value / cell`.
pub open spec fn floor_div(value: int, cell: int) -> int
    recommends
        cell != 0,
{
    if cell > 0 {
        value / cell
    } else {
        (-value) / (-cell)
    }
}

/// The top-left corner of a grid cell, in screen units, together with the
/// size of the cells of its grid.
#[derive(Debug, Copy, Clone, Eq, Hash)]
pub struct GridPosition {
    pub cell_size: (i32, i32),
    pub x: i32,
    pub y: i32,
}

impl PartialEq for GridPosition {
    /// Equal cell sizes, equal `x` and equal `y`.
    fn eq(&self, other: &Self) -> (same: bool) {
        self.cell_size.0 == other.cell_size.0 && self.cell_size.1 == other.cell_size.1 && self.x
            == other.x && self.y == other.y
    }
}

impl vstd::std_specs::cmp::PartialEqSpecImpl for GridPosition {
    open spec fn obeys_eq_spec() -> bool {
        true
    }

    open spec fn eq_spec(&self, other: &Self) -> bool {
        self.cell_size.0 == other.cell_size.0 && self.cell_size.1 == other.cell_size.1 && self.x
            == other.x && self.y == other.y
    }
}

impl GridPosition {
    /// The coordinate of the cell with the given column and row.
    pub open spec fn at(x: i32, y: i32, cell_size: (i32, i32)) -> GridPosition {
        GridPosition { cell_size, x: (x * cell_size.0) as i32, y: (y * cell_size.1) as i32 }
    }

    /// The scaled index is a screen coordinate that the machine can hold.
    pub open spec fn scales(index: i32, cell: i32) -> bool {
        i32::MIN <= index * cell <= i32::MAX
    }

    /// The column, or the row, of the cell that holds a screen coordinate.
    /// Cells without extent cannot be told apart: on such a grid every
    /// coordinate is in column 0.
    pub open spec fn index_of(value: i32, cell: i32) -> int {
        if cell == 0 {
            0
        } else {
            floor_div(value as int, cell as int)
        }
    }

    /// The cell that holds the coordinate has an index and a corner that the
    /// machine can hold.
    pub open spec fn snaps(value: i32, cell: i32) -> bool {
        &&& i32::MIN <= Self::index_of(value, cell) <= i32::MAX
        &&& i32::MIN <= Self::index_of(value, cell) * cell <= i32::MAX
    }

    /// The coordinate of the cell that holds a screen point.
    pub open spec fn containing(point: (i32, i32), cell_size: (i32, i32)) -> GridPosition {
        Self::at(
            Self::index_of(point.0, cell_size.0) as i32,
            Self::index_of(point.1, cell_size.1) as i32,
            cell_size,
        )
    }

    /// The top-left corner of the cell.
    pub open spec fn corner(self) -> (i32, i32) {
        (self.x, self.y)
    }

    /// The square the cell occupies.
    pub open spec fn bounds(self) -> Rect {
        Rect { x: self.x, y: self.y, w: self.cell_size.0, h: self.cell_size.1 }
    }

    /// The corners can be added within the machine's range.
    pub open spec fn adds(self, other: GridPosition) -> bool {
        &&& i32::MIN <= self.x + other.x <= i32::MAX
        &&& i32::MIN <= self.y + other.y <= i32::MAX
    }

    /// The corners added, with the cell size of `self`.
    pub open spec fn plus(self, other: GridPosition) -> GridPosition {
        GridPosition {
            cell_size: self.cell_size,
            x: (self.x + other.x) as i32,
            y: (self.y + other.y) as i32,
        }
    }

    /// The corners can be multiplied within the machine's range.
    pub open spec fn multiplies(self, other: GridPosition) -> bool {
        &&& i32::MIN <= self.x * other.x <= i32::MAX
        &&& i32::MIN <= self.y * other.y <= i32::MAX
    }

    /// The corners multiplied, with the cell size of `self`.
    pub open spec fn times(self, other: GridPosition) -> GridPosition {
        GridPosition {
            cell_size: self.cell_size,
            x: (self.x * other.x) as i32,
            y: (self.y * other.y) as i32,
        }
    }
}

impl GridPosition {
    /// Scales a column and a row by the cell size.
    pub fn new(x: i32, y: i32, cell_size: (i32, i32)) -> (position: GridPosition)
        requires
            Self::scales(x, cell_size.0),
            Self::scales(y, cell_size.1),
        ensures
            position == Self::at(x, y, cell_size),
            position.x == x * cell_size.0,
            position.y == y * cell_size.1,
            position.cell_size == cell_size,
    {
        let x: i32 = x * cell_size.0;
        let y: i32 = y * cell_size.1;
        GridPosition { cell_size, x, y }
    }

    /// `new` for every column and row: `None` where the scaled index is a
    /// screen coordinate that the machine cannot hold.
    pub fn checked_new(x: i32, y: i32, cell_size: (i32, i32)) -> (made: Option<GridPosition>)
        ensures
            made is Some <==> Self::scales(x, cell_size.0) && Self::scales(y, cell_size.1),
            made matches Some(position) ==> position == Self::at(x, y, cell_size),
    {
        let wide_x: i64 = Self::scaled(x, cell_size.0);
        let wide_y: i64 = Self::scaled(y, cell_size.1);
        if wide_x < i32::MIN as i64 || wide_x > i32::MAX as i64 || wide_y < i32::MIN as i64
            || wide_y > i32::MAX as i64 {
            None
        } else {
            Some(GridPosition { cell_size, x: wide_x as i32, y: wide_y as i32 })
        }
    }

    /// Finds the cell under a screen point and gives its coordinate.
    pub fn from_vec2(vec: (i32, i32), cell_size: (i32, i32)) -> (position: GridPosition)
        requires
            Self::snaps(vec.0, cell_size.0),
            Self::snaps(vec.1, cell_size.1),
        ensures
            position == Self::containing(vec, cell_size),
            position.x == Self::index_of(vec.0, cell_size.0) * cell_size.0,
            position.y == Self::index_of(vec.1, cell_size.1) * cell_size.1,
            position.cell_size == cell_size,
    {
        let x: i32 = Self::index(vec.0, cell_size.0) as i32;
        let y: i32 = Self::index(vec.1, cell_size.1) as i32;
        Self::new(x, y, cell_size)
    }

    /// `from_vec2` for every point: `None` where the cell under the point
    /// has an index or a corner that the machine cannot hold.
    pub fn checked_from_vec2(vec: (i32, i32), cell_size: (i32, i32)) -> (found: Option<
        GridPosition,
    >)
        ensures
            found is Some <==> Self::snaps(vec.0, cell_size.0) && Self::snaps(vec.1, cell_size.1),
            found matches Some(position) ==> position == Self::containing(vec, cell_size),
    {
        let x: i64 = Self::index(vec.0, cell_size.0);
        let y: i64 = Self::index(vec.1, cell_size.1);
        if x < i32::MIN as i64 || x > i32::MAX as i64 || y < i32::MIN as i64 || y > i32::MAX as i64 {
            return None;
        }
        Self::checked_new(x as i32, y as i32, cell_size)
    }

    /// The top-left corner of the cell as a screen point.
    pub fn as_vec2(&self) -> (point: (i32, i32))
        ensures
            point == self.corner(),
    {
        (self.x, self.y)
    }

    /// The square the cell occupies: its corner and the cell size.
    pub fn as_rect(&self) -> (rect: Rect)
        ensures
            rect == self.bounds(),
    {
        Rect { x: self.x, y: self.y, w: self.cell_size.0, h: self.cell_size.1 }
    }

    /// Whether any part of the cell lies outside a viewport of the given
    /// size: its left or top edge before the origin, or its right or bottom
    /// edge past the viewport's.
    pub fn is_offscreen(&self, window_size: (i32, i32)) -> (offscreen: bool)
        ensures
            offscreen == !self.bounds().within(window_size),
            offscreen == (self.x < 0 || self.x > window_size.0 - self.cell_size.0 || self.y < 0
                || self.y > window_size.1 - self.cell_size.1),
    {
        let right: i64 = window_size.0 as i64 - self.cell_size.0 as i64;
        let bottom: i64 = window_size.1 as i64 - self.cell_size.1 as i64;
        self.x < 0 || self.x as i64 > right || self.y < 0 || self.y as i64 > bottom
    }

    /// The coordinate as one number: cell width, cell height, `x` and `y`,
    /// each moved into the range of 32 unsigned bits and written side by side.
    pub open spec fn spec_key(&self) -> u128 {
        ((((self.cell_size.0 + 0x8000_0000) * 0x1_0000_0000 + (self.cell_size.1 + 0x8000_0000))
            * 0x1_0000_0000 + (self.x + 0x8000_0000)) * 0x1_0000_0000 + (self.y
            + 0x8000_0000)) as u128
    }

    /// The number under which a registry files the coordinate.
    #[verifier::when_used_as_spec(spec_key)]
    pub fn key(&self) -> (key: u128)
        ensures
            key == self.spec_key(),
    {
        let width: u128 = (self.cell_size.0 as i64 + 0x8000_0000) as u128;
        let height: u128 = (self.cell_size.1 as i64 + 0x8000_0000) as u128;
        let x: u128 = (self.x as i64 + 0x8000_0000) as u128;
        let y: u128 = (self.y as i64 + 0x8000_0000) as u128;
        ((width * 0x1_0000_0000 + height) * 0x1_0000_0000 + x) * 0x1_0000_0000 + y
    }

    fn scaled(index: i32, cell: i32) -> (wide: i64)
        ensures
            wide == index * cell,
    {
        assert(-0x4000_0000_0000_0000 <= index * cell <= 0x4000_0000_0000_0000)
            by (nonlinear_arith)
            requires
                -0x8000_0000 <= index <= 0x8000_0000,
                -0x8000_0000 <= cell <= 0x8000_0000,
        ;
        index as i64 * cell as i64
    }

    fn index(value: i32, cell: i32) -> (index: i64)
        ensures
            index == Self::index_of(value, cell),
            -0x8000_0000 <= index <= 0x8000_0000,
    {
        if cell == 0 {
            0
        } else if cell > 0 {
            floor_div_positive(value as i64, cell as i64)
        } else {
            floor_div_positive(-(value as i64), -(cell as i64))
        }
    }
}

/// `floor_div` with a positive divisor, on machine integers.
fn floor_div_positive(value: i64, cell: i64) -> (quotient: i64)
    requires
        0 < cell <= 0x8000_0000,
        -0x8000_0000 <= value <= 0x8000_0000,
    ensures
        quotient == floor_div(value as int, cell as int),
        -0x8000_0000 <= quotient <= 0x8000_0000,
{
    if value >= 0 {
        let quotient: i64 = value / cell;
        proof {
            lemma_fundamental_div_mod(value as int, cell as int);
            assert(0 <= quotient <= value) by (nonlinear_arith)
                requires
                    value == cell * quotient + (value % cell),
                    0 <= value % cell < cell,
                    0 < cell,
                    0 <= value,
            ;
        }
        quotient
    } else {
        let size: i64 = -value;
        let whole: i64 = size / cell;
        let rest: i64 = size % cell;
        proof {
            lemma_fundamental_div_mod(size as int, cell as int);
            assert(0 <= whole <= size) by (nonlinear_arith)
                requires
                    size == cell * whole + rest,
                    0 <= rest < cell,
                    0 < cell,
                    0 <= size,
            ;
        }
        if rest == 0 {
            proof {
                assert(value == (-whole) * cell + 0) by (nonlinear_arith)
                    requires
                        -value == cell * whole + 0,
                ;
                lemma_fundamental_div_mod_converse(value as int, cell as int, -whole, 0);
            }
            -whole
        } else {
            proof {
                assert(value == (-whole - 1) * cell + (cell - rest) && whole < size)
                    by (nonlinear_arith)
                    requires
                        -value == cell * whole + rest,
                        size == -value,
                        0 < rest,
                        0 < cell,
                        0 <= whole,
                ;
                lemma_fundamental_div_mod_converse(
                    value as int,
                    cell as int,
                    -whole - 1,
                    cell - rest,
                );
            }
            -whole - 1
        }
    }
}

/// `a + b` adds the corners and keeps the cell size of `a`. The sums must
/// fit the machine's range (`adds`); the result is `a.plus(b)`.
impl core::ops::Add for GridPosition {
    type Output = GridPosition;

    fn add(self, other: GridPosition) -> (sum: GridPosition) {
        GridPosition { cell_size: self.cell_size, x: self.x + other.x, y: self.y + other.y }
    }
}

impl vstd::std_specs::ops::AddSpecImpl for GridPosition {
    open spec fn obeys_add_spec() -> bool {
        true
    }

    open spec fn add_req(self, other: GridPosition) -> bool {
        self.adds(other)
    }

    open spec fn add_spec(self, other: GridPosition) -> GridPosition {
        self.plus(other)
    }
}

impl core::ops::AddAssign for GridPosition {
    /// Moves the coordinate by the corner of `other`; the cell size stays.
    fn add_assign(&mut self, other: GridPosition)
        requires
            old(self).adds(other),
        ensures
            *final(self) == old(self).plus(other),
    {
        self.x = self.x + other.x;
        self.y = self.y + other.y;
    }
}

/// `a * b` multiplies the corners and keeps the cell size of `a`. The
/// products must fit the machine's range (`multiplies`); the result is
/// `a.times(b)`.
impl core::ops::Mul for GridPosition {
    type Output = GridPosition;

    fn mul(self, other: GridPosition) -> (product: GridPosition) {
        GridPosition { cell_size: self.cell_size, x: self.x * other.x, y: self.y * other.y }
    }
}

impl vstd::std_specs::ops::MulSpecImpl for GridPosition {
    open spec fn obeys_mul_spec() -> bool {
        true
    }

    open spec fn mul_req(self, other: GridPosition) -> bool {
        self.multiplies(other)
    }

    open spec fn mul_spec(self, other: GridPosition) -> GridPosition {
        self.times(other)
    }
}

impl GridPosition {
    /// A coordinate made from a column and a row has its corner at the column
    /// times the cell width and the row times the cell height.
    pub proof fn lemma_indices_scale_to_corner(col: i32, row: i32, cell_size: (i32, i32))
        requires
            Self::scales(col, cell_size.0),
            Self::scales(row, cell_size.1),
        ensures
            Self::at(col, row, cell_size).corner().0 == col * cell_size.0,
            Self::at(col, row, cell_size).corner().1 == row * cell_size.1,
    {
    }

    /// On a grid of cells with positive extent, a coordinate on the screen
    /// side of the origin always has a cell that the machine can hold.
    pub proof fn lemma_screen_coordinates_snap(value: i32, cell: i32)
        requires
            0 <= value,
            0 < cell,
        ensures
            Self::snaps(value, cell),
            0 <= Self::index_of(value, cell) * cell <= value,
    {
        let index = Self::index_of(value, cell);
        let rest = (value as int) % (cell as int);
        lemma_fundamental_div_mod(value as int, cell as int);
        lemma_mul_is_commutative(cell as int, index);
        assert(0 <= index <= value) by (nonlinear_arith)
            requires
                value == cell * index + rest,
                0 <= rest < cell,
                0 < cell,
                0 <= value,
        ;
    }

    /// On a grid of cells with positive extent, the square of the cell found
    /// for a point contains that point.
    pub proof fn lemma_cell_holds_point(point: (i32, i32), cell_size: (i32, i32))
        requires
            0 < cell_size.0,
            0 < cell_size.1,
            Self::snaps(point.0, cell_size.0),
            Self::snaps(point.1, cell_size.1),
        ensures
            Self::containing(point, cell_size).bounds().contains(point),
    {
        lemma_fundamental_div_mod(point.0 as int, cell_size.0 as int);
        lemma_fundamental_div_mod(point.1 as int, cell_size.1 as int);
        lemma_mul_is_commutative(cell_size.0 as int, Self::index_of(point.0, cell_size.0));
        lemma_mul_is_commutative(cell_size.1 as int, Self::index_of(point.1, cell_size.1));
    }

    /// The same for every point whose components are not negative: such a
    /// point always has a cell, and the cell's square contains it.
    pub proof fn lemma_cell_holds_screen_point(point: (i32, i32), cell_size: (i32, i32))
        requires
            0 < cell_size.0,
            0 < cell_size.1,
            0 <= point.0,
            0 <= point.1,
        ensures
            Self::snaps(point.0, cell_size.0),
            Self::snaps(point.1, cell_size.1),
            Self::containing(point, cell_size).bounds().contains(point),
    {
        Self::lemma_screen_coordinates_snap(point.0, cell_size.0);
        Self::lemma_screen_coordinates_snap(point.1, cell_size.1);
        Self::lemma_cell_holds_point(point, cell_size);
    }

    /// Two coordinates are equal exactly when their cell sizes, their `x`
    /// and their `y` are; `==` decides that, and equal coordinates have the
    /// same key, unequal ones different keys.
    pub proof fn lemma_equal_iff_same_key(a: GridPosition, b: GridPosition)
        ensures
            a == b <==> (a.cell_size == b.cell_size && a.x == b.x && a.y == b.y),
            a.eq_spec(&b) <==> a == b,
            a.key() == b.key() <==> a == b,
    {
    }
}

} // verus!
