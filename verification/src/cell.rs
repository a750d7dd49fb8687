//! The two-state [`Cell`] value that a grid is made of.

use vstd::prelude::*;

verus! {

/// One cell of the grid: either `Dead` or `Alive`.
///
/// A cell is a plain value with no identity beyond its state; it is freely
/// copyable. Its integer image is `0` for `Dead` and `1` for `Alive`, and
/// construction from an integer yields `Alive` exactly for values strictly
/// greater than zero.
#[derive(Clone, Copy, PartialEq, Eq, Structural, Debug)]
pub enum Cell {
    Dead,
    Alive,
}

/// The state a cell flips to: `Dead` becomes `Alive` and `Alive` becomes `Dead`.
pub open spec fn spec_toggled(c: Cell) -> Cell {
    match c {
        Cell::Dead => Cell::Alive,
        Cell::Alive => Cell::Dead,
    }
}

/// `1` for an `Alive` cell and `0` for a `Dead` one; the summand used when
/// counting live neighbors.
pub open spec fn spec_weight(c: Cell) -> int {
    match c {
        Cell::Dead => 0,
        Cell::Alive => 1,
    }
}

impl Cell {
    /// Conversion from the boolean domain: `true` maps to `Alive`.
    pub fn from_bool(b: bool) -> (c: Cell)
        ensures
            c == (if b {
                Cell::Alive
            } else {
                Cell::Dead
            }),
    {
        if b {
            Cell::Alive
        } else {
            Cell::Dead
        }
    }

    /// Conversion to the boolean domain: `true` exactly for `Alive`.
    pub fn to_bool(self) -> (b: bool)
        ensures
            b == (self == Cell::Alive),
    {
        match self {
            Cell::Alive => true,
            Cell::Dead => false,
        }
    }

    /// Construction from an unsigned integer: `Alive` exactly when the value
    /// is strictly greater than zero.
    pub fn from_u64(v: u64) -> (c: Cell)
        ensures
            c == (if v > 0 {
                Cell::Alive
            } else {
                Cell::Dead
            }),
    {
        if v > 0 {
            Cell::Alive
        } else {
            Cell::Dead
        }
    }

    /// Construction from a signed integer: `Alive` exactly when the value is
    /// strictly greater than zero; every non-positive value maps to `Dead`.
    pub fn from_i64(v: i64) -> (c: Cell)
        ensures
            c == (if v > 0 {
                Cell::Alive
            } else {
                Cell::Dead
            }),
    {
        if v > 0 {
            Cell::Alive
        } else {
            Cell::Dead
        }
    }

    /// Conversion to the integer domain: exactly `0` or `1`. Wider integer
    /// images follow by ordinary widening of the result.
    pub fn to_u8(self) -> (v: u8)
        ensures
            v as int == spec_weight(self),
    {
        match self {
            Cell::Dead => 0,
            Cell::Alive => 1,
        }
    }

    /// Negation: flips the state.
    pub fn toggled(self) -> (c: Cell)
        ensures
            c == spec_toggled(self),
    {
        match self {
            Cell::Dead => Cell::Alive,
            Cell::Alive => Cell::Dead,
        }
    }
}

impl From<bool> for Cell {
    /// `true` maps to `Alive`, `false` to `Dead`.
    fn from(b: bool) -> (c: Cell) {
        Cell::from_bool(b)
    }
}

impl vstd::std_specs::convert::FromSpecImpl<bool> for Cell {
    open spec fn obeys_from_spec() -> bool {
        true
    }

    open spec fn from_spec(b: bool) -> Cell {
        if b {
            Cell::Alive
        } else {
            Cell::Dead
        }
    }
}

impl From<Cell> for bool {
    /// `Alive` maps to `true`, `Dead` to `false`.
    fn from(c: Cell) -> (b: bool) {
        c.to_bool()
    }
}

impl vstd::std_specs::convert::FromSpecImpl<Cell> for bool {
    open spec fn obeys_from_spec() -> bool {
        true
    }

    open spec fn from_spec(c: Cell) -> bool {
        c == Cell::Alive
    }
}

impl Default for Cell {
    /// The default cell is `Dead`.
    fn default() -> (c: Cell)
        ensures
            c == Cell::Dead,
    {
        Cell::Dead
    }
}

} // verus!
