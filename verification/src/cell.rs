use vstd::prelude::*;

verus! {

/// State of one grid cell.
#[derive(Clone, Copy, Debug, PartialEq, Eq, Structural)]
pub enum Cell {
    Dead,
    Alive,
}

/// Numeric weight of a cell as summed by the neighbor count: a dead cell
/// contributes 0, a live one 1.
pub open spec fn spec_weight(c: Cell) -> int {
    match c {
        Cell::Dead => 0,
        Cell::Alive => 1,
    }
}

impl Cell {
    /// The weight this cell contributes to a neighbor-count sum.
    pub fn weight(&self) -> (w: u8)
        ensures
            w == spec_weight(*self),
    {
        match self {
            Cell::Dead => 0,
            Cell::Alive => 1,
        }
    }

    /// Human-readable name of the state.
    pub fn label(&self) -> (r: &'static str)
        ensures
            *self == Cell::Dead ==> r@ == "Dead"@,
            *self == Cell::Alive ==> r@ == "Alive"@,
    {
        match self {
            Cell::Dead => "Dead",
            Cell::Alive => "Alive",
        }
    }
}

} // verus!
