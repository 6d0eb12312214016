//! Axes of bounding boxes, named by their index.
use vstd::prelude::*;

verus! {

#[derive(Clone, Copy, Debug, PartialEq, Eq, Structural)]
pub enum Axis {
    X,
    Y,
    Z,
}

impl Axis {
    pub open spec fn index_spec(self) -> int {
        match self {
            Axis::X => 0,
            Axis::Y => 1,
            Axis::Z => 2,
        }
    }

    /// The axis of index `n` (0 for x, 1 for y, 2 for z); `None` for any
    /// other index.
    pub fn from_index(n: i32) -> (r: Option<Axis>)
        ensures
            r is Some <==> 0 <= n < 3,
            r matches Some(a) ==> a.index_spec() == n,
    {
        match n {
            0 => Some(Axis::X),
            1 => Some(Axis::Y),
            2 => Some(Axis::Z),
            _ => None,
        }
    }

    /// The index of the axis.
    pub fn index(self) -> (r: usize)
        ensures
            r == self.index_spec(),
    {
        match self {
            Axis::X => 0,
            Axis::Y => 1,
            Axis::Z => 2,
        }
    }
}

} // verus!
