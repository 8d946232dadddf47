use vstd::prelude::*;

verus! {

/// A cell of the terminal: row `l` and column `c`.
#[derive(Clone, Copy, Debug, PartialEq, Eq, Structural)]
pub struct Location {
    pub l: u16,
    pub c: u16,
}

impl Location {
    pub fn new(l: u16, c: u16) -> (r: Location)
        ensures
            r.l == l,
            r.c == c,
    {
        Location { l, c }
    }

    /// True when both locations name the same cell.
    pub fn hit(&self, x: &Location) -> (r: bool)
        ensures
            r == (*self == *x),
    {
        self.c == x.c && self.l == x.l
    }
}

} // verus!
