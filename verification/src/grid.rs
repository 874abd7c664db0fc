use vstd::prelude::*;

verus! {

/// One integer cell coordinate on the grid.
#[derive(Clone, Copy, PartialEq, Eq, Structural, Debug)]
pub struct Position {
    pub x: usize,
    pub y: usize,
}

/// The single construction-time failure: a grid must have positive dimensions,
/// since the wraparound movement rule reduces coordinates modulo the dimensions.
#[derive(Clone, Copy, PartialEq, Eq, Structural, Debug)]
pub enum GridError {
    InvalidDimensions,
}

/// The authoritative grid: dimensions only. Cell contents are derived once at
/// generation time and live in the entity store, never here.
#[derive(Clone, Copy, Debug)]
pub struct GridMap {
    width: usize,
    height: usize,
}

/// The successor of `v` modulo `m`.
pub open spec fn wrap_succ(v: usize, m: usize) -> usize
    recommends
        m > 0,
{
    (((v as int) + 1) % (m as int)) as usize
}

impl GridMap {
    /// The grid width; positive for every constructed grid.
    pub closed spec fn spec_width(self) -> usize {
        self.width
    }

    /// The grid height; positive for every constructed grid.
    pub closed spec fn spec_height(self) -> usize {
        self.height
    }

    #[verifier::type_invariant]
    closed spec fn wf(self) -> bool {
        self.width > 0 && self.height > 0
    }

    /// Builds a grid, rejecting non-positive dimensions.
    pub fn new(width: usize, height: usize) -> (r: Result<GridMap, GridError>)
        ensures
            (width > 0 && height > 0) <==> r is Ok,
            r is Ok ==> r->Ok_0.spec_width() == width && r->Ok_0.spec_height() == height,
            r is Err ==> r->Err_0 == GridError::InvalidDimensions,
    {
        if width == 0 || height == 0 {
            Err(GridError::InvalidDimensions)
        } else {
            Ok(GridMap { width, height })
        }
    }

    /// The width; its positivity is part of every constructed grid.
    pub fn width(&self) -> (w: usize)
        ensures
            w == self.spec_width(),
            w > 0,
    {
        proof {
            use_type_invariant(&*self);
        }
        self.width
    }

    /// The height; its positivity is part of every constructed grid.
    pub fn height(&self) -> (h: usize)
        ensures
            h == self.spec_height(),
            h > 0,
    {
        proof {
            use_type_invariant(&*self);
        }
        self.height
    }

    /// The geometric center cell (integer division), where robots park.
    pub open spec fn spec_center(self) -> Position {
        Position { x: (self.spec_width() / 2) as usize, y: (self.spec_height() / 2) as usize }
    }

    pub fn center(&self) -> (p: Position)
        ensures
            p == self.spec_center(),
    {
        Position { x: self.width / 2, y: self.height / 2 }
    }

    /// Whether `p` lies on the grid.
    pub open spec fn spec_in_bounds(self, p: Position) -> bool {
        p.x < self.spec_width() && p.y < self.spec_height()
    }

    pub fn in_bounds(&self, p: Position) -> (r: bool)
        ensures
            r == self.spec_in_bounds(p),
    {
        p.x < self.width && p.y < self.height
    }

    /// Where one diagonal step from `p` lands: both coordinates advance by one,
    /// wrapping modulo the grid dimensions.
    pub open spec fn spec_step(self, p: Position) -> Position {
        Position { x: wrap_succ(p.x, self.spec_width()), y: wrap_succ(p.y, self.spec_height()) }
    }

    /// Advances a position one diagonal step with wraparound.
    pub fn step(&self, p: Position) -> (q: Position)
        requires
            self.spec_in_bounds(p),
        ensures
            q == self.spec_step(p),
            self.spec_in_bounds(q),
    {
        proof {
            use_type_invariant(&*self);
        }
        Position { x: (p.x + 1) % self.width, y: (p.y + 1) % self.height }
    }
}

} // verus!
