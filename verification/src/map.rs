use vstd::prelude::*;
use crate::fixed::MAX_DIM;

verus! {

/// A reason a grid of cell codes was rejected at scene load.
#[derive(Clone, Copy, Debug, PartialEq, Eq, Structural)]
pub enum MapError {
    /// A side length is smaller than 3 (no interior cell) or larger than `MAX_DIM`.
    BadDimensions,
    /// The cell vector does not hold exactly `width * height` codes.
    BadCellCount,
    /// A border cell is empty, so a ray could leave the grid.
    OpenBorder,
}

/// An immutable rectangular grid of cell codes: 0 is passable, a positive
/// code `c` is a wall drawn with texture `c - 1`. Rows are stored
/// consecutively, row `y` cell `x` at index `y * width + x`.
pub struct GridMap {
    pub width: usize,
    pub height: usize,
    pub cells: Vec<u8>,
}

/// Every cell of the border ring of a `width` by `height` grid stored in
/// `cells` is a wall.
pub open spec fn grid_enclosed(width: int, height: int, cells: Seq<u8>) -> bool {
    forall|x: int, y: int|
        0 <= x < width && 0 <= y < height && (x == 0 || y == 0 || x == width - 1 || y == height
            - 1) ==> #[trigger] cells[y * width + x] > 0
}

impl GridMap {
    /// The cell code at column `x`, row `y`.
    pub open spec fn cell(self, x: int, y: int) -> u8 {
        self.cells@[y * self.width + x]
    }

    pub open spec fn in_bounds(self, x: int, y: int) -> bool {
        0 <= x < self.width && 0 <= y < self.height
    }

    /// Every cell of the border ring is a wall. Rays and movement stay inside
    /// the grid because of this ring; a map without it is refused at load.
    pub open spec fn enclosed(self) -> bool {
        grid_enclosed(self.width as int, self.height as int, self.cells@)
    }

    pub open spec fn dims_ok(self) -> bool {
        3 <= self.width <= MAX_DIM && 3 <= self.height <= MAX_DIM
    }

    pub open spec fn wf(self) -> bool {
        &&& self.dims_ok()
        &&& self.cells@.len() == self.width * self.height
        &&& self.enclosed()
    }

    /// An empty cell of a well-formed map is never on the border ring.
    pub proof fn lemma_empty_cell_is_interior(self, x: int, y: int)
        requires
            self.wf(),
            self.in_bounds(x, y),
            self.cell(x, y) == 0,
        ensures
            1 <= x < self.width - 1,
            1 <= y < self.height - 1,
    {
    }

    /// Validates a grid at scene load: side lengths in `3..=MAX_DIM`, exactly
    /// `width * height` codes, and a closed border ring of walls.
    pub fn new(width: usize, height: usize, cells: Vec<u8>) -> (r: Result<GridMap, MapError>)
        ensures
            match r {
                Ok(m) => {
                    &&& m.width == width
                    &&& m.height == height
                    &&& m.cells@ == cells@
                    &&& m.wf()
                },
                Err(MapError::BadDimensions) => !(3 <= width <= MAX_DIM && 3 <= height <= MAX_DIM),
                Err(MapError::BadCellCount) => {
                    &&& 3 <= width <= MAX_DIM && 3 <= height <= MAX_DIM
                    &&& cells@.len() != width * height
                },
                Err(MapError::OpenBorder) => {
                    &&& 3 <= width <= MAX_DIM && 3 <= height <= MAX_DIM
                    &&& cells@.len() == width * height
                    &&& !grid_enclosed(width as int, height as int, cells@)
                },
            },
    {
        if !(3 <= width && width <= MAX_DIM && 3 <= height && height <= MAX_DIM) {
            return Err(MapError::BadDimensions);
        }
        proof {
            assert(width * height <= 0x10_0000) by (nonlinear_arith)
                requires
                    width <= 1024,
                    height <= 1024,
            ;
        }
        if cells.len() != width * height {
            return Err(MapError::BadCellCount);
        }
        let mut y: usize = 0;
        while y < height
            invariant
                3 <= width <= MAX_DIM,
                3 <= height <= MAX_DIM,
                cells@.len() == width * height,
                y <= height,
                forall|i: int, j: int|
                    0 <= i < width && 0 <= j < y && (i == 0 || j == 0 || i == width - 1 || j
                        == height - 1) ==> #[trigger] cells@[j * width + i] > 0,
            decreases height - y,
        {
            let mut x: usize = 0;
            while x < width
                invariant
                    3 <= width <= MAX_DIM,
                    3 <= height <= MAX_DIM,
                    cells@.len() == width * height,
                    y < height,
                    x <= width,
                    forall|i: int, j: int|
                        0 <= i < width && 0 <= j < y && (i == 0 || j == 0 || i == width - 1 || j
                            == height - 1) ==> #[trigger] cells@[j * width + i] > 0,
                    forall|i: int|
                        0 <= i < x && (i == 0 || y == 0 || i == width - 1 || y == height - 1)
                            ==> #[trigger] cells@[y * width + i] > 0,
                decreases width - x,
            {
                if x == 0 || y == 0 || x == width - 1 || y == height - 1 {
                    proof {
                        assert(y * width + x < width * height && width * height <= 0x10_0000) by (nonlinear_arith)
                            requires
                                x < width,
                                y < height,
                                width <= 1024,
                                height <= 1024,
                        ;
                    }
                    if cells[y * width + x] == 0 {
                        return Err(MapError::OpenBorder);
                    }
                }
                x = x + 1;
            }
            y = y + 1;
        }
        Ok(GridMap { width, height, cells })
    }

    /// The cell code at column `x`, row `y` of a well-formed map.
    pub fn cell_at(&self, x: usize, y: usize) -> (c: u8)
        requires
            self.wf(),
            self.in_bounds(x as int, y as int),
        ensures
            c == self.cell(x as int, y as int),
    {
        proof {
            assert(y * self.width + x < self.width * self.height && self.width * self.height
                <= 0x10_0000) by (nonlinear_arith)
                requires
                    x < self.width,
                    y < self.height,
                    self.width <= 1024,
                    self.height <= 1024,
            ;
        }
        self.cells[y * self.width + x]
    }
}

} // verus!
