use vstd::prelude::*;

verus! {

/// Rows of the board and of the LED matrix.
pub const GRID_ROWS: usize = 5;

/// Columns of the board and of the LED matrix.
pub const GRID_COLUMNS: usize = 5;

/// Cells of the board and of the LED matrix.
pub const GRID_CELLS: usize = 25;

/// Brightness of a lit LED.
pub const MAX_BRIGHTNESS: u8 = 9;

/// Where the cell at `row`, `column` is kept, row by row.
pub open spec fn cell_index(row: int, column: int) -> int {
    row * GRID_COLUMNS + column
}

/// Why a cell could not be read.
#[derive(Debug, Clone, Copy, PartialEq, Eq, Structural)]
pub enum GridError {
    OutOfBounds,
}

/// A board of cells that are set or clear. Row 0 is the bottom row and
/// column 0 the leftmost.
pub struct Grid {
    cells: Vec<bool>,
}

impl View for Grid {
    type V = Seq<bool>;

    closed spec fn view(&self) -> Seq<bool> {
        self.cells@
    }
}

impl Grid {
    pub closed spec fn wf(&self) -> bool {
        self.cells@.len() == GRID_CELLS
    }

    /// Whether the cell at `row`, `column` is set.
    pub open spec fn is_set(&self, row: int, column: int) -> bool {
        self@[cell_index(row, column)]
    }

    /// A board with no cell set.
    pub fn new() -> (r: Grid)
        ensures
            r.wf(),
            r@ == Seq::new(GRID_CELLS as nat, |i: int| false),
    {
        let mut cells: Vec<bool> = Vec::new();
        let mut i: usize = 0;
        while i < GRID_CELLS
            invariant
                i <= GRID_CELLS,
                cells@ == Seq::new(i as nat, |k: int| false),
            decreases GRID_CELLS - i,
        {
            cells.push(false);
            i = i + 1;
        }
        Grid { cells }
    }

    /// Sets or clears the cell at `row`, `column`.
    pub fn set_element(&mut self, row: usize, column: usize, value: bool)
        requires
            old(self).wf(),
            row < GRID_ROWS,
            column < GRID_COLUMNS,
        ensures
            final(self).wf(),
            final(self)@ == old(self)@.update(cell_index(row as int, column as int), value),
    {
        self.cells.set(row * GRID_COLUMNS + column, value);
    }

    /// Whether the cell at `row`, `column` is set; a cell off the board is an
    /// error.
    pub fn is_element_set(&self, row: usize, column: usize) -> (r: Result<bool, GridError>)
        requires
            self.wf(),
        ensures
            row < GRID_ROWS && column < GRID_COLUMNS ==> r == Ok::<bool, GridError>(
                self.is_set(row as int, column as int),
            ),
            !(row < GRID_ROWS && column < GRID_COLUMNS) ==> r == Err::<bool, GridError>(
                GridError::OutOfBounds,
            ),
    {
        if row < GRID_ROWS && column < GRID_COLUMNS {
            Ok(self.cells[row * GRID_COLUMNS + column])
        } else {
            Err(GridError::OutOfBounds)
        }
    }

    /// The cells set in either board.
    pub fn union(&self, other: &Grid) -> (r: Grid)
        requires
            self.wf(),
            other.wf(),
        ensures
            r.wf(),
            r@ == union_spec(self@, other@),
    {
        let mut cells: Vec<bool> = Vec::new();
        let mut i: usize = 0;
        while i < GRID_CELLS
            invariant
                i <= GRID_CELLS,
                self.wf(),
                other.wf(),
                cells@.len() == i,
                forall|k: int| 0 <= k < i ==> cells@[k] == (self@[k] || other@[k]),
            decreases GRID_CELLS - i,
        {
            cells.push(self.cells[i] || other.cells[i]);
            i = i + 1;
        }
        assert(cells@ =~= union_spec(self@, other@));
        Grid { cells }
    }
}

/// The brightness of the LED at column `x` and row `y` of the matrix, whose
/// row 0 is the top row, showing the board `cells`.
pub open spec fn brightness_spec(cells: Seq<bool>, x: int, y: int) -> u8 {
    if 0 <= x < GRID_COLUMNS && cells[cell_index(GRID_ROWS - 1 - y, x)] {
        MAX_BRIGHTNESS
    } else {
        0
    }
}

/// Shows a board on the LED matrix.
pub struct GridRenderer<'a> {
    grid: &'a Grid,
}

impl<'a> GridRenderer<'a> {
    pub closed spec fn grid(&self) -> Grid {
        *self.grid
    }

    pub fn new(grid: &'a Grid) -> (r: Self)
        ensures
            r.grid() == *grid,
    {
        GridRenderer { grid }
    }

    /// The brightness of the LED at column `x` and row `y`; the matrix counts
    /// rows from the top, the board from the bottom.
    pub fn brightness_at(&self, x: usize, y: usize) -> (r: u8)
        requires
            self.grid().wf(),
            y < GRID_ROWS,
        ensures
            r == brightness_spec(self.grid()@, x as int, y as int),
    {
        match self.grid.is_element_set(GRID_ROWS - 1 - y, x) {
            Ok(true) => MAX_BRIGHTNESS,
            _ => 0,
        }
    }
}

/// The LED brightness of each cell of the matrix, row by row from the top.
pub open spec fn raster_spec(cells: Seq<bool>) -> Seq<u8> {
    Seq::new(
        GRID_CELLS as nat,
        |i: int| brightness_spec(cells, i % GRID_COLUMNS as int, i / GRID_COLUMNS as int),
    )
}

/// The cells set in either of two boards.
pub open spec fn union_spec(a: Seq<bool>, b: Seq<bool>) -> Seq<bool> {
    Seq::new(GRID_CELLS as nat, |i: int| a[i] || b[i])
}

/// Every LED of the matrix, row by row from the top, showing `grid`.
pub fn rasterize(grid: &Grid) -> (r: Vec<u8>)
    requires
        grid.wf(),
    ensures
        r@ == raster_spec(grid@),
{
    let renderer = GridRenderer::new(grid);
    let mut out: Vec<u8> = Vec::new();
    let mut y: usize = 0;
    while y < GRID_ROWS
        invariant
            y <= GRID_ROWS,
            renderer.grid() == *grid,
            grid.wf(),
            out@.len() == y * GRID_COLUMNS,
            forall|i: int| 0 <= i < out@.len() ==> out@[i] == raster_spec(grid@)[i],
        decreases GRID_ROWS - y,
    {
        let mut x: usize = 0;
        while x < GRID_COLUMNS
            invariant
                x <= GRID_COLUMNS,
                y < GRID_ROWS,
                renderer.grid() == *grid,
                grid.wf(),
                out@.len() == y * GRID_COLUMNS + x,
                forall|i: int| 0 <= i < out@.len() ==> out@[i] == raster_spec(grid@)[i],
            decreases GRID_COLUMNS - x,
        {
            let b = renderer.brightness_at(x, y);
            proof {
                let i = (y * GRID_COLUMNS + x) as int;
                assert(i % GRID_COLUMNS as int == x as int && i / GRID_COLUMNS as int == y as int)
                    by (nonlinear_arith)
                    requires
                        i == y * 5 + x,
                        x < 5,
                ;
            }
            out.push(b);
            x = x + 1;
        }
        y = y + 1;
    }
    assert(out@ =~= raster_spec(grid@));
    out
}

/// The two frames that the display alternates between.
pub struct FramePair {
    /// The falling tile together with the settled board.
    pub merged: Vec<u8>,
    /// The settled board alone.
    pub passive: Vec<u8>,
}

/// Rasterizes a redraw: the settled board into the passive frame, and the
/// union of the falling tile and the settled board into the merged frame.
pub fn compose_frames(active: &Grid, passive: &Grid) -> (r: FramePair)
    requires
        active.wf(),
        passive.wf(),
    ensures
        r.passive@ == raster_spec(passive@),
        r.merged@ == raster_spec(union_spec(active@, passive@)),
{
    let union = active.union(passive);
    FramePair { merged: rasterize(&union), passive: rasterize(passive) }
}

/// Which frame the display shows next.
#[derive(Debug, Clone, Copy, PartialEq, Eq, Structural)]
pub enum ShownFrame {
    Passive,
    Merged,
}

/// Alternates the displayed frame between the merged and the passive one, so
/// that the falling tile blinks.
pub struct FrameToggle {
    next_frame_passive: bool,
}

impl FrameToggle {
    pub closed spec fn next_is_passive(&self) -> bool {
        self.next_frame_passive
    }

    /// A toggle that shows the merged frame first.
    pub fn new() -> (r: Self)
        ensures
            !r.next_is_passive(),
    {
        FrameToggle { next_frame_passive: false }
    }

    /// The frame to show now; the next call shows the other one.
    pub fn toggle(&mut self) -> (r: ShownFrame)
        ensures
            r == (if old(self).next_is_passive() {
                ShownFrame::Passive
            } else {
                ShownFrame::Merged
            }),
            final(self).next_is_passive() == !old(self).next_is_passive(),
    {
        let shown = if self.next_frame_passive {
            ShownFrame::Passive
        } else {
            ShownFrame::Merged
        };
        self.next_frame_passive = !self.next_frame_passive;
        shown
    }
}

} // verus!
