//! GridMap snapshot: cells, cell positions and the rectangular grid.
use vstd::prelude::*;

verus! {

/// Largest number of cells a map may hold; keeps every path cost in `u64`.
pub const MAX_CELLS: usize = 0xFFFF_FFFF;

/// Traversability of a cell.
#[derive(Clone, Copy, Debug, PartialEq, Eq, Structural)]
pub enum CellKind {
    Unknown,
    Chasm,
    Ground,
    Wall,
}

impl CellKind {
    /// Decodes the raw kind value sent by the game; `None` for a value
    /// that names no kind.
    pub fn from_raw(v: u32) -> (r: Option<CellKind>)
        ensures
            v == 0 <==> r == Some(CellKind::Unknown),
            v == 1 <==> r == Some(CellKind::Chasm),
            v == 2 <==> r == Some(CellKind::Ground),
            v == 3 <==> r == Some(CellKind::Wall),
            v > 3 <==> r.is_none(),
    {
        match v {
            0 => Some(CellKind::Unknown),
            1 => Some(CellKind::Chasm),
            2 => Some(CellKind::Ground),
            3 => Some(CellKind::Wall),
            _ => None,
        }
    }
}

/// What the bot can do with a cell.
#[derive(Clone, Copy, Debug, PartialEq, Eq, Structural)]
pub enum InteractionKind {
    NoInteraction,
    LightManual,
    HeavyManual,
    LightMidair,
    HeavyMidair,
    WalkOnGround,
}

impl InteractionKind {
    /// Decodes the raw interaction value sent by the game; `None` for a
    /// value that names no interaction.
    pub fn from_raw(v: u32) -> (r: Option<InteractionKind>)
        ensures
            v == 0 <==> r == Some(InteractionKind::NoInteraction),
            v == 1 <==> r == Some(InteractionKind::LightManual),
            v == 2 <==> r == Some(InteractionKind::HeavyManual),
            v == 3 <==> r == Some(InteractionKind::LightMidair),
            v == 4 <==> r == Some(InteractionKind::HeavyMidair),
            v == 5 <==> r == Some(InteractionKind::WalkOnGround),
            v > 5 <==> r.is_none(),
    {
        match v {
            0 => Some(InteractionKind::NoInteraction),
            1 => Some(InteractionKind::LightManual),
            2 => Some(InteractionKind::HeavyManual),
            3 => Some(InteractionKind::LightMidair),
            4 => Some(InteractionKind::HeavyMidair),
            5 => Some(InteractionKind::WalkOnGround),
            _ => None,
        }
    }
}

/// One grid tile.
#[derive(Clone, Copy, Debug, PartialEq, Eq, Structural)]
pub struct Cell {
    pub kind: CellKind,
    pub interaction: InteractionKind,
}

impl Default for Cell {
    /// An unknown cell without interaction, as in a map not scanned yet.
    fn default() -> (r: Cell)
        ensures
            r == (Cell { kind: CellKind::Unknown, interaction: InteractionKind::NoInteraction }),
    {
        Cell { kind: CellKind::Unknown, interaction: InteractionKind::NoInteraction }
    }
}

impl Cell {
    pub fn new(kind: CellKind, interaction: InteractionKind) -> (r: Cell)
        ensures
            r.kind == kind,
            r.interaction == interaction,
    {
        Cell { kind, interaction }
    }

    pub fn kind(&self) -> (r: CellKind)
        ensures
            r == self.kind,
    {
        self.kind
    }

    pub fn interaction(&self) -> (r: InteractionKind)
        ensures
            r == self.interaction,
    {
        self.interaction
    }
}

/// Position of a cell: its column and its line.
#[derive(Clone, Copy, Debug, PartialEq, Eq, Hash, Structural)]
pub struct CellPos {
    pub column: usize,
    pub line: usize,
}

impl CellPos {
    pub fn new(column: usize, line: usize) -> (r: CellPos)
        ensures
            r.column == column,
            r.line == line,
    {
        CellPos { column, line }
    }

    pub fn column(&self) -> (r: usize)
        ensures
            r == self.column,
    {
        self.column
    }

    pub fn line(&self) -> (r: usize)
        ensures
            r == self.line,
    {
        self.line
    }

    /// Horizontal coordinate of the cell's centre, in millionths of a cell.
    pub fn center_x(&self) -> (r: i128)
        ensures
            r == self.column * 1_000_000 + 500_000,
    {
        self.column as i128 * 1_000_000 + 500_000
    }

    /// Vertical coordinate of the cell's centre, in millionths of a cell.
    pub fn center_y(&self) -> (r: i128)
        ensures
            r == self.line * 1_000_000 + 500_000,
    {
        self.line as i128 * 1_000_000 + 500_000
    }
}

/// Number of positions at which two cell sequences differ.
pub open spec fn count_changes(a: Seq<Cell>, b: Seq<Cell>) -> nat
    decreases a.len(),
{
    if a.len() == 0 || b.len() == 0 {
        0
    } else {
        count_changes(a.drop_last(), b.drop_last()) + if a.last() != b.last() {
            1nat
        } else {
            0nat
        }
    }
}

/// Rectangular grid of cells, stored line after line, with a flag telling
/// whether the last update changed anything.
#[derive(Clone, Debug)]
pub struct GridMap {
    grid: Vec<Cell>,
    width: usize,
    height: usize,
    changed: bool,
}

impl GridMap {
    pub closed spec fn cells(&self) -> Seq<Cell> {
        self.grid@
    }

    pub closed spec fn width_spec(&self) -> int {
        self.width as int
    }

    pub closed spec fn height_spec(&self) -> int {
        self.height as int
    }

    pub closed spec fn changed_spec(&self) -> bool {
        self.changed
    }

    pub open spec fn wf(&self) -> bool {
        &&& 0 <= self.width_spec() <= usize::MAX
        &&& 0 <= self.height_spec() <= usize::MAX
        &&& self.width_spec() * self.height_spec() <= MAX_CELLS
        &&& self.cells().len() == self.width_spec() * self.height_spec()
    }

    pub open spec fn in_bounds(&self, column: int, line: int) -> bool {
        0 <= column < self.width_spec() && 0 <= line < self.height_spec()
    }

    /// The cell at a position; `None` outside the grid.
    pub open spec fn cell_spec(&self, column: int, line: int) -> Option<Cell> {
        if self.in_bounds(column, line) {
            Some(self.cells()[column + line * self.width_spec()])
        } else {
            None
        }
    }

    pub open spec fn is_ground(&self, column: int, line: int) -> bool {
        self.cell_spec(column, line) matches Some(c) && c.kind == CellKind::Ground
    }

    pub fn new(width: usize, height: usize, cells: Vec<Cell>) -> (r: GridMap)
        requires
            width * height <= MAX_CELLS,
            cells@.len() == width * height,
        ensures
            r.wf(),
            r.width_spec() == width,
            r.height_spec() == height,
            r.cells() == cells@,
            r.changed_spec(),
    {
        GridMap { grid: cells, width, height, changed: true }
    }

    /// Replaces the grid with a fresh scan; returns how many cells differ
    /// from the previous one, and records whether any did.
    pub fn update(&mut self, cells: Vec<Cell>) -> (r: usize)
        requires
            old(self).wf(),
            cells@.len() == old(self).cells().len(),
        ensures
            final(self).wf(),
            final(self).width_spec() == old(self).width_spec(),
            final(self).height_spec() == old(self).height_spec(),
            final(self).cells() == cells@,
            r == count_changes(old(self).cells(), cells@),
            final(self).changed_spec() == (r != 0),
    {
        let mut n: usize = 0;
        let mut i: usize = 0;
        while i < cells.len()
            invariant
                cells@.len() == self.grid@.len(),
                i <= cells@.len(),
                n <= i,
                n == count_changes(self.grid@.take(i as int), cells@.take(i as int)),
            decreases cells@.len() - i,
        {
            proof {
                assert(self.grid@.take(i + 1).drop_last() =~= self.grid@.take(i as int));
                assert(cells@.take(i + 1).drop_last() =~= cells@.take(i as int));
            }
            if self.grid[i] != cells[i] {
                n = n + 1;
            }
            i = i + 1;
        }
        proof {
            assert(self.grid@.take(i as int) =~= self.grid@);
            assert(cells@.take(i as int) =~= cells@);
        }
        self.grid = cells;
        self.changed = n != 0;
        n
    }

    pub fn changed(&self) -> (r: bool)
        ensures
            r == self.changed_spec(),
    {
        self.changed
    }

    pub fn width(&self) -> (r: usize)
        ensures
            r == self.width_spec(),
    {
        self.width
    }

    pub fn height(&self) -> (r: usize)
        ensures
            r == self.height_spec(),
    {
        self.height
    }

    /// The cell at `(column, line)`, or `None` outside the grid.
    pub fn cell_at(&self, column: usize, line: usize) -> (r: Option<Cell>)
        requires
            self.wf(),
        ensures
            r == self.cell_spec(column as int, line as int),
    {
        if column >= self.width || line >= self.height {
            None
        } else {
            proof {
                lemma_index_in_grid(column as int, line as int, self.width as int, self.height as int);
            }
            Some(self.grid[column + line * self.width])
        }
    }

    /// The cell stored at index `i`, counting line after line.
    pub fn cell_at_index(&self, i: usize) -> (r: Cell)
        requires
            self.wf(),
            i < self.cells().len(),
        ensures
            r == self.cells()[i as int],
    {
        self.grid[i]
    }

    pub fn cell_at_pos(&self, pos: &CellPos) -> (r: Option<Cell>)
        requires
            self.wf(),
        ensures
            r == self.cell_spec(pos.column as int, pos.line as int),
    {
        self.cell_at(pos.column, pos.line)
    }
}

/// A position inside a `width` by `height` grid has its index inside it.
pub proof fn lemma_index_in_grid(column: int, line: int, width: int, height: int)
    requires
        0 <= column < width,
        0 <= line < height,
    ensures
        0 <= column + line * width < width * height,
{
    assert(line * width <= (height - 1) * width) by (nonlinear_arith)
        requires 0 <= line < height, 0 <= width;
    assert((height - 1) * width == width * height - width) by (nonlinear_arith);
    assert(0 <= line * width) by (nonlinear_arith)
        requires 0 <= line, 0 <= width;
}

} // verus!
