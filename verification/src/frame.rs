//! The frame buffer: a grid of glyph cells that is made fresh for every tick,
//! drawn into by the game's entities and then handed over for painting.

use vstd::prelude::*;

verus! {

/// What one cell of the grid shows.
#[derive(Clone, Copy, PartialEq, Eq, Structural, Debug)]
pub enum Cell {
    /// Nothing.
    Empty,
    /// The player's ship.
    Player,
    /// An invader while more than half of the swarm's period is left.
    InvaderBright,
    /// An invader during the rest of the period.
    InvaderDim,
    /// A live shot.
    Shot,
}

impl Cell {
    /// The character painted for this cell.
    pub fn glyph(self) -> (c: char)
        ensures
            c == match self {
                Cell::Empty => ' ',
                Cell::Player => 'A',
                Cell::InvaderBright => 'x',
                Cell::InvaderDim => '+',
                Cell::Shot => '|',
            },
    {
        match self {
            Cell::Empty => ' ',
            Cell::Player => 'A',
            Cell::InvaderBright => 'x',
            Cell::InvaderDim => '+',
            Cell::Shot => '|',
        }
    }
}

/// A grid of cells, stored column by column.
pub struct Frame {
    cells: Vec<Vec<Cell>>,
    rows: usize,
}

impl Frame {
    /// Every column has the frame's height: the grid has no holes.
    pub closed spec fn wf(&self) -> bool {
        forall|x: int| 0 <= x < self.cells@.len() ==> (#[trigger] self.cells@[x])@.len() == self.rows
    }

    /// Number of columns.
    pub closed spec fn spec_cols(&self) -> nat {
        self.cells@.len()
    }

    /// Number of rows.
    pub closed spec fn spec_rows(&self) -> nat {
        self.rows as nat
    }

    /// The cell in column `x`, row `y`.
    pub closed spec fn at(&self, x: int, y: int) -> Cell
        recommends
            0 <= x < self.spec_cols(),
            0 <= y < self.spec_rows(),
    {
        self.cells@[x]@[y]
    }

    /// Whether two frames have the same dimensions.
    pub open spec fn same_size(&self, other: &Frame) -> bool {
        self.spec_cols() == other.spec_cols() && self.spec_rows() == other.spec_rows()
    }

    /// A frame of the given size with every cell empty.
    pub fn with_size(cols: usize, rows: usize) -> (frame: Frame)
        ensures
            frame.wf(),
            frame.spec_cols() == cols,
            frame.spec_rows() == rows,
            forall|x: int, y: int| 0 <= x < cols && 0 <= y < rows ==> frame.at(x, y) == Cell::Empty,
    {
        let mut cells: Vec<Vec<Cell>> = Vec::new();
        let mut x: usize = 0;
        while x < cols
            invariant
                x <= cols,
                cells@.len() == x,
                forall|i: int| 0 <= i < x ==> (#[trigger] cells@[i])@.len() == rows,
                forall|i: int, j: int| 0 <= i < x && 0 <= j < rows ==> (#[trigger] cells@[i]@[j]) == Cell::Empty,
            decreases cols - x,
        {
            let mut column: Vec<Cell> = Vec::new();
            let mut y: usize = 0;
            while y < rows
                invariant
                    y <= rows,
                    column@.len() == y,
                    forall|j: int| 0 <= j < y ==> (#[trigger] column@[j]) == Cell::Empty,
                decreases rows - y,
            {
                column.push(Cell::Empty);
                y += 1;
            }
            cells.push(column);
            x += 1;
        }
        Frame { cells, rows }
    }

    /// Number of columns.
    pub fn cols(&self) -> (n: usize)
        ensures
            n == self.spec_cols(),
    {
        self.cells.len()
    }

    /// Number of rows.
    pub fn rows(&self) -> (n: usize)
        ensures
            n == self.spec_rows(),
    {
        self.rows
    }

    /// Reads the cell in column `x`, row `y`.
    pub fn get(&self, x: usize, y: usize) -> (c: Cell)
        requires
            self.wf(),
            x < self.spec_cols(),
            y < self.spec_rows(),
        ensures
            c == self.at(x as int, y as int),
    {
        self.cells[x][y]
    }

    /// Writes `cell` into column `x`, row `y`; every other cell keeps its value.
    pub fn set(&mut self, x: usize, y: usize, cell: Cell)
        requires
            old(self).wf(),
            x < old(self).spec_cols(),
            y < old(self).spec_rows(),
        ensures
            final(self).wf(),
            final(self).same_size(old(self)),
            final(self).at(x as int, y as int) == cell,
            forall|i: int, j: int|
                0 <= i < old(self).spec_cols() && 0 <= j < old(self).spec_rows() && !(i == x && j == y)
                    ==> final(self).at(i, j) == old(self).at(i, j),
    {
        self.cells[x][y] = cell;
    }
}

/// One cell that has to be painted.
#[derive(Clone, Copy, PartialEq, Eq, Structural, Debug)]
pub struct Change {
    /// Column.
    pub x: usize,
    /// Row.
    pub y: usize,
    /// What the cell shows now.
    pub cell: Cell,
}

/// Whether `changes` has an entry for column `x`, row `y`.
pub open spec fn listed(changes: Seq<Change>, x: int, y: int) -> bool {
    exists|k: int| 0 <= k < changes.len() && (#[trigger] changes[k]).x == x && changes[k].y == y
}

/// Whether `a` comes before `b` when the grid is read column by column, each
/// column from the top.
pub open spec fn comes_before(a: Change, b: Change) -> bool {
    a.x < b.x || (a.x == b.x && a.y < b.y)
}

impl Frame {
    /// Whether the cell in column `x`, row `y` has to be painted to turn
    /// `previous` into this frame: always when `force` is set, and otherwise
    /// when the two frames differ there.
    pub open spec fn needs_paint(&self, previous: &Frame, force: bool, x: int, y: int) -> bool {
        force || previous.at(x, y) != self.at(x, y)
    }

    /// Whether `changes` is the list of cells to paint on a screen that shows
    /// `previous` so that it shows this frame: every entry is a cell of the
    /// grid that needs painting, with what this frame shows there; every cell
    /// that needs painting has an entry; and the entries come column by column,
    /// each column from the top, so that no cell comes twice.
    pub open spec fn repaints(&self, previous: &Frame, force: bool, changes: Seq<Change>) -> bool {
        &&& forall|k: int|
            0 <= k < changes.len() ==> {
                &&& (#[trigger] changes[k]).x < self.spec_cols()
                &&& changes[k].y < self.spec_rows()
                &&& changes[k].cell == self.at(changes[k].x as int, changes[k].y as int)
                &&& self.needs_paint(previous, force, changes[k].x as int, changes[k].y as int)
            }
        &&& forall|x: int, y: int|
            0 <= x < self.spec_cols() && 0 <= y < self.spec_rows() && #[trigger] self.needs_paint(
                previous,
                force,
                x,
                y,
            ) ==> listed(changes, x, y)
        &&& forall|j: int, k: int|
            0 <= j < k < changes.len() ==> comes_before(#[trigger] changes[j], #[trigger] changes[k])
    }

    /// The cells to paint on a screen that shows `previous` so that it shows
    /// this frame: every cell when `force` is set, and otherwise exactly the
    /// cells in which the two frames differ. The cells come column by column,
    /// each column from the top, and each at most once.
    pub fn changes(&self, previous: &Frame, force: bool) -> (changes: Vec<Change>)
        requires
            self.wf(),
            previous.wf(),
            self.same_size(previous),
        ensures
            self.repaints(previous, force, changes@),
    {
        let mut changes: Vec<Change> = Vec::new();
        let mut x: usize = 0;
        while x < self.cells.len()
            invariant
                self.wf(),
                previous.wf(),
                self.same_size(previous),
                x <= self.spec_cols(),
                forall|k: int|
                    0 <= k < changes@.len() ==> {
                        &&& (#[trigger] changes@[k]).x < x
                        &&& changes@[k].y < self.spec_rows()
                        &&& changes@[k].cell == self.at(changes@[k].x as int, changes@[k].y as int)
                        &&& self.needs_paint(previous, force, changes@[k].x as int, changes@[k].y as int)
                    },
                forall|cx: int, cy: int|
                    0 <= cx < x && 0 <= cy < self.spec_rows() && #[trigger] self.needs_paint(
                        previous,
                        force,
                        cx,
                        cy,
                    ) ==> listed(changes@, cx, cy),
                forall|j: int, k: int|
                    0 <= j < k < changes@.len() ==> comes_before(
                        #[trigger] changes@[j],
                        #[trigger] changes@[k],
                    ),
            decreases self.spec_cols() - x,
        {
            let mut y: usize = 0;
            while y < self.rows
                invariant
                    self.wf(),
                    previous.wf(),
                    self.same_size(previous),
                    x < self.spec_cols(),
                    y <= self.spec_rows(),
                    forall|k: int|
                        0 <= k < changes@.len() ==> {
                            &&& ((#[trigger] changes@[k]).x < x || (changes@[k].x == x && changes@[k].y < y))
                            &&& changes@[k].y < self.spec_rows()
                            &&& changes@[k].cell == self.at(changes@[k].x as int, changes@[k].y as int)
                            &&& self.needs_paint(previous, force, changes@[k].x as int, changes@[k].y as int)
                        },
                    forall|cx: int, cy: int|
                        (0 <= cx < x || (cx == x && cy < y)) && 0 <= cy < self.spec_rows()
                            && #[trigger] self.needs_paint(previous, force, cx, cy) ==> listed(
                            changes@,
                            cx,
                            cy,
                        ),
                    forall|j: int, k: int|
                        0 <= j < k < changes@.len() ==> comes_before(
                            #[trigger] changes@[j],
                            #[trigger] changes@[k],
                        ),
                decreases self.spec_rows() - y,
            {
                let cell: Cell = self.get(x, y);
                if force || previous.get(x, y) != cell {
                    let ghost earlier = changes@;
                    changes.push(Change { x, y, cell });
                    proof {
                        assert(changes@[earlier.len() as int] == (Change { x, y, cell }));
                        assert forall|cx: int, cy: int|
                            (0 <= cx < x || (cx == x && cy < y + 1)) && 0 <= cy < self.spec_rows()
                                && #[trigger] self.needs_paint(previous, force, cx, cy) implies listed(
                            changes@,
                            cx,
                            cy,
                        ) by {
                            if cx == x && cy == y {
                            } else {
                                let k = choose|k: int|
                                    0 <= k < earlier.len() && (#[trigger] earlier[k]).x == cx && earlier[k].y
                                        == cy;
                                assert(changes@[k] == earlier[k]);
                            }
                        }
                    }
                }
                y += 1;
            }
            x += 1;
        }
        changes
    }
}

/// The painter's side of the screen: it remembers the frame that was painted
/// last and works out what the next one changes.
pub struct Painter {
    shown: Frame,
    painted: bool,
}

impl Painter {
    /// The frame that the screen shows.
    pub closed spec fn shown(&self) -> Frame {
        self.shown
    }

    /// Whether anything has been painted yet.
    pub closed spec fn has_painted(&self) -> bool {
        self.painted
    }

    /// The invariant of a painter: the frame it remembers has no holes.
    pub open spec fn wf(&self) -> bool {
        self.shown().wf()
    }

    /// A painter for a screen on which nothing has been painted yet. Until the
    /// first frame comes it remembers a frame without cells.
    pub fn new() -> (painter: Painter)
        ensures
            painter.wf(),
            !painter.has_painted(),
            painter.shown().spec_cols() == 0,
            painter.shown().spec_rows() == 0,
    {
        Painter { shown: Frame::with_size(0, 0), painted: false }
    }

    /// Takes the next frame and returns the cells to paint. The first frame is
    /// painted in full, and so is one whose size differs from that of the frame
    /// before it; of any other frame only the cells that differ from the frame
    /// before it are painted. The frame is then the one that the screen shows.
    pub fn paint(&mut self, frame: Frame) -> (changes: Vec<Change>)
        requires
            old(self).wf(),
            frame.wf(),
        ensures
            final(self).wf(),
            final(self).shown() == frame,
            final(self).has_painted(),
            old(self).has_painted() && frame.same_size(&old(self).shown()) ==> frame.repaints(
                &old(self).shown(),
                false,
                changes@,
            ),
            !(old(self).has_painted() && frame.same_size(&old(self).shown())) ==> frame.repaints(
                &frame,
                true,
                changes@,
            ),
    {
        let in_place: bool = self.painted && frame.cols() == self.shown.cols() && frame.rows()
            == self.shown.rows();
        let changes = if in_place {
            frame.changes(&self.shown, false)
        } else {
            frame.changes(&frame, true)
        };
        self.shown = frame;
        self.painted = true;
        changes
    }
}

/// Something that can draw itself into a frame.
pub trait Drawable {
    /// Whether every cell that this value draws lies inside `frame`.
    spec fn fits(&self, frame: &Frame) -> bool;

    /// What the cell in column `x`, row `y` shows once this value has been drawn
    /// over a cell that showed `under`.
    spec fn painted(&self, x: int, y: int, under: Cell) -> Cell;

    /// Draws this value into `frame`. Every cell of the frame ends up as
    /// `painted` says; the frame keeps its size.
    fn draw(&self, frame: &mut Frame)
        requires
            old(frame).wf(),
            self.fits(old(frame)),
        ensures
            final(frame).wf(),
            final(frame).same_size(old(frame)),
            forall|x: int, y: int|
                0 <= x < old(frame).spec_cols() && 0 <= y < old(frame).spec_rows() ==> #[trigger] final(frame).at(x, y)
                    == self.painted(x, y, old(frame).at(x, y)),
    ;
}

/// A frame of the default size with every cell empty.
pub fn new_frame() -> (frame: Frame)
    ensures
        frame.wf(),
        frame.spec_cols() == crate::NUM_COLS,
        frame.spec_rows() == crate::NUM_ROWS,
        forall|x: int, y: int|
            0 <= x < crate::NUM_COLS && 0 <= y < crate::NUM_ROWS ==> frame.at(x, y) == Cell::Empty,
{
    Frame::with_size(crate::NUM_COLS, crate::NUM_ROWS)
}

} // verus!
