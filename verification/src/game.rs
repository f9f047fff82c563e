//! The grid model and simulation engine of a terminal Game of Life:
//! a rectangular grid of cells, the eight-neighbour count with edge
//! clamping, the classical birth/survival rule applied one generation
//! at a time, and growth-only resizing.

use vstd::prelude::*;

verus! {

/// Whether a cell is currently alive or dead.
#[derive(Clone, Copy, Debug, PartialEq, Eq, Structural)]
pub enum CellKind {
    Alive,
    Dead,
}

/// One cell of the grid. Its coordinates always equal its position in
/// the owning grid (column `x`, row `y`); the grid's well-formedness
/// predicate states exactly that.
#[derive(Clone, Copy, Debug, PartialEq, Eq, Structural)]
pub struct Cell {
    pub x: u16,
    pub y: u16,
    pub kind: CellKind,
}

impl Cell {
    /// A cell is alive when its kind says so.
    pub open spec fn alive(&self) -> bool {
        self.kind == CellKind::Alive
    }

    pub fn is_alive(&self) -> (r: bool)
        ensures
            r == self.alive(),
    {
        match self.kind {
            CellKind::Alive => true,
            CellKind::Dead => false,
        }
    }

    pub fn new(x: u16, y: u16) -> (c: Cell)
        ensures
            c == (Cell { x, y, kind: CellKind::Dead }),
    {
        Cell { x, y, kind: CellKind::Dead }
    }

    pub fn new_alive(x: u16, y: u16) -> (c: Cell)
        ensures
            c == (Cell { x, y, kind: CellKind::Alive }),
    {
        Cell { x, y, kind: CellKind::Alive }
    }

    pub fn live(&mut self)
        ensures
            *final(self) == (Cell { kind: CellKind::Alive, ..*old(self) }),
    {
        self.kind = CellKind::Alive;
    }

    pub fn die(&mut self)
        ensures
            *final(self) == (Cell { kind: CellKind::Dead, ..*old(self) }),
    {
        self.kind = CellKind::Dead;
    }
}

/// Whether position `(x, y)` of grid `g` holds a live cell. Positions
/// off the grid hold none: the neighbourhood is clamped at the edges,
/// never wrapped.
pub open spec fn alive_at(g: Seq<Seq<bool>>, x: int, y: int) -> bool {
    0 <= y < g.len() && 0 <= x < g[y].len() && g[y][x]
}

/// One if the position holds a live cell, zero otherwise.
pub open spec fn occupancy(g: Seq<Seq<bool>>, x: int, y: int) -> int {
    if alive_at(g, x, y) {
        1
    } else {
        0
    }
}

/// The number of live cells among the eight positions surrounding
/// `(x, y)`: the 3 × 3 neighbourhood minus the centre, with positions
/// beyond the grid's edge contributing zero.
pub open spec fn spec_neighbour_count(g: Seq<Seq<bool>>, x: int, y: int) -> int {
    occupancy(g, x - 1, y - 1) + occupancy(g, x, y - 1) + occupancy(g, x + 1, y - 1)
        + occupancy(g, x - 1, y) + occupancy(g, x + 1, y) + occupancy(g, x - 1, y + 1)
        + occupancy(g, x, y + 1) + occupancy(g, x + 1, y + 1)
}

/// The classical birth/survival rule: a live cell survives with two or
/// three live neighbours, a dead cell is born with exactly three.
pub open spec fn spec_next_alive(g: Seq<Seq<bool>>, x: int, y: int) -> bool {
    if alive_at(g, x, y) {
        spec_neighbour_count(g, x, y) == 2 || spec_neighbour_count(g, x, y) == 3
    } else {
        spec_neighbour_count(g, x, y) == 3
    }
}

/// Position of `(x, y)` in a row-major walk over a grid `width`
/// columns wide.
pub open spec fn flat_index(x: int, y: int, width: int) -> int {
    y * width + x
}

/// The rows with the cell at `(x, y)` replaced by one of kind `k`,
/// its coordinates still naming its position.
pub open spec fn spec_set_kind(rows: Seq<Seq<Cell>>, x: int, y: int, k: CellKind) -> Seq<
    Seq<Cell>,
> {
    rows.update(y, rows[y].update(x, (Cell { x: x as u16, y: y as u16, kind: k })))
}

/// The grid: a row-major rectangle of cells. Row `y` holds the cells
/// whose coordinate `y` equals that row index; within a row, the cell
/// at index `x` has that column coordinate.
pub struct Game {
    cells: Vec<Vec<Cell>>,
}

impl Game {
    /// The grid as a sequence of rows of cells.
    pub closed spec fn rows(&self) -> Seq<Seq<Cell>> {
        Seq::new(self.cells@.len(), |y: int| self.cells@[y]@)
    }

    /// Number of rows.
    pub open spec fn height(&self) -> int {
        self.rows().len() as int
    }

    /// Length of every row; a grid without rows has width zero.
    pub open spec fn width(&self) -> int {
        if self.rows().len() == 0 {
            0
        } else {
            self.rows()[0].len() as int
        }
    }

    /// Well-formedness: the grid is rectangular, every cell's
    /// coordinates equal its position, and both dimensions fit in a
    /// `u16` coordinate.
    pub open spec fn wf(&self) -> bool {
        &&& forall|y: int|
            0 <= y < self.height() ==> (#[trigger] self.rows()[y]).len() == self.width()
        &&& forall|y: int, x: int|
            0 <= y < self.height() && 0 <= x < self.width() ==> {
                let c = #[trigger] self.rows()[y][x];
                c.x == x && c.y == y
            }
        &&& self.height() <= u16::MAX as int
        &&& self.width() <= u16::MAX as int
    }

    /// The grid reduced to what the rule reads: which positions hold a
    /// live cell.
    pub open spec fn grid(&self) -> Seq<Seq<bool>> {
        Seq::new(
            self.rows().len(),
            |y: int| Seq::new(self.rows()[y].len(), |x: int| self.rows()[y][x].alive()),
        )
    }

    /// Builds a grid directly from rows of cells. The result is
    /// well-formed exactly when the given rows are a rectangle of
    /// position-consistent cells.
    pub fn with_cells(cells: Vec<Vec<Cell>>) -> (g: Game)
        ensures
            g.rows().len() == cells@.len(),
            forall|y: int| 0 <= y < cells@.len() ==> #[trigger] g.rows()[y] == cells@[y]@,
    {
        Game { cells }
    }

    /// A `width` × `height` grid with every cell dead.
    pub fn new(width: u16, height: u16) -> (g: Game)
        ensures
            g.wf(),
            g.height() == height as int,
            g.width() == (if height == 0 { 0int } else { width as int }),
            forall|y: int, x: int|
                0 <= y < g.height() && 0 <= x < g.width() ==> #[trigger] g.rows()[y][x] == (Cell {
                    x: x as u16,
                    y: y as u16,
                    kind: CellKind::Dead,
                }),
            forall|y: int, x: int|
                0 <= y < g.height() && 0 <= x < g.width() ==> !(#[trigger] g.grid()[y][x]),
    {
        let mut cells: Vec<Vec<Cell>> = Vec::new();
        let mut y: u16 = 0;
        while y < height
            invariant
                y <= height,
                cells@.len() == y as int,
                forall|j: int|
                    0 <= j < y as int ==> (#[trigger] cells@[j])@.len() == width as int,
                forall|j: int, i: int|
                    0 <= j < y as int && 0 <= i < width as int ==> cells@[j]@[i] == (Cell {
                        x: i as u16,
                        y: j as u16,
                        kind: CellKind::Dead,
                    }),
            decreases height - y,
        {
            let row = dead_row(width, y);
            cells.push(row);
            y += 1;
        }
        let g = Game { cells };
        proof {
            assert forall|j: int, i: int|
                0 <= j < g.height() && 0 <= i < g.width() implies !(#[trigger] g.grid()[j][i]) by {
                assert(g.rows()[j][i].kind == CellKind::Dead);
            }
        }
        g
    }

    /// Every cell of the grid paired with its position, in row-major
    /// order: row 0 first, left to right within a row, each cell
    /// exactly once. A fresh enumeration always reflects the current
    /// state.
    pub fn cells(&self) -> (r: Vec<(Cell, (u16, u16))>)
        requires
            self.wf(),
        ensures
            r@.len() == self.height() * self.width(),
            forall|y: int, x: int|
                0 <= y < self.height() && 0 <= x < self.width() ==> {
                    let p = #[trigger] r@[flat_index(x, y, self.width())];
                    p.0 == self.rows()[y][x] && p.1.0 == x as u16 && p.1.1 == y as u16
                },
    {
        let height = self.cells.len();
        let mut r: Vec<(Cell, (u16, u16))> = Vec::new();
        let mut yi: usize = 0;
        while yi < height
            invariant
                self.wf(),
                height == self.height(),
                yi <= height,
                r@.len() == yi as int * self.width(),
                forall|y: int, x: int|
                    0 <= y < yi as int && 0 <= x < self.width() ==> {
                        let p = #[trigger] r@[flat_index(x, y, self.width())];
                        p.0 == self.rows()[y][x] && p.1.0 == x as u16 && p.1.1 == y as u16
                    },
            decreases height - yi,
        {
            proof {
                assert(self.rows()[yi as int].len() == self.width());
            }
            let row_len = self.cells[yi].len();
            let mut xi: usize = 0;
            while xi < row_len
                invariant
                    self.wf(),
                    height == self.height(),
                    yi < height,
                    row_len == self.width(),
                    row_len as int == self.rows()[yi as int].len(),
                    xi <= row_len,
                    r@.len() == yi as int * self.width() + xi as int,
                    forall|y: int, x: int|
                        0 <= y < yi as int && 0 <= x < self.width() ==> {
                            let p = #[trigger] r@[flat_index(x, y, self.width())];
                            p.0 == self.rows()[y][x] && p.1.0 == x as u16 && p.1.1 == y as u16
                        },
                    forall|x: int|
                        0 <= x < xi as int ==> {
                            let p = #[trigger] r@[flat_index(x, yi as int, self.width())];
                            p.0 == self.rows()[yi as int][x] && p.1.0 == x as u16 && p.1.1
                                == yi as u16
                        },
                decreases row_len - xi,
            {
                let c = self.cells[yi][xi];
                r.push((c, (xi as u16, yi as u16)));
                proof {
                    assert forall|y: int, x: int|
                        0 <= y < yi as int && 0 <= x < self.width() implies flat_index(
                        x,
                        y,
                        self.width(),
                    ) < yi as int * self.width() by {
                        lemma_flat_index_below_row(x, y, self.width(), yi as int);
                    }
                }
                xi += 1;
            }
            proof {
                assert(yi as int * self.width() + self.width() == (yi as int + 1)
                    * self.width()) by (nonlinear_arith);
            }
            yi += 1;
        }
        r
    }

    /// Whether the probed position holds a live cell; probes beyond
    /// the grid find none.
    fn cell_alive_at(&self, x: usize, y: usize) -> (r: bool)
        ensures
            r == alive_at(self.grid(), x as int, y as int),
    {
        if y < self.cells.len() {
            let row = &self.cells[y];
            if x < row.len() {
                row[x].is_alive()
            } else {
                false
            }
        } else {
            false
        }
    }

    /// Counts the live cells among the eight neighbours of `(x, y)`,
    /// clamped at the grid's edges: a probe one step before row or
    /// column zero, like one beyond the last row or column, counts
    /// nothing.
    pub fn get_neighbours_count_at_pos(&self, x: u16, y: u16) -> (r: u8)
        ensures
            r as int == spec_neighbour_count(self.grid(), x as int, y as int),
            0 <= r <= 8,
    {
        let xi = x as usize;
        let yi = y as usize;
        let mut count: u8 = 0;
        if yi > 0 {
            if xi > 0 && self.cell_alive_at(xi - 1, yi - 1) {
                count += 1;
            }
            if self.cell_alive_at(xi, yi - 1) {
                count += 1;
            }
            if self.cell_alive_at(xi + 1, yi - 1) {
                count += 1;
            }
        }
        if xi > 0 && self.cell_alive_at(xi - 1, yi) {
            count += 1;
        }
        if self.cell_alive_at(xi + 1, yi) {
            count += 1;
        }
        if xi > 0 && self.cell_alive_at(xi - 1, yi + 1) {
            count += 1;
        }
        if self.cell_alive_at(xi, yi + 1) {
            count += 1;
        }
        if self.cell_alive_at(xi + 1, yi + 1) {
            count += 1;
        }
        count
    }

    /// Row `y` of the next generation, computed entirely from the
    /// current grid.
    fn next_row(&self, y: u16) -> (r: Vec<Cell>)
        requires
            self.wf(),
            (y as int) < self.height(),
        ensures
            r@.len() == self.width(),
            forall|x: int|
                0 <= x < self.width() ==> {
                    let c = #[trigger] r@[x];
                    c.x == x as u16 && c.y == y && c.alive() == spec_next_alive(
                        self.grid(),
                        x,
                        y as int,
                    )
                },
    {
        let width = self.cells[y as usize].len();
        proof {
            assert(self.rows()[y as int].len() == self.width());
        }
        let mut row: Vec<Cell> = Vec::new();
        let mut x: usize = 0;
        while x < width
            invariant
                self.wf(),
                (y as int) < self.height(),
                width == self.width(),
                x <= width,
                row@.len() == x as int,
                forall|i: int|
                    0 <= i < x as int ==> {
                        let c = #[trigger] row@[i];
                        c.x == i as u16 && c.y == y && c.alive() == spec_next_alive(
                            self.grid(),
                            i,
                            y as int,
                        )
                    },
            decreases width - x,
        {
            let n = self.get_neighbours_count_at_pos(x as u16, y);
            let alive = self.cells[y as usize][x].is_alive();
            proof {
                assert(alive == alive_at(self.grid(), x as int, y as int));
            }
            let next = if alive {
                n == 2 || n == 3
            } else {
                n == 3
            };
            if next {
                row.push(Cell::new_alive(x as u16, y));
            } else {
                row.push(Cell::new(x as u16, y));
            }
            x += 1;
        }
        row
    }

    /// Advances the grid by exactly one generation. Every cell of the
    /// new grid is computed from the old one, so a birth or death
    /// during the pass never disturbs a neighbour count of the same
    /// generation.
    pub fn tick(&mut self)
        requires
            old(self).wf(),
        ensures
            final(self).wf(),
            final(self).height() == old(self).height(),
            final(self).width() == old(self).width(),
            forall|y: int, x: int|
                0 <= y < old(self).height() && 0 <= x < old(self).width()
                    ==> #[trigger] final(self).grid()[y][x] == spec_next_alive(
                    old(self).grid(),
                    x,
                    y,
                ),
    {
        let height = self.cells.len();
        let mut new_cells: Vec<Vec<Cell>> = Vec::new();
        let mut y: usize = 0;
        while y < height
            invariant
                self.wf(),
                self.cells@ == old(self).cells@,
                height == self.height(),
                y <= height,
                new_cells@.len() == y as int,
                forall|j: int|
                    0 <= j < y as int ==> (#[trigger] new_cells@[j])@.len() == self.width(),
                forall|j: int, i: int|
                    0 <= j < y as int && 0 <= i < self.width() ==> {
                        let c = #[trigger] new_cells@[j]@[i];
                        c.x == i as u16 && c.y == j as u16 && c.alive() == spec_next_alive(
                            self.grid(),
                            i,
                            j,
                        )
                    },
            decreases height - y,
        {
            let row = self.next_row(y as u16);
            new_cells.push(row);
            y += 1;
        }
        self.cells = new_cells;
    }

    /// Borrows the cell at `(x, y)`, or reports "not found" when the
    /// grid does not cover that position.
    fn find_cell_at_pos_mut(&mut self, x: u16, y: u16) -> (r: Option<&mut Cell>)
        requires
            old(self).wf(),
        ensures
            r is Some <==> (x as int) < old(self).width() && (y as int) < old(self).height(),
            r is None ==> final(self).rows() == old(self).rows(),
            r is Some ==> *r.unwrap() == old(self).rows()[y as int][x as int]
                && final(self).rows() == old(self).rows().update(
                y as int,
                old(self).rows()[y as int].update(x as int, *final(r.unwrap())),
            ),
    {
        let xi = x as usize;
        let yi = y as usize;
        if yi < self.cells.len() {
            proof {
                assert(self.rows()[y as int].len() == self.width());
            }
            if xi < self.cells[yi].len() {
                Some(&mut self.cells[yi][xi])
            } else {
                None
            }
        } else {
            None
        }
    }

    /// Sets the cell at `(x, y)` to `kind` if the grid covers that
    /// position; otherwise reports "not found" and leaves the grid
    /// untouched.
    fn set_cell_at_pos(&mut self, x: u16, y: u16, kind: CellKind) -> (r: Option<()>)
        requires
            old(self).wf(),
        ensures
            final(self).wf(),
            final(self).height() == old(self).height(),
            final(self).width() == old(self).width(),
            r is Some <==> (x as int) < old(self).width() && (y as int) < old(self).height(),
            r is None ==> final(self).rows() == old(self).rows(),
            r is Some ==> final(self).rows() == spec_set_kind(
                old(self).rows(),
                x as int,
                y as int,
                kind,
            ),
    {
        proof {
            if (x as int) < self.width() && (y as int) < self.height() {
                assert(self.rows()[y as int][x as int].x == x as int);
            }
        }
        match self.find_cell_at_pos_mut(x, y) {
            Some(cell) => {
                match kind {
                    CellKind::Alive => cell.live(),
                    CellKind::Dead => cell.die(),
                }
                proof {
                    assert(self.rows() =~~= spec_set_kind(
                        old(self).rows(),
                        x as int,
                        y as int,
                        kind,
                    ));
                    assert forall|j: int, i: int|
                        0 <= j < self.height() && 0 <= i < self.width() implies {
                        let cc = #[trigger] self.rows()[j][i];
                        cc.x == i && cc.y == j
                    } by {
                        assert(old(self).rows()[j][i].x == i && old(self).rows()[j][i].y == j);
                    }
                }
                Some(())
            },
            None => None,
        }
    }

    /// Makes the cell at `(x, y)` alive if the grid covers that
    /// position; "not found" otherwise, never a failure.
    pub fn revive_cell_at_pos(&mut self, x: u16, y: u16) -> (r: Option<()>)
        requires
            old(self).wf(),
        ensures
            final(self).wf(),
            final(self).height() == old(self).height(),
            final(self).width() == old(self).width(),
            r is Some <==> (x as int) < old(self).width() && (y as int) < old(self).height(),
            r is None ==> final(self).rows() == old(self).rows(),
            r is Some ==> final(self).rows() == spec_set_kind(
                old(self).rows(),
                x as int,
                y as int,
                CellKind::Alive,
            ),
    {
        self.set_cell_at_pos(x, y, CellKind::Alive)
    }

    /// Makes the cell at `(x, y)` dead if the grid covers that
    /// position; "not found" otherwise, never a failure.
    pub fn kill_cell_at_pos(&mut self, x: u16, y: u16) -> (r: Option<()>)
        requires
            old(self).wf(),
        ensures
            final(self).wf(),
            final(self).height() == old(self).height(),
            final(self).width() == old(self).width(),
            r is Some <==> (x as int) < old(self).width() && (y as int) < old(self).height(),
            r is None ==> final(self).rows() == old(self).rows(),
            r is Some ==> final(self).rows() == spec_set_kind(
                old(self).rows(),
                x as int,
                y as int,
                CellKind::Dead,
            ),
    {
        self.set_cell_at_pos(x, y, CellKind::Dead)
    }

    /// Grows the grid so that it covers at least `width` × `height`:
    /// rows are appended at the bottom and dead cells on the right of
    /// every row. The grid never shrinks, and every cell it already
    /// held keeps its state; with both requested dimensions within the
    /// current ones the grid is left exactly as it was.
    pub fn resize_if_larger(&mut self, width: u16, height: u16)
        requires
            old(self).wf(),
        ensures
            final(self).wf(),
            final(self).height() == (if height as int > old(self).height() {
                height as int
            } else {
                old(self).height()
            }),
            final(self).width() == (if final(self).height() == 0 {
                0int
            } else if width as int > old(self).width() {
                width as int
            } else {
                old(self).width()
            }),
            final(self).height() >= old(self).height(),
            final(self).width() >= old(self).width(),
            final(self).height() >= height as int,
            final(self).height() > 0 ==> final(self).width() >= width as int,
            forall|j: int, i: int|
                0 <= j < old(self).height() && 0 <= i < old(self).width()
                    ==> #[trigger] final(self).rows()[j][i] == old(self).rows()[j][i],
            forall|j: int, i: int|
                0 <= j < final(self).height() && 0 <= i < final(self).width() && !(j < old(
                    self,
                ).height() && i < old(self).width()) ==> !(#[trigger] final(self).grid()[j][i]),
            width as int <= old(self).width() && height as int <= old(self).height()
                ==> final(self).rows() == old(self).rows(),
    {
        let old_height = self.cells.len();
        let old_width = if old_height == 0 {
            0
        } else {
            proof {
                assert(self.rows()[0].len() == self.width());
            }
            self.cells[0].len()
        };
        let new_height = if (height as usize) > old_height {
            height as usize
        } else {
            old_height
        };
        let new_width = if (width as usize) > old_width {
            width as usize
        } else {
            old_width
        };
        let mut cells: Vec<Vec<Cell>> = Vec::new();
        let mut yi: usize = 0;
        while yi < new_height
            invariant
                self.wf(),
                self.cells@ == old(self).cells@,
                old_height as int == self.height(),
                old_width as int == self.width(),
                new_height as int == (if height as int > self.height() {
                    height as int
                } else {
                    self.height()
                }),
                new_width as int == (if width as int > self.width() {
                    width as int
                } else {
                    self.width()
                }),
                yi <= new_height,
                cells@.len() == yi as int,
                forall|j: int|
                    0 <= j < yi as int ==> (#[trigger] cells@[j])@.len() == new_width as int,
                forall|j: int, i: int|
                    0 <= j < yi as int && 0 <= i < new_width as int
                        ==> #[trigger] cells@[j]@[i] == (if j < self.height() && i
                        < self.width() {
                        self.rows()[j][i]
                    } else {
                        Cell { x: i as u16, y: j as u16, kind: CellKind::Dead }
                    }),
            decreases new_height - yi,
        {
            if yi < old_height {
                proof {
                    assert(self.rows()[yi as int].len() == self.width());
                }
                let row = padded_row(&self.cells[yi], yi as u16, new_width);
                cells.push(row);
            } else {
                let row = dead_row(new_width as u16, yi as u16);
                cells.push(row);
            }
            yi += 1;
        }
        self.cells = cells;
        proof {
            if width as int <= old(self).width() && height as int <= old(self).height() {
                assert(self.rows() =~~= old(self).rows());
            }
        }
    }
}

/// A copy of `row` for row index `y`, extended on the right with dead
/// cells out to `width`.
fn padded_row(row: &Vec<Cell>, y: u16, width: usize) -> (r: Vec<Cell>)
    requires
        row@.len() <= width,
        width <= u16::MAX as int,
    ensures
        r@.len() == width as int,
        forall|i: int| 0 <= i < row@.len() ==> #[trigger] r@[i] == row@[i],
        forall|i: int|
            row@.len() <= i < width as int ==> #[trigger] r@[i] == (Cell {
                x: i as u16,
                y,
                kind: CellKind::Dead,
            }),
{
    let mut r: Vec<Cell> = Vec::new();
    let mut i: usize = 0;
    while i < width
        invariant
            row@.len() <= width,
            width <= u16::MAX as int,
            i <= width,
            r@.len() == i as int,
            forall|k: int| 0 <= k < i as int && k < row@.len() ==> #[trigger] r@[k] == row@[k],
            forall|k: int|
                row@.len() <= k < i as int ==> #[trigger] r@[k] == (Cell {
                    x: k as u16,
                    y,
                    kind: CellKind::Dead,
                }),
        decreases width - i,
    {
        if i < row.len() {
            let c = row[i];
            r.push(c);
        } else {
            r.push(Cell::new(i as u16, y));
        }
        i += 1;
    }
    r
}

/// In a row-major walk, a position in a row before row `y2` comes
/// before row `y2` starts.
proof fn lemma_flat_index_below_row(x: int, y: int, width: int, y2: int)
    requires
        0 <= x < width,
        0 <= y < y2,
    ensures
        0 <= flat_index(x, y, width),
        flat_index(x, y, width) < y2 * width,
{
    assert(0 <= y * width + x && y * width + x < y2 * width) by (nonlinear_arith)
        requires
            0 <= x < width,
            0 <= y < y2,
    ;
}

/// A row of `width` dead cells for row index `y`.
fn dead_row(width: u16, y: u16) -> (r: Vec<Cell>)
    ensures
        r@.len() == width as int,
        forall|i: int|
            0 <= i < width as int ==> #[trigger] r@[i] == (Cell {
                x: i as u16,
                y,
                kind: CellKind::Dead,
            }),
{
    let mut row: Vec<Cell> = Vec::new();
    let mut x: u16 = 0;
    while x < width
        invariant
            x <= width,
            row@.len() == x as int,
            forall|i: int|
                0 <= i < x as int ==> #[trigger] row@[i] == (Cell {
                    x: i as u16,
                    y,
                    kind: CellKind::Dead,
                }),
        decreases width - x,
    {
        row.push(Cell::new(x, y));
        x += 1;
    }
    row
}

} // verus!
