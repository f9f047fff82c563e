//! General laws of the grid and of the rule, stated over the same
//! spec functions that the engine's contracts use.

use vstd::prelude::*;

verus! {

use crate::game::{alive_at, spec_neighbour_count, spec_set_kind, Cell, CellKind};

/// On a grid without a single live cell, every position — corners
/// included — has a neighbour count of zero.
pub proof fn lemma_neighbour_count_all_dead(g: Seq<Seq<bool>>, x: int, y: int)
    requires
        forall|j: int, i: int| 0 <= j < g.len() && 0 <= i < g[j].len() ==> !(#[trigger] g[j][i]),
    ensures
        spec_neighbour_count(g, x, y) == 0,
{
    assert(!alive_at(g, x - 1, y - 1));
    assert(!alive_at(g, x, y - 1));
    assert(!alive_at(g, x + 1, y - 1));
    assert(!alive_at(g, x - 1, y));
    assert(!alive_at(g, x + 1, y));
    assert(!alive_at(g, x - 1, y + 1));
    assert(!alive_at(g, x, y + 1));
    assert(!alive_at(g, x + 1, y + 1));
}

/// On a rectangular grid whose every cell is alive, a strictly
/// interior position has all eight neighbours, so its count is eight.
pub proof fn lemma_neighbour_count_interior_all_alive(
    g: Seq<Seq<bool>>,
    w: int,
    h: int,
    x: int,
    y: int,
)
    requires
        g.len() == h,
        forall|j: int| 0 <= j < h ==> (#[trigger] g[j]).len() == w,
        forall|j: int, i: int| 0 <= j < h && 0 <= i < w ==> #[trigger] g[j][i],
        0 < x && x + 1 < w,
        0 < y && y + 1 < h,
    ensures
        spec_neighbour_count(g, x, y) == 8,
{
    assert(alive_at(g, x - 1, y - 1));
    assert(alive_at(g, x, y - 1));
    assert(alive_at(g, x + 1, y - 1));
    assert(alive_at(g, x - 1, y));
    assert(alive_at(g, x + 1, y));
    assert(alive_at(g, x - 1, y + 1));
    assert(alive_at(g, x, y + 1));
    assert(alive_at(g, x + 1, y + 1));
}

/// Setting a cell's kind and then setting it again leaves exactly what
/// the second setting alone would: in particular, reviving or killing
/// a cell twice is the same as doing it once, and a kill undoes a
/// revive.
pub proof fn lemma_set_kind_overwrites(
    rows: Seq<Seq<Cell>>,
    x: int,
    y: int,
    k1: CellKind,
    k2: CellKind,
)
    requires
        0 <= y < rows.len(),
        0 <= x < rows[y].len(),
    ensures
        spec_set_kind(spec_set_kind(rows, x, y, k1), x, y, k2) == spec_set_kind(rows, x, y, k2),
{
    assert(spec_set_kind(spec_set_kind(rows, x, y, k1), x, y, k2) =~~= spec_set_kind(
        rows,
        x,
        y,
        k2,
    ));
}

/// Reviving a cell twice is exactly reviving it once, and killing
/// twice is killing once.
pub proof fn lemma_set_kind_idempotent(rows: Seq<Seq<Cell>>, x: int, y: int, k: CellKind)
    requires
        0 <= y < rows.len(),
        0 <= x < rows[y].len(),
    ensures
        spec_set_kind(spec_set_kind(rows, x, y, k), x, y, k) == spec_set_kind(rows, x, y, k),
{
    lemma_set_kind_overwrites(rows, x, y, k, k);
}

/// Setting a cell to the kind it already has leaves the grid exactly
/// as it was; with the previous law, killing a freshly revived cell
/// restores a grid in which that cell was dead.
pub proof fn lemma_set_kind_same(rows: Seq<Seq<Cell>>, x: int, y: int, k: CellKind)
    requires
        0 <= y < rows.len(),
        0 <= x < rows[y].len(),
        rows[y][x] == (Cell { x: x as u16, y: y as u16, kind: k }),
    ensures
        spec_set_kind(rows, x, y, k) == rows,
{
    assert(spec_set_kind(rows, x, y, k) =~~= rows);
}

/// Reviving one cell of a grid that holds no live cell makes exactly
/// that cell alive: afterwards a position is alive exactly when it is
/// the revived one.
pub proof fn lemma_revive_on_dead_grid(rows: Seq<Seq<Cell>>, x: int, y: int)
    requires
        0 <= y < rows.len(),
        0 <= x < rows[y].len(),
        forall|j: int, i: int|
            0 <= j < rows.len() && 0 <= i < rows[j].len() ==> !(#[trigger] rows[j][i]).alive(),
    ensures
        forall|j: int, i: int|
            0 <= j < rows.len() && 0 <= i < rows[j].len()
                ==> ((#[trigger] spec_set_kind(rows, x, y, CellKind::Alive)[j][i]).alive() <==> (
            j == y && i == x)),
{
    let after = spec_set_kind(rows, x, y, CellKind::Alive);
    assert forall|j: int, i: int|
        0 <= j < rows.len() && 0 <= i < rows[j].len() implies ((#[trigger] after[j][i]).alive()
        <==> (j == y && i == x)) by {
        if j == y {
            assert(after[j] == rows[y].update(x, (Cell { x: x as u16, y: y as u16, kind: CellKind::Alive })));
        } else {
            assert(after[j] == rows[j]);
        }
    }
}

} // verus!
