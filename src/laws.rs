use vstd::prelude::*;

use crate::cell::Cell;
use crate::grid::{lemma_wrap, live_neighbors, render_text, step_cells, value_at};
use crate::rule::{conway_next, is_conway, next_cell, Rule};
use crate::universe::UniverseView;

verus! {

/// The grid wraps round: the corner `(height - 1, width - 1)` is a neighbour
/// of the corner `(0, 0)` and the other way round, so a live cell at one
/// corner adds one to the count of the other.
pub proof fn lemma_corners_are_neighbors(u: UniverseView)
    requires
        u.wf(),
    ensures
        u.alive_at(u.height - 1, u.width - 1) ==> u.neighbors(0, 0) >= 1,
        u.alive_at(0, 0) ==> u.neighbors(u.height - 1, u.width - 1) >= 1,
{
    let w = u.width as int;
    let h = u.height as int;
    lemma_wrap(0, h);
    lemma_wrap(0, w);
    lemma_wrap(h - 1, h);
    lemma_wrap(w - 1, w);
}

/// On a grid of at least three rows and three columns the neighbours of
/// `(0, 0)` are the eight cells around it with the last row standing above
/// the first and the last column standing left of the first.
pub proof fn lemma_origin_neighbors(u: UniverseView)
    requires
        u.wf(),
        u.width >= 3,
        u.height >= 3,
    ensures
        ({
            let w = u.width as int;
            let h = u.height as int;
            let s = u.cells;
            u.neighbors(0, 0) == value_at(s, w, h - 1, w - 1) + value_at(s, w, h - 1, 0)
                + value_at(s, w, h - 1, 1) + value_at(s, w, 0, w - 1) + value_at(s, w, 0, 1)
                + value_at(s, w, 1, w - 1) + value_at(s, w, 1, 0) + value_at(s, w, 1, 1)
        }),
{
    lemma_wrap(0, u.height as int);
    lemma_wrap(0, u.width as int);
}

/// Under the B3/S23 rule a cell's next state is that of the Game of Life:
/// a live cell survives with two or three live neighbours, a dead cell
/// comes alive with exactly three, every other cell is dead next.
pub proof fn lemma_conway_rule(r: Rule, c: Cell, n: int)
    requires
        is_conway(r),
        0 <= n <= 8,
    ensures
        next_cell(r, c, n) == conway_next(c, n),
{
}

/// A universe under the B3/S23 rule steps exactly as the Game of Life does.
pub proof fn lemma_conway_step(u: UniverseView)
    requires
        u.wf(),
        is_conway(u.rule),
    ensures
        step_cells(u.cells, u.width as int, u.height as int, u.rule) == Seq::new(
            u.cells.len(),
            |i: int|
                conway_next(
                    u.cells[i],
                    live_neighbors(u.cells, u.width as int, u.height as int, i / u.width as int, i % u.width as int),
                ),
        ),
{
    let w = u.width as int;
    let h = u.height as int;
    let t = Seq::new(
        u.cells.len(),
        |i: int| conway_next(u.cells[i], live_neighbors(u.cells, w, h, i / w, i % w)),
    );
    assert forall|i: int| 0 <= i < u.cells.len() implies #[trigger] step_cells(
        u.cells,
        w,
        h,
        u.rule,
    )[i] == t[i] by {
        let n = live_neighbors(u.cells, w, h, i / w, i % w);
        lemma_conway_rule(u.rule, u.cells[i], n);
    }
    assert(step_cells(u.cells, w, h, u.rule) =~= t);
}

/// Text depends on the grid alone: two universes with the same cells and
/// width render the same text, so rendering one state twice gives the same
/// output.
pub proof fn lemma_render_same_grid(a: UniverseView, b: UniverseView)
    requires
        a.cells == b.cells,
        a.width == b.width,
    ensures
        render_text(a.cells, a.width as int) == render_text(b.cells, b.width as int),
{
}

} // verus!
