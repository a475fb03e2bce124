use vstd::prelude::*;

use crate::cell::{alive_value, Cell};
use crate::rule::{next_cell, Rule};

verus! {

/// Largest value of a cell's age counter; ages stop growing there.
pub const MAX_AGE: u8 = 255;

/// Position of `(r, c)` in a row-major grid of width `w`.
pub open spec fn index_of(w: int, r: int, c: int) -> int {
    r * w + c
}

/// One when the cell at `(r, c)` is alive, zero otherwise.
pub open spec fn value_at(cells: Seq<Cell>, w: int, r: int, c: int) -> int {
    alive_value(cells[index_of(w, r, c)])
}

/// Coordinate `x` moved by `d` on an axis of length `n` that wraps round.
pub open spec fn wrap(x: int, d: int, n: int) -> int {
    (x + d) % n
}

/// Number of live cells among the eight neighbours of `(r, c)` on a torus
/// of width `w` and height `h`: the positions at row offsets `-1, 0, 1` and
/// column offsets `-1, 0, 1` taken modulo the dimensions, the cell itself
/// left out.
pub open spec fn live_neighbors(cells: Seq<Cell>, w: int, h: int, r: int, c: int) -> int {
    value_at(cells, w, wrap(r, -1, h), wrap(c, -1, w)) + value_at(cells, w, wrap(r, -1, h), c)
        + value_at(cells, w, wrap(r, -1, h), wrap(c, 1, w)) + value_at(cells, w, r, wrap(c, -1, w))
        + value_at(cells, w, r, wrap(c, 1, w)) + value_at(cells, w, wrap(r, 1, h), wrap(c, -1, w))
        + value_at(cells, w, wrap(r, 1, h), c) + value_at(cells, w, wrap(r, 1, h), wrap(c, 1, w))
}

/// The grid one generation on: every cell takes its next state from its own
/// state and its live-neighbour count in `cells`.
pub open spec fn step_cells(cells: Seq<Cell>, w: int, h: int, r: Rule) -> Seq<Cell> {
    Seq::new(
        cells.len(),
        |i: int| next_cell(r, cells[i], live_neighbors(cells, w, h, i / w, i % w)),
    )
}

/// Age of a cell that goes from `before` to `after`, with age `age` before.
pub open spec fn next_age(before: Cell, after: Cell, age: u8) -> u8 {
    match (before, after) {
        (Cell::Alive, Cell::Alive) => if age == MAX_AGE { MAX_AGE } else { (age + 1) as u8 },
        (Cell::Dead, Cell::Alive) => 1,
        (_, Cell::Dead) => 0,
    }
}

/// The age track one generation on.
pub open spec fn step_ages(cells: Seq<Cell>, ages: Seq<u8>, w: int, h: int, r: Rule) -> Seq<u8> {
    Seq::new(
        cells.len(),
        |i: int| next_age(cells[i], step_cells(cells, w, h, r)[i], ages[i]),
    )
}

/// Glyph that shows a cell in text.
pub open spec fn glyph(c: Cell) -> char {
    match c {
        Cell::Alive => '◼',
        Cell::Dead => '◻',
    }
}

/// Text of the first `n` cells of a grid of width `w`: one glyph per cell,
/// and a newline after the last cell of each row.
pub open spec fn render_prefix(cells: Seq<Cell>, w: int, n: int) -> Seq<char>
    decreases n,
{
    if n <= 0 {
        Seq::empty()
    } else {
        let t = render_prefix(cells, w, n - 1).push(glyph(cells[n - 1]));
        if n % w == 0 {
            t.push('\n')
        } else {
            t
        }
    }
}

/// Text of a whole grid of width `w`.
pub open spec fn render_text(cells: Seq<Cell>, w: int) -> Seq<char> {
    render_prefix(cells, w, cells.len() as int)
}

/// Stepping along a wrapping axis, written without the modulo.
pub proof fn lemma_wrap(x: int, n: int)
    requires
        0 <= x < n,
    ensures
        wrap(x, -1, n) == if x == 0 { n - 1 } else { x - 1 },
        wrap(x, 1, n) == if x + 1 == n { 0 } else { x + 1 },
        wrap(x, 0, n) == x,
        0 <= wrap(x, -1, n) < n,
        0 <= wrap(x, 1, n) < n,
{
    if x == 0 {
        vstd::arithmetic::div_mod::lemma_fundamental_div_mod_converse(x - 1, n, -1, n - 1);
    } else {
        vstd::arithmetic::div_mod::lemma_fundamental_div_mod_converse(x - 1, n, 0, x - 1);
    }
    if x + 1 == n {
        vstd::arithmetic::div_mod::lemma_fundamental_div_mod_converse(x + 1, n, 1, 0);
    } else {
        vstd::arithmetic::div_mod::lemma_fundamental_div_mod_converse(x + 1, n, 0, x + 1);
    }
    vstd::arithmetic::div_mod::lemma_fundamental_div_mod_converse(x, n, 0, x);
}

/// A position inside a `w` by `h` grid has an index inside it, and the index
/// gives the row and column back.
pub proof fn lemma_index_in_grid(w: int, h: int, r: int, c: int)
    requires
        0 <= r < h,
        0 <= c < w,
    ensures
        0 <= index_of(w, r, c) < w * h,
        index_of(w, r, c) / w == r,
        index_of(w, r, c) % w == c,
{
    assert(0 <= r * w + c < w * h) by (nonlinear_arith)
        requires
            0 <= r < h,
            0 <= c < w,
    ;
    vstd::arithmetic::div_mod::lemma_fundamental_div_mod_converse(r * w + c, w, r, c);
}

} // verus!
