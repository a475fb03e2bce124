use vstd::prelude::*;

verus! {

/// The state of one cell of the grid.
#[derive(Clone, Copy, Debug, PartialEq, Eq, Structural)]
pub enum Cell {
    Dead,
    Alive,
}

/// One for a live cell, zero for a dead one: summing it over cells counts
/// the live ones.
pub open spec fn alive_value(c: Cell) -> int {
    match c {
        Cell::Dead => 0,
        Cell::Alive => 1,
    }
}

/// Number of live cells in `s`.
pub open spec fn count_alive(s: Seq<Cell>) -> int
    decreases s.len(),
{
    if s.len() == 0 {
        0
    } else {
        count_alive(s.drop_last()) + alive_value(s.last())
    }
}

/// A grid of `n` dead cells.
pub open spec fn all_dead(n: nat) -> Seq<Cell> {
    Seq::new(n, |i: int| Cell::Dead)
}

impl Cell {
    /// Numeric value of the cell: `1` when alive, `0` when dead.
    pub fn value(self) -> (r: u8)
        ensures
            r as int == alive_value(self),
    {
        match self {
            Cell::Dead => 0,
            Cell::Alive => 1,
        }
    }

    /// Whether the cell is alive.
    pub fn is_alive(self) -> (r: bool)
        ensures
            r == (self == Cell::Alive),
    {
        match self {
            Cell::Dead => false,
            Cell::Alive => true,
        }
    }
}

/// The live count lies between zero and the length.
pub proof fn lemma_count_alive_bounds(s: Seq<Cell>)
    ensures
        0 <= count_alive(s) <= s.len(),
    decreases s.len(),
{
    if s.len() > 0 {
        lemma_count_alive_bounds(s.drop_last());
    }
}

/// Appending a cell adds its value to the live count.
pub proof fn lemma_count_alive_push(s: Seq<Cell>, c: Cell)
    ensures
        count_alive(s.push(c)) == count_alive(s) + alive_value(c),
{
    assert(s.push(c).drop_last() =~= s);
}

/// Replacing one cell changes the live count by the difference of the values.
pub proof fn lemma_count_alive_update(s: Seq<Cell>, i: int, c: Cell)
    requires
        0 <= i < s.len(),
    ensures
        count_alive(s.update(i, c)) == count_alive(s) - alive_value(s[i]) + alive_value(c),
    decreases s.len(),
{
    let t = s.update(i, c);
    if i == s.len() - 1 {
        assert(t.drop_last() =~= s.drop_last());
    } else {
        assert(t.drop_last() =~= s.drop_last().update(i, c));
        lemma_count_alive_update(s.drop_last(), i, c);
    }
}

/// A grid with no live cell has a live count of zero.
pub proof fn lemma_count_all_dead(n: nat)
    ensures
        count_alive(all_dead(n)) == 0,
    decreases n,
{
    if n > 0 {
        assert(all_dead(n).drop_last() =~= all_dead((n - 1) as nat));
        lemma_count_all_dead((n - 1) as nat);
    }
}

} // verus!
