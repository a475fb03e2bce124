use vstd::prelude::*;

use crate::cell::Cell;

verus! {

/// Number of entries of each rule table: one per possible live-neighbour
/// count, from zero to eight.
pub const TABLE_LEN: usize = 9;

/// Birth and survival conditions, indexed by live-neighbour count.
#[derive(Clone, Copy, Debug)]
pub struct Rule {
    /// `birth[n]`: a dead cell with exactly `n` live neighbours comes alive.
    pub birth: [bool; 9],
    /// `survival[n]`: a live cell with exactly `n` live neighbours stays alive.
    pub survival: [bool; 9],
}

/// The table that marks exactly the counts listed in `counts`; listed values
/// outside `0..=8` mark nothing.
pub open spec fn counts_table(counts: Seq<u8>) -> Seq<bool> {
    Seq::new(9, |n: int| exists|k: int| 0 <= k < counts.len() && counts[k] as int == n)
}

/// The standard Game of Life rule, B3/S23.
pub open spec fn is_conway(r: Rule) -> bool {
    &&& forall|n: int| 0 <= n < 9 ==> r.birth@[n] == (n == 3)
    &&& forall|n: int| 0 <= n < 9 ==> r.survival@[n] == (n == 2 || n == 3)
}

/// The next state of a cell in state `c` with `n` live neighbours under `r`.
pub open spec fn next_cell(r: Rule, c: Cell, n: int) -> Cell {
    match c {
        Cell::Alive => if r.survival@[n] { Cell::Alive } else { Cell::Dead },
        Cell::Dead => if r.birth@[n] { Cell::Alive } else { Cell::Dead },
    }
}

/// The next state of a cell under B3/S23, written out.
pub open spec fn conway_next(c: Cell, n: int) -> Cell {
    match c {
        Cell::Alive => if n == 2 || n == 3 { Cell::Alive } else { Cell::Dead },
        Cell::Dead => if n == 3 { Cell::Alive } else { Cell::Dead },
    }
}

/// Builds the table that marks the counts listed in `counts`.
fn table_from_counts(counts: &[u8]) -> (t: [bool; 9])
    ensures
        t@ == counts_table(counts@),
{
    let mut t: [bool; 9] = [false; 9];
    let mut k: usize = 0;
    while k < counts.len()
        invariant
            k <= counts@.len(),
            forall|n: int|
                0 <= n < 9 ==> #[trigger] t@[n] == exists|j: int|
                    0 <= j < k && counts@[j] as int == n,
        decreases counts.len() - k,
    {
        let c = counts[k];
        if (c as usize) < TABLE_LEN {
            t[c as usize] = true;
        }
        k = k + 1;
        assert forall|n: int| 0 <= n < 9 implies #[trigger] t@[n] == exists|j: int|
            0 <= j < k && counts@[j] as int == n by {
            if t@[n] && counts@[k - 1] as int != n {
                let j = choose|j: int| 0 <= j < k - 1 && counts@[j] as int == n;
                assert(0 <= j < k && counts@[j] as int == n);
            }
            if (exists|j: int| 0 <= j < k && counts@[j] as int == n) && counts@[k - 1] as int
                != n {
                let j = choose|j: int| 0 <= j < k && counts@[j] as int == n;
                assert(0 <= j < k - 1);
            }
        }
    }
    assert(t@ =~= counts_table(counts@));
    t
}

impl Rule {
    /// The standard Game of Life rule: birth on three neighbours, survival
    /// on two or three.
    pub fn conway() -> (r: Rule)
        ensures
            is_conway(r),
    {
        let r = Rule {
            birth: [false, false, false, true, false, false, false, false, false],
            survival: [false, false, true, true, false, false, false, false, false],
        };
        assert(r.birth@ =~= seq![false, false, false, true, false, false, false, false, false]);
        assert(r.survival@ =~= seq![false, false, true, true, false, false, false, false, false]);
        r
    }

    /// The rule whose birth and survival tables mark exactly the listed
    /// counts; counts above eight are ignored.
    pub fn from_counts(birth_counts: &[u8], survival_counts: &[u8]) -> (r: Rule)
        ensures
            r.birth@ == counts_table(birth_counts@),
            r.survival@ == counts_table(survival_counts@),
    {
        Rule { birth: table_from_counts(birth_counts), survival: table_from_counts(survival_counts) }
    }

    /// The next state of a cell in state `c` with `n` live neighbours.
    pub fn next(&self, c: Cell, n: u8) -> (r: Cell)
        requires
            n <= 8,
        ensures
            r == next_cell(*self, c, n as int),
    {
        match c {
            Cell::Alive => if self.survival[n as usize] {
                Cell::Alive
            } else {
                Cell::Dead
            },
            Cell::Dead => if self.birth[n as usize] {
                Cell::Alive
            } else {
                Cell::Dead
            },
        }
    }
}

} // verus!
