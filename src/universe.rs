use vstd::prelude::*;

use crate::cell::{
    all_dead, count_alive, lemma_count_alive_bounds, lemma_count_alive_push,
    lemma_count_alive_update, lemma_count_all_dead, Cell,
};
use crate::grid::{
    index_of, lemma_index_in_grid, lemma_wrap, live_neighbors, next_age, step_ages, step_cells,
    value_at, render_prefix, render_text, MAX_AGE,
};
use crate::rule::{counts_table, is_conway, Rule};

verus! {

/// Why an operation on a universe was refused.
#[derive(Clone, Copy, Debug, PartialEq, Eq, Structural)]
pub enum UniverseError {
    /// A width or height of zero, or a grid with more than `u32::MAX` cells.
    InvalidDimension,
    /// A density above one hundred percent.
    InvalidDensity,
    /// A row or column outside the grid.
    OutOfRangeCoordinate,
}

/// A toroidal grid of cells, with the rule that moves it from one
/// generation to the next and its bookkeeping.
pub struct Universe {
    width: u32,
    height: u32,
    cells: Vec<Cell>,
    cell_age: Vec<u8>,
    population: u32,
    generation: u32,
    rule: Rule,
}

/// What a universe holds, as mathematical values.
pub struct UniverseView {
    pub width: nat,
    pub height: nat,
    /// Cell states, row-major: the cell at `(r, c)` is at `r * width + c`.
    pub cells: Seq<Cell>,
    /// For each cell, the number of consecutive generations it has been alive.
    pub ages: Seq<u8>,
    pub population: nat,
    pub generation: nat,
    pub rule: Rule,
}

/// The grid fits: positive dimensions whose product is at most `u32::MAX`.
pub open spec fn valid_dims(w: int, h: int) -> bool {
    w > 0 && h > 0 && w * h <= u32::MAX
}

/// Whether `(r, c)` lies inside a `w` by `h` grid.
pub open spec fn in_grid(w: int, h: int, r: int, c: int) -> bool {
    0 <= r < h && 0 <= c < w
}

/// `cells` with every position of the first `k` coordinates made alive.
pub open spec fn with_alive(cells: Seq<Cell>, w: int, coords: Seq<(u32, u32)>, k: int) -> Seq<
    Cell,
> {
    Seq::new(
        cells.len(),
        |i: int|
            if exists|j: int|
                0 <= j < k && index_of(w, coords[j].0 as int, coords[j].1 as int) == i {
                Cell::Alive
            } else {
                cells[i]
            },
    )
}

/// The grid that a seeding at `density` percent makes from `draws`: a cell
/// is alive exactly when its draw is below the density.
pub open spec fn seeded(draws: Seq<u32>, density: u32) -> Seq<Cell> {
    Seq::new(draws.len(), |i: int| if draws[i] < density { Cell::Alive } else { Cell::Dead })
}

/// The other state.
pub open spec fn flipped(c: Cell) -> Cell {
    match c {
        Cell::Alive => Cell::Dead,
        Cell::Dead => Cell::Alive,
    }
}

/// Width and height of the universe that `Universe::starter` builds.
pub const STARTER_SIZE: u32 = 64;

/// The starting pattern: the cell at index `i` is alive when `i` is a
/// multiple of two or of seven.
pub open spec fn starter_cell(i: int) -> Cell {
    if i % 2 == 0 || i % 7 == 0 {
        Cell::Alive
    } else {
        Cell::Dead
    }
}

impl UniverseView {
    /// Number of cells of the grid.
    pub open spec fn size(self) -> nat {
        self.width * self.height
    }

    /// The invariant: both tracks have one entry per cell, the population is
    /// the number of live cells, and a dead cell has age zero.
    pub open spec fn wf(self) -> bool {
        &&& valid_dims(self.width as int, self.height as int)
        &&& self.cells.len() == self.size()
        &&& self.ages.len() == self.size()
        &&& self.population == count_alive(self.cells)
        &&& self.generation <= u32::MAX
        &&& forall|i: int|
            0 <= i < self.cells.len() && self.cells[i] == Cell::Dead ==> #[trigger] self.ages[i]
                == 0
    }

    /// Whether the cell at `(r, c)` is alive.
    pub open spec fn alive_at(self, r: int, c: int) -> bool {
        self.cells[index_of(self.width as int, r, c)] == Cell::Alive
    }

    /// Live-neighbour count of the cell at `(r, c)`.
    pub open spec fn neighbors(self, r: int, c: int) -> int {
        live_neighbors(self.cells, self.width as int, self.height as int, r, c)
    }
}

impl View for Universe {
    type V = UniverseView;

    closed spec fn view(&self) -> UniverseView {
        UniverseView {
            width: self.width as nat,
            height: self.height as nat,
            cells: self.cells@,
            ages: self.cell_age@,
            population: self.population as nat,
            generation: self.generation as nat,
            rule: self.rule,
        }
    }
}

/// Builds a vector of `n` dead cells.
fn dead_cells(n: u32) -> (v: Vec<Cell>)
    ensures
        v@ == all_dead(n as nat),
{
    let mut v: Vec<Cell> = Vec::new();
    let mut i: u32 = 0;
    while i < n
        invariant
            i <= n,
            v@ == all_dead(i as nat),
        decreases n - i,
    {
        v.push(Cell::Dead);
        i = i + 1;
        assert(v@ =~= all_dead(i as nat));
    }
    v
}

/// Builds a vector of `n` zero ages.
fn zero_ages(n: u32) -> (v: Vec<u8>)
    ensures
        v@ == Seq::new(n as nat, |i: int| 0u8),
{
    let mut v: Vec<u8> = Vec::new();
    let mut i: u32 = 0;
    while i < n
        invariant
            i <= n,
            v@ == Seq::new(i as nat, |k: int| 0u8),
        decreases n - i,
    {
        v.push(0);
        i = i + 1;
        assert(v@ =~= Seq::new(i as nat, |k: int| 0u8));
    }
    v
}

/// Number of cells of a `width` by `height` grid, when the grid fits.
fn grid_size(width: u32, height: u32) -> (r: Option<u32>)
    ensures
        r is Some <==> valid_dims(width as int, height as int),
        r is Some ==> r->0 as int == width as int * height as int,
{
    assert(width as int * height as int <= u32::MAX as int * u32::MAX as int) by (nonlinear_arith);
    let n: u64 = width as u64 * height as u64;
    if width == 0 || height == 0 || n > u32::MAX as u64 {
        None
    } else {
        Some(n as u32)
    }
}

/// Age of a cell that goes from `before` to `after`, with age `age` before.
fn age_after(before: Cell, after: Cell, age: u8) -> (r: u8)
    ensures
        r == next_age(before, after, age),
{
    match (before, after) {
        (Cell::Alive, Cell::Alive) => if age == MAX_AGE {
            MAX_AGE
        } else {
            age + 1
        },
        (Cell::Dead, Cell::Alive) => 1,
        (_, Cell::Dead) => 0,
    }
}

impl Universe {
    /// The invariant of the universe.
    pub open spec fn wf(&self) -> bool {
        self@.wf()
    }

    /// A `width` by `height` universe with every cell dead, population and
    /// generation zero, and the B3/S23 rule; refused when a dimension is zero
    /// or the grid would hold more than `u32::MAX` cells.
    pub fn new(width: u32, height: u32) -> (r: Result<Universe, UniverseError>)
        ensures
            r is Err <==> !valid_dims(width as int, height as int),
            r is Err ==> r->Err_0 == UniverseError::InvalidDimension,
            r is Ok ==> {
                let u = r->Ok_0@;
                &&& r->Ok_0.wf()
                &&& u.width == width
                &&& u.height == height
                &&& u.cells == all_dead(u.size())
                &&& u.ages == Seq::new(u.size(), |i: int| 0u8)
                &&& u.population == 0
                &&& u.generation == 0
                &&& is_conway(u.rule)
            },
    {
        match grid_size(width, height) {
            None => Err(UniverseError::InvalidDimension),
            Some(n) => {
                let u = Universe {
                    width,
                    height,
                    cells: dead_cells(n),
                    cell_age: zero_ages(n),
                    population: 0,
                    generation: 0,
                    rule: Rule::conway(),
                };
                proof {
                    lemma_count_all_dead(n as nat);
                }
                Ok(u)
            },
        }
    }

    /// Position of `(row, column)` in the cell vector.
    fn get_index(&self, row: u32, column: u32) -> (i: usize)
        requires
            self.wf(),
            row < self@.height,
            column < self@.width,
        ensures
            i as int == index_of(self@.width as int, row as int, column as int),
            i < self@.size(),
    {
        proof {
            lemma_index_in_grid(self.width as int, self.height as int, row as int, column as int);
        }
        (row * self.width + column) as usize
    }

    /// One when the cell at `(row, column)` is alive, zero otherwise.
    fn value_of(&self, row: u32, column: u32) -> (v: u8)
        requires
            self.wf(),
            row < self@.height,
            column < self@.width,
        ensures
            v as int == value_at(self@.cells, self@.width as int, row as int, column as int),
    {
        let i = self.get_index(row, column);
        self.cells[i].value()
    }

    /// Number of live cells among the eight neighbours of `(row, column)`,
    /// the grid wrapping round at its edges.
    pub fn live_neighbor_count(&self, row: u32, column: u32) -> (n: u8)
        requires
            self.wf(),
            row < self@.height,
            column < self@.width,
        ensures
            n as int == self@.neighbors(row as int, column as int),
            n <= 8,
    {
        let up = if row == 0 {
            self.height - 1
        } else {
            row - 1
        };
        let down = if row + 1 == self.height {
            0
        } else {
            row + 1
        };
        let left = if column == 0 {
            self.width - 1
        } else {
            column - 1
        };
        let right = if column + 1 == self.width {
            0
        } else {
            column + 1
        };
        proof {
            lemma_wrap(row as int, self.height as int);
            lemma_wrap(column as int, self.width as int);
        }
        self.value_of(up, left) + self.value_of(up, column) + self.value_of(up, right)
            + self.value_of(row, left) + self.value_of(row, right) + self.value_of(down, left)
            + self.value_of(down, column) + self.value_of(down, right)
    }
    /// Advances one generation. Every cell takes its next state under the
    /// rule from its own state and its live-neighbour count in the grid as it
    /// was before the step; ages grow by one (up to `MAX_AGE`) for cells
    /// that stay alive, become one for cells born and zero for dead cells;
    /// the population is kept equal to the live count and the generation
    /// grows by one.
    pub fn update(&mut self)
        requires
            old(self).wf(),
            old(self)@.generation < u32::MAX,
        ensures
            final(self).wf(),
            final(self)@.width == old(self)@.width,
            final(self)@.height == old(self)@.height,
            final(self)@.rule == old(self)@.rule,
            final(self)@.cells == step_cells(
                old(self)@.cells,
                old(self)@.width as int,
                old(self)@.height as int,
                old(self)@.rule,
            ),
            final(self)@.ages == step_ages(
                old(self)@.cells,
                old(self)@.ages,
                old(self)@.width as int,
                old(self)@.height as int,
                old(self)@.rule,
            ),
            final(self)@.population == count_alive(final(self)@.cells),
            final(self)@.generation == old(self)@.generation + 1,
    {
        let ghost w = self.width as int;
        let ghost h = self.height as int;
        let ghost cells0 = self.cells@;
        let ghost ages0 = self.cell_age@;
        let ghost step = step_cells(cells0, w, h, self.rule);
        let ghost step_a = step_ages(cells0, ages0, w, h, self.rule);
        let mut next: Vec<Cell> = self.cells.clone();
        let mut ages: Vec<u8> = self.cell_age.clone();
        let mut population: u32 = self.population;
        let mut row: u32 = 0;
        while row < self.height
            invariant
                self.wf(),
                self@ == old(self)@,
                w == self.width,
                h == self.height,
                cells0 == self.cells@,
                ages0 == self.cell_age@,
                step == step_cells(cells0, w, h, self.rule),
                step_a == step_ages(cells0, ages0, w, h, self.rule),
                row <= h,
                next@.len() == w * h,
                ages@.len() == w * h,
                population == count_alive(next@),
                forall|i: int| 0 <= i < row * w ==> #[trigger] next@[i] == step[i],
                forall|i: int| 0 <= i < row * w ==> #[trigger] ages@[i] == step_a[i],
                forall|i: int| row * w <= i < w * h ==> #[trigger] next@[i] == cells0[i],
            decreases h - row,
        {
            let mut col: u32 = 0;
            while col < self.width
                invariant
                    self.wf(),
                    self@ == old(self)@,
                    w == self.width,
                    h == self.height,
                    cells0 == self.cells@,
                    ages0 == self.cell_age@,
                    step == step_cells(cells0, w, h, self.rule),
                    step_a == step_ages(cells0, ages0, w, h, self.rule),
                    row < h,
                    col <= w,
                    next@.len() == w * h,
                    ages@.len() == w * h,
                    population == count_alive(next@),
                    forall|i: int| 0 <= i < row * w + col ==> #[trigger] next@[i] == step[i],
                    forall|i: int| 0 <= i < row * w + col ==> #[trigger] ages@[i] == step_a[i],
                    forall|i: int| row * w + col <= i < w * h ==> #[trigger] next@[i] == cells0[i],
                decreases w - col,
            {
                let i = self.get_index(row, col);
                proof {
                    lemma_index_in_grid(w, h, row as int, col as int);
                }
                let cell = self.cells[i];
                let n = self.live_neighbor_count(row, col);
                let next_cell_state = self.rule.next(cell, n);
                let age = age_after(cell, next_cell_state, self.cell_age[i]);
                proof {
                    lemma_count_alive_update(next@, i as int, next_cell_state);
                    lemma_count_alive_bounds(next@.update(i as int, next_cell_state));
                }
                match (cell, next_cell_state) {
                    (Cell::Alive, Cell::Dead) => {
                        population = population - 1;
                    },
                    (Cell::Dead, Cell::Alive) => {
                        population = population + 1;
                    },
                    _ => {},
                }
                next.set(i, next_cell_state);
                ages.set(i, age);
                col = col + 1;
            }
            assert(row * w + w == (row + 1) * w) by (nonlinear_arith);
            row = row + 1;
        }
        assert(row * w == w * h) by (nonlinear_arith)
            requires
                row == h,
        ;
        assert(next@ =~= step);
        assert(ages@ =~= step_a);
        self.cells = next;
        self.cell_age = ages;
        self.population = population;
        self.generation = self.generation + 1;
        assert forall|i: int|
            0 <= i < self.cells@.len() && self.cells@[i] == Cell::Dead implies #[trigger] self.cell_age@[i]
            == 0 by {
            assert(self.cells@[i] == step[i]);
        }
    }
    /// Text of the grid: one glyph per cell, `◼` for a live cell and `◻` for
    /// a dead one, row by row, each row ended by a newline.
    pub fn render(&self) -> (s: String)
        requires
            self.wf(),
        ensures
            s@ == render_text(self@.cells, self@.width as int),
    {
        let mut s = String::new();
        let mut i: usize = 0;
        while i < self.cells.len()
            invariant
                self.wf(),
                i <= self.cells@.len(),
                s@ == render_prefix(self.cells@, self.width as int, i as int),
            decreases self.cells@.len() - i,
        {
            match self.cells[i] {
                Cell::Alive => {
                    proof {
                        reveal_strlit("◼");
                    }
                    s.append("◼");
                },
                Cell::Dead => {
                    proof {
                        reveal_strlit("◻");
                    }
                    s.append("◻");
                },
            }
            let n: u32 = (i + 1) as u32;
            if n % self.width == 0 {
                proof {
                    reveal_strlit("\n");
                }
                s.append("\n");
            }
            i = i + 1;
        }
        s
    }

    /// Rebuilds the grid with an all-dead track of cells and ages for the
    /// dimensions `width` by `height`.
    fn clear_to(&mut self, width: u32, height: u32, n: u32)
        requires
            valid_dims(width as int, height as int),
            n as int == width as int * height as int,
            old(self)@.generation <= u32::MAX,
        ensures
            final(self).wf(),
            final(self)@.width == width,
            final(self)@.height == height,
            final(self)@.cells == all_dead(n as nat),
            final(self)@.ages == Seq::new(n as nat, |i: int| 0u8),
            final(self)@.population == 0,
            final(self)@.generation == old(self)@.generation,
            final(self)@.rule == old(self)@.rule,
    {
        self.width = width;
        self.height = height;
        self.cells = dead_cells(n);
        self.cell_age = zero_ages(n);
        self.population = 0;
        proof {
            lemma_count_all_dead(n as nat);
        }
    }

    /// Sets the width and clears the grid to all dead cells, ages zero and
    /// population zero; the generation and rule stay. Refused, with nothing
    /// changed, when the width is zero or the grid would hold more than
    /// `u32::MAX` cells.
    pub fn set_width(&mut self, width: u32) -> (r: Result<(), UniverseError>)
        requires
            old(self).wf(),
        ensures
            final(self).wf(),
            r is Err <==> !valid_dims(width as int, old(self)@.height as int),
            r is Err ==> r->Err_0 == UniverseError::InvalidDimension && final(self)@ == old(self)@,
            r is Ok ==> {
                let u = final(self)@;
                &&& u.width == width
                &&& u.height == old(self)@.height
                &&& u.cells == all_dead(u.size())
                &&& u.ages == Seq::new(u.size(), |i: int| 0u8)
                &&& u.population == 0
                &&& u.generation == old(self)@.generation
                &&& u.rule == old(self)@.rule
            },
    {
        match grid_size(width, self.height) {
            None => Err(UniverseError::InvalidDimension),
            Some(n) => {
                self.clear_to(width, self.height, n);
                Ok(())
            },
        }
    }

    /// Sets the height and clears the grid to all dead cells, ages zero and
    /// population zero; the generation and rule stay. Refused, with nothing
    /// changed, when the height is zero or the grid would hold more than
    /// `u32::MAX` cells.
    pub fn set_height(&mut self, height: u32) -> (r: Result<(), UniverseError>)
        requires
            old(self).wf(),
        ensures
            final(self).wf(),
            r is Err <==> !valid_dims(old(self)@.width as int, height as int),
            r is Err ==> r->Err_0 == UniverseError::InvalidDimension && final(self)@ == old(self)@,
            r is Ok ==> {
                let u = final(self)@;
                &&& u.width == old(self)@.width
                &&& u.height == height
                &&& u.cells == all_dead(u.size())
                &&& u.ages == Seq::new(u.size(), |i: int| 0u8)
                &&& u.population == 0
                &&& u.generation == old(self)@.generation
                &&& u.rule == old(self)@.rule
            },
    {
        match grid_size(self.width, height) {
            None => Err(UniverseError::InvalidDimension),
            Some(n) => {
                self.clear_to(self.width, height, n);
                Ok(())
            },
        }
    }

    /// Kills every cell and sets ages, population and generation to zero;
    /// dimensions and rule stay.
    pub fn reset(&mut self)
        requires
            old(self).wf(),
        ensures
            final(self).wf(),
            final(self)@.width == old(self)@.width,
            final(self)@.height == old(self)@.height,
            final(self)@.cells == all_dead(old(self)@.size()),
            final(self)@.ages == Seq::new(old(self)@.size(), |i: int| 0u8),
            final(self)@.population == 0,
            final(self)@.generation == 0,
            final(self)@.rule == old(self)@.rule,
    {
        let n = self.cells.len() as u32;
        self.clear_to(self.width, self.height, n);
        self.generation = 0;
    }
    /// Makes alive each cell whose `(row, column)` is listed; other cells
    /// stay as they are. The population grows by the number of cells that
    /// were dead; ages, generation and rule stay. Refused, with nothing
    /// changed, when a listed coordinate lies outside the grid.
    pub fn set_cells(&mut self, cells: &[(u32, u32)]) -> (r: Result<(), UniverseError>)
        requires
            old(self).wf(),
        ensures
            final(self).wf(),
            r is Err <==> exists|k: int|
                0 <= k < cells@.len() && !in_grid(
                    old(self)@.width as int,
                    old(self)@.height as int,
                    #[trigger] cells@[k].0 as int,
                    cells@[k].1 as int,
                ),
            r is Err ==> r->Err_0 == UniverseError::OutOfRangeCoordinate && final(self)@ == old(
                self,
            )@,
            r is Ok ==> {
                let u = final(self)@;
                &&& u.width == old(self)@.width
                &&& u.height == old(self)@.height
                &&& u.cells == with_alive(
                    old(self)@.cells,
                    old(self)@.width as int,
                    cells@,
                    cells@.len() as int,
                )
                &&& u.ages == old(self)@.ages
                &&& u.population == count_alive(u.cells)
                &&& u.generation == old(self)@.generation
                &&& u.rule == old(self)@.rule
            },
    {
        let mut k: usize = 0;
        while k < cells.len()
            invariant
                self.wf(),
                self@ == old(self)@,
                k <= cells@.len(),
                forall|j: int|
                    0 <= j < k ==> in_grid(
                        self@.width as int,
                        self@.height as int,
                        #[trigger] cells@[j].0 as int,
                        cells@[j].1 as int,
                    ),
            decreases cells@.len() - k,
        {
            let (row, col) = cells[k];
            if row >= self.height || col >= self.width {
                return Err(UniverseError::OutOfRangeCoordinate);
            }
            k = k + 1;
        }
        let ghost w = self.width as int;
        let ghost cells0 = self.cells@;
        let mut k: usize = 0;
        while k < cells.len()
            invariant
                self.wf(),
                k <= cells@.len(),
                w == self.width,
                self@.width == old(self)@.width,
                self@.height == old(self)@.height,
                self@.ages == old(self)@.ages,
                self@.generation == old(self)@.generation,
                self@.rule == old(self)@.rule,
                cells0 == old(self)@.cells,
                forall|j: int|
                    0 <= j < cells@.len() ==> in_grid(
                        self@.width as int,
                        self@.height as int,
                        #[trigger] cells@[j].0 as int,
                        cells@[j].1 as int,
                    ),
                self.cells@ == with_alive(cells0, w, cells@, k as int),
            decreases cells@.len() - k,
        {
            let (row, col) = cells[k];
            let i = self.get_index(row, col);
            let ghost before = self.cells@;
            if !self.cells[i].is_alive() {
                proof {
                    lemma_count_alive_update(self.cells@, i as int, Cell::Alive);
                    lemma_count_alive_bounds(self.cells@.update(i as int, Cell::Alive));
                }
                self.cells.set(i, Cell::Alive);
                self.population = self.population + 1;
            }
            k = k + 1;
            assert forall|p: int| 0 <= p < cells0.len() implies #[trigger] self.cells@[p]
                == with_alive(cells0, w, cells@, k as int)[p] by {
                if p != i as int {
                    if exists|j: int|
                        0 <= j < k && index_of(w, cells@[j].0 as int, cells@[j].1 as int) == p {
                        let j = choose|j: int|
                            0 <= j < k && index_of(w, cells@[j].0 as int, cells@[j].1 as int)
                                == p;
                        assert(j < k - 1);
                    }
                }
            }
            assert(self.cells@ =~= with_alive(cells0, w, cells@, k as int));
        }
        Ok(())
    }

    /// Flips the cell at `(row, column)` between dead and alive, sets its age
    /// to zero and moves the population by one so that it stays the live
    /// count; generation and rule stay. Refused, with nothing changed, when
    /// the position lies outside the grid.
    pub fn toggle_cell(&mut self, row: u32, column: u32) -> (r: Result<(), UniverseError>)
        requires
            old(self).wf(),
        ensures
            final(self).wf(),
            r is Err <==> !in_grid(
                old(self)@.width as int,
                old(self)@.height as int,
                row as int,
                column as int,
            ),
            r is Err ==> r->Err_0 == UniverseError::OutOfRangeCoordinate && final(self)@ == old(
                self,
            )@,
            r is Ok ==> {
                let u = final(self)@;
                let i = index_of(old(self)@.width as int, row as int, column as int);
                &&& u.width == old(self)@.width
                &&& u.height == old(self)@.height
                &&& u.cells == old(self)@.cells.update(i, flipped(old(self)@.cells[i]))
                &&& u.ages == old(self)@.ages.update(i, 0)
                &&& u.population == count_alive(u.cells)
                &&& u.generation == old(self)@.generation
                &&& u.rule == old(self)@.rule
            },
    {
        if row >= self.height || column >= self.width {
            return Err(UniverseError::OutOfRangeCoordinate);
        }
        let i = self.get_index(row, column);
        proof {
            lemma_count_alive_update(self.cells@, i as int, flipped(self.cells@[i as int]));
            lemma_count_alive_bounds(self.cells@.update(i as int, flipped(self.cells@[i as int])));
            lemma_count_alive_bounds(self.cells@);
        }
        match self.cells[i] {
            Cell::Alive => {
                self.cells.set(i, Cell::Dead);
                self.population = self.population - 1;
            },
            Cell::Dead => {
                self.cells.set(i, Cell::Alive);
                self.population = self.population + 1;
            },
        }
        self.cell_age.set(i, 0);
        Ok(())
    }
    /// A `STARTER_SIZE` by `STARTER_SIZE` universe holding the starting
    /// pattern of `starter_cell`, with the B3/S23 rule, ages and generation
    /// zero, and the population equal to the live count.
    pub fn starter() -> (u: Universe)
        ensures
            u.wf(),
            u@.width == STARTER_SIZE,
            u@.height == STARTER_SIZE,
            u@.cells == Seq::new(u@.size(), |i: int| starter_cell(i)),
            u@.ages == Seq::new(u@.size(), |i: int| 0u8),
            u@.population == count_alive(u@.cells),
            u@.generation == 0,
            is_conway(u@.rule),
    {
        let n: u32 = STARTER_SIZE * STARTER_SIZE;
        let mut cells: Vec<Cell> = Vec::new();
        let mut population: u32 = 0;
        let mut i: u32 = 0;
        while i < n
            invariant
                n == STARTER_SIZE * STARTER_SIZE,
                i <= n,
                cells@ == Seq::new(i as nat, |k: int| starter_cell(k)),
                population == count_alive(cells@),
            decreases n - i,
        {
            let c = if i % 2 == 0 || i % 7 == 0 {
                Cell::Alive
            } else {
                Cell::Dead
            };
            proof {
                lemma_count_alive_push(cells@, c);
                lemma_count_alive_bounds(cells@.push(c));
            }
            if c.is_alive() {
                population = population + 1;
            }
            cells.push(c);
            i = i + 1;
            assert(cells@ =~= Seq::new(i as nat, |k: int| starter_cell(k)));
        }
        Universe {
            width: STARTER_SIZE,
            height: STARTER_SIZE,
            cells,
            cell_age: zero_ages(n),
            population,
            generation: 0,
            rule: Rule::conway(),
        }
    }

    /// Seeds the grid at `density` percent: `draws` holds one value per cell,
    /// taken by the caller from a uniform source over `0..100`, and a cell
    /// becomes alive exactly when its draw is below `density`. Ages and
    /// generation go to zero and the population to the live count;
    /// dimensions and rule stay. Refused, with nothing changed, when
    /// `density` is above one hundred.
    pub fn random(&mut self, density: u32, draws: &[u32]) -> (r: Result<(), UniverseError>)
        requires
            old(self).wf(),
            draws@.len() == old(self)@.size(),
        ensures
            final(self).wf(),
            r is Err <==> density > 100,
            r is Err ==> r->Err_0 == UniverseError::InvalidDensity && final(self)@ == old(self)@,
            r is Ok ==> {
                let u = final(self)@;
                &&& u.width == old(self)@.width
                &&& u.height == old(self)@.height
                &&& u.cells == seeded(draws@, density)
                &&& u.ages == Seq::new(u.size(), |i: int| 0u8)
                &&& u.population == count_alive(u.cells)
                &&& u.generation == 0
                &&& u.rule == old(self)@.rule
            },
    {
        if density > 100 {
            return Err(UniverseError::InvalidDensity);
        }
        let mut cells: Vec<Cell> = Vec::new();
        let mut population: u32 = 0;
        let mut i: usize = 0;
        while i < draws.len()
            invariant
                i <= draws@.len(),
                draws@.len() <= u32::MAX,
                cells@ == seeded(draws@.take(i as int), density),
                population == count_alive(cells@),
            decreases draws@.len() - i,
        {
            let c = if draws[i] < density {
                Cell::Alive
            } else {
                Cell::Dead
            };
            proof {
                lemma_count_alive_push(cells@, c);
                lemma_count_alive_bounds(cells@.push(c));
            }
            if c.is_alive() {
                population = population + 1;
            }
            cells.push(c);
            i = i + 1;
            assert(cells@ =~= seeded(draws@.take(i as int), density));
        }
        assert(draws@.take(i as int) =~= draws@);
        self.cell_age = zero_ages(draws.len() as u32);
        self.cells = cells;
        self.population = population;
        self.generation = 0;
        Ok(())
    }

    /// Replaces the rule by the one whose tables mark exactly the listed
    /// birth and survival counts; counts above eight are ignored. Nothing
    /// else changes.
    pub fn set_rule(&mut self, birth_counts: &[u8], survival_counts: &[u8])
        requires
            old(self).wf(),
        ensures
            final(self).wf(),
            final(self)@.rule.birth@ == counts_table(birth_counts@),
            final(self)@.rule.survival@ == counts_table(survival_counts@),
            final(self)@.width == old(self)@.width,
            final(self)@.height == old(self)@.height,
            final(self)@.cells == old(self)@.cells,
            final(self)@.ages == old(self)@.ages,
            final(self)@.population == old(self)@.population,
            final(self)@.generation == old(self)@.generation,
    {
        self.rule = Rule::from_counts(birth_counts, survival_counts);
    }

    /// Width of the grid.
    pub fn width(&self) -> (r: u32)
        ensures
            r == self@.width,
    {
        self.width
    }

    /// Height of the grid.
    pub fn height(&self) -> (r: u32)
        ensures
            r == self@.height,
    {
        self.height
    }

    /// Number of live cells.
    pub fn population(&self) -> (r: u32)
        requires
            self.wf(),
        ensures
            r == self@.population,
            r == count_alive(self@.cells),
    {
        self.population
    }

    /// Number of steps taken since construction or the last reset or seeding.
    pub fn generation(&self) -> (r: u32)
        ensures
            r == self@.generation,
    {
        self.generation
    }

    /// The cells, row by row.
    pub fn cells(&self) -> (r: &[Cell])
        ensures
            r@ == self@.cells,
    {
        self.cells.as_slice()
    }

    /// The cells, row by row.
    pub fn get_cells(&self) -> (r: &[Cell])
        ensures
            r@ == self@.cells,
    {
        self.cells.as_slice()
    }

    /// The age of each cell, in the order of the cells.
    pub fn cell_ages(&self) -> (r: &[u8])
        ensures
            r@ == self@.ages,
    {
        self.cell_age.as_slice()
    }

    /// The rule in force.
    pub fn rule(&self) -> (r: Rule)
        ensures
            r == self@.rule,
    {
        self.rule
    }
}

} // verus!
