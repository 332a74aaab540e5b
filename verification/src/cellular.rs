//! The automaton core: grid storage, toroidal neighbour counting, the
//! double-buffered stepping rule, per-step statistics and the bounded
//! population history.

use rand::RngExt;
use vstd::prelude::*;

verus! {

/// Upper bound on the number of population samples the history keeps.
pub const MAX_HISTORY: usize = 4000;

/// One cell in `SPAWN_RATIO` is seeded alive by `Grid::randomise_grid`.
pub const SPAWN_RATIO: i32 = 4;

// ---------------------------------------------------------------------------
// The mathematical model: a generation is a sequence of rows of booleans.
// ---------------------------------------------------------------------------

/// The mathematical view of row storage: each row of booleans as a sequence.
pub open spec fn matrix_of(rows: Seq<Vec<bool>>) -> Seq<Seq<bool>> {
    Seq::new(rows.len(), |y: int| rows[y]@)
}

/// `g` is a proper `h` by `w` matrix: `h` rows, each of width `w`.
pub open spec fn is_matrix(g: Seq<Seq<bool>>, w: int, h: int) -> bool {
    &&& g.len() == h
    &&& forall|y: int| 0 <= y < h ==> (#[trigger] g[y]).len() == w
}

/// Every cell of the `h` by `w` matrix `g` is dead.
pub open spec fn all_dead(g: Seq<Seq<bool>>, w: int, h: int) -> bool {
    forall|y: int, x: int| 0 <= y < h && 0 <= x < w ==> !(#[trigger] g[y][x])
}

/// Toroidal wraparound of the index `i` into `0 .. n`, for any `i` that is at
/// most one full period out of range; it agrees with the mathematical
/// (non-negative) modulo there, see `laws::lemma_wrap_index_is_mod`.
pub open spec fn wrap_index(i: int, n: int) -> int
    recommends
        1 <= n,
        -n <= i < 2 * n,
{
    if i < 0 {
        i + n
    } else if n <= i {
        i - n
    } else {
        i
    }
}

/// Whether the cell at toroidal position `(x, y)` of the `h` by `w` matrix
/// `g` is alive; `x` and `y` may be one period out of range.
pub open spec fn live_at(g: Seq<Seq<bool>>, w: int, h: int, x: int, y: int) -> bool {
    g[wrap_index(y, h)][wrap_index(x, w)]
}

/// 1 for a live cell, 0 for a dead one.
pub open spec fn one_if(alive: bool) -> int {
    if alive {
        1
    } else {
        0
    }
}

/// Number of live cells among the eight toroidal Moore neighbours of
/// `(x, y)` in the `h` by `w` matrix `g`.
pub open spec fn neighbour_count_of(g: Seq<Seq<bool>>, w: int, h: int, x: int, y: int) -> int {
    one_if(live_at(g, w, h, x - 1, y - 1)) + one_if(live_at(g, w, h, x, y - 1)) + one_if(
        live_at(g, w, h, x + 1, y - 1),
    ) + one_if(live_at(g, w, h, x - 1, y)) + one_if(live_at(g, w, h, x + 1, y)) + one_if(
        live_at(g, w, h, x - 1, y + 1),
    ) + one_if(live_at(g, w, h, x, y + 1)) + one_if(live_at(g, w, h, x + 1, y + 1))
}

/// The state of the cell `(x, y)` after one synchronous step of the rule:
/// a live cell survives on 2 or 3 live neighbours, a dead cell is born on
/// exactly 3, every other cell is dead.
pub open spec fn next_cell_of(g: Seq<Seq<bool>>, w: int, h: int, x: int, y: int) -> bool {
    let n = neighbour_count_of(g, w, h, x, y);
    if g[y][x] {
        n == 2 || n == 3
    } else {
        n == 3
    }
}

/// The whole next generation of the `h` by `w` matrix `g`, every cell judged
/// against the same unmodified snapshot `g`.
pub open spec fn step_of(g: Seq<Seq<bool>>, w: int, h: int) -> Seq<Seq<bool>> {
    Seq::new(h as nat, |y: int| Seq::new(w as nat, |x: int| next_cell_of(g, w, h, x, y)))
}

/// `n` synchronous steps applied to `g`.
pub open spec fn step_n_of(g: Seq<Seq<bool>>, w: int, h: int, n: nat) -> Seq<Seq<bool>>
    decreases n,
{
    if n == 0 {
        g
    } else {
        step_of(step_n_of(g, w, h, (n - 1) as nat), w, h)
    }
}

// ---------------------------------------------------------------------------
// Classification of a cell's transition, and counting over a generation pair.
// ---------------------------------------------------------------------------

/// Alive now, dead before.
pub open spec fn is_birth(now: bool, before: bool) -> bool {
    now && !before
}

/// Alive now, alive before.
pub open spec fn is_survivor(now: bool, before: bool) -> bool {
    now && before
}

/// Dead now, alive before.
pub open spec fn is_death(now: bool, before: bool) -> bool {
    !now && before
}

/// Dead now, dead before.
pub open spec fn is_still_dead(now: bool, before: bool) -> bool {
    !now && !before
}

/// Births among the first `n` cells of one row pair.
pub open spec fn row_births(cur: Seq<bool>, prev: Seq<bool>, n: int) -> int
    decreases n,
{
    if n <= 0 {
        0
    } else {
        row_births(cur, prev, n - 1) + one_if(is_birth(cur[n - 1], prev[n - 1]))
    }
}

/// Survivors among the first `n` cells of one row pair.
pub open spec fn row_survivors(cur: Seq<bool>, prev: Seq<bool>, n: int) -> int
    decreases n,
{
    if n <= 0 {
        0
    } else {
        row_survivors(cur, prev, n - 1) + one_if(is_survivor(cur[n - 1], prev[n - 1]))
    }
}

/// Deaths among the first `n` cells of one row pair.
pub open spec fn row_deaths(cur: Seq<bool>, prev: Seq<bool>, n: int) -> int
    decreases n,
{
    if n <= 0 {
        0
    } else {
        row_deaths(cur, prev, n - 1) + one_if(is_death(cur[n - 1], prev[n - 1]))
    }
}

/// Cells dead in both generations among the first `n` of one row pair.
pub open spec fn row_still_dead(cur: Seq<bool>, prev: Seq<bool>, n: int) -> int
    decreases n,
{
    if n <= 0 {
        0
    } else {
        row_still_dead(cur, prev, n - 1) + one_if(is_still_dead(cur[n - 1], prev[n - 1]))
    }
}

/// Births in the first `n` rows of a generation pair of width `w`.
pub open spec fn births_upto(cur: Seq<Seq<bool>>, prev: Seq<Seq<bool>>, w: int, n: int) -> int
    decreases n,
{
    if n <= 0 {
        0
    } else {
        births_upto(cur, prev, w, n - 1) + row_births(cur[n - 1], prev[n - 1], w)
    }
}

/// Survivors in the first `n` rows of a generation pair of width `w`.
pub open spec fn survivors_upto(cur: Seq<Seq<bool>>, prev: Seq<Seq<bool>>, w: int, n: int) -> int
    decreases n,
{
    if n <= 0 {
        0
    } else {
        survivors_upto(cur, prev, w, n - 1) + row_survivors(cur[n - 1], prev[n - 1], w)
    }
}

/// Deaths in the first `n` rows of a generation pair of width `w`.
pub open spec fn deaths_upto(cur: Seq<Seq<bool>>, prev: Seq<Seq<bool>>, w: int, n: int) -> int
    decreases n,
{
    if n <= 0 {
        0
    } else {
        deaths_upto(cur, prev, w, n - 1) + row_deaths(cur[n - 1], prev[n - 1], w)
    }
}

/// Cells dead in both generations in the first `n` rows of a pair of width `w`.
pub open spec fn still_dead_upto(cur: Seq<Seq<bool>>, prev: Seq<Seq<bool>>, w: int, n: int) -> int
    decreases n,
{
    if n <= 0 {
        0
    } else {
        still_dead_upto(cur, prev, w, n - 1) + row_still_dead(cur[n - 1], prev[n - 1], w)
    }
}

/// Births over a whole `h` by `w` generation pair.
pub open spec fn births_of(cur: Seq<Seq<bool>>, prev: Seq<Seq<bool>>, w: int, h: int) -> int {
    births_upto(cur, prev, w, h)
}

/// Survivors over a whole `h` by `w` generation pair.
pub open spec fn survivors_of(cur: Seq<Seq<bool>>, prev: Seq<Seq<bool>>, w: int, h: int) -> int {
    survivors_upto(cur, prev, w, h)
}

/// Deaths over a whole `h` by `w` generation pair.
pub open spec fn deaths_of(cur: Seq<Seq<bool>>, prev: Seq<Seq<bool>>, w: int, h: int) -> int {
    deaths_upto(cur, prev, w, h)
}

/// Population of the current generation: its births plus its survivors.
pub open spec fn population_of(cur: Seq<Seq<bool>>, prev: Seq<Seq<bool>>, w: int, h: int) -> int {
    births_of(cur, prev, w, h) + survivors_of(cur, prev, w, h)
}

/// Over the first `n` cells of a row pair, the four transition classes are
/// non-negative, bounded by `n`, and count every cell exactly once.
pub proof fn lemma_row_counts(cur: Seq<bool>, prev: Seq<bool>, n: int)
    requires
        0 <= n,
    ensures
        0 <= row_births(cur, prev, n) <= n,
        0 <= row_survivors(cur, prev, n) <= n,
        0 <= row_deaths(cur, prev, n) <= n,
        0 <= row_still_dead(cur, prev, n) <= n,
        row_births(cur, prev, n) + row_survivors(cur, prev, n) + row_deaths(cur, prev, n)
            + row_still_dead(cur, prev, n) == n,
    decreases n,
{
    if n > 0 {
        lemma_row_counts(cur, prev, n - 1);
    }
}

/// Over the first `n` rows of a generation pair of width `w`, the four
/// transition classes are non-negative, bounded by `n * w`, and count every
/// cell exactly once.
pub proof fn lemma_grid_counts(cur: Seq<Seq<bool>>, prev: Seq<Seq<bool>>, w: int, n: int)
    requires
        0 <= w,
        0 <= n,
    ensures
        0 <= births_upto(cur, prev, w, n) <= n * w,
        0 <= survivors_upto(cur, prev, w, n) <= n * w,
        0 <= deaths_upto(cur, prev, w, n) <= n * w,
        0 <= still_dead_upto(cur, prev, w, n) <= n * w,
        births_upto(cur, prev, w, n) + survivors_upto(cur, prev, w, n) + deaths_upto(
            cur,
            prev,
            w,
            n,
        ) + still_dead_upto(cur, prev, w, n) == n * w,
    decreases n,
{
    if n > 0 {
        lemma_grid_counts(cur, prev, w, n - 1);
        lemma_row_counts(cur[n - 1], prev[n - 1], w);
        assert((n - 1) * w + w == n * w) by (nonlinear_arith);
    } else {
        assert(n * w == 0) by (nonlinear_arith)
            requires
                n == 0,
        ;
    }
}

/// The history after recording `sample`: appended at the tail, with the
/// oldest entry evicted if the capacity would otherwise be exceeded.
pub open spec fn history_after(hist: Seq<u64>, sample: u64) -> Seq<u64> {
    let grown = hist.push(sample);
    if grown.len() > MAX_HISTORY {
        grown.subrange(1, grown.len() as int)
    } else {
        grown
    }
}

// ---------------------------------------------------------------------------
// Random seeding.
// ---------------------------------------------------------------------------

/// The seeding rule: a freshly drawn cell is alive exactly when its uniform
/// draw equals 1, so with probability one in `SPAWN_RATIO`.
pub open spec fn seeded_alive(draw: i32) -> bool {
    draw == 1
}

/// `g` is the image, row by row, of the uniform draws `draws` under the
/// seeding rule: one in-range draw per cell, and the cell `(x, y)` is alive
/// exactly when `draws[y][x]` equals 1.
pub open spec fn seeded_from(g: Seq<Seq<bool>>, draws: Seq<Seq<i32>>, w: int, h: int) -> bool {
    &&& draws.len() == h
    &&& forall|y: int| 0 <= y < h ==> (#[trigger] draws[y]).len() == w
    &&& forall|y: int, x: int|
        0 <= y < h && 0 <= x < w ==> 1 <= #[trigger] draws[y][x] <= SPAWN_RATIO
    &&& forall|y: int, x: int|
        0 <= y < h && 0 <= x < w ==> #[trigger] g[y][x] == seeded_alive(draws[y][x])
}

// ---------------------------------------------------------------------------
// Per-step statistics.
// ---------------------------------------------------------------------------

/// Counts of cell transitions between the previous and the current
/// generation, as classified by `is_birth`, `is_survivor` and `is_death`.
pub struct GridStats {
    births: u64,
    survivors: u64,
    deaths: u64,
}

impl GridStats {
    /// Number of cells alive now and dead before.
    pub closed spec fn spec_births(&self) -> u64 {
        self.births
    }

    /// Number of cells alive now and alive before.
    pub closed spec fn spec_survivors(&self) -> u64 {
        self.survivors
    }

    /// Number of cells dead now and alive before.
    pub closed spec fn spec_deaths(&self) -> u64 {
        self.deaths
    }

    pub fn get_births(&self) -> (r: u64)
        ensures
            r == self.spec_births(),
    {
        self.births
    }

    pub fn get_survivors(&self) -> (r: u64)
        ensures
            r == self.spec_survivors(),
    {
        self.survivors
    }

    pub fn get_deaths(&self) -> (r: u64)
        ensures
            r == self.spec_deaths(),
    {
        self.deaths
    }

    /// The population of the current generation: births plus survivors.
    /// The sum saturates instead of wrapping; the counts a grid hands out
    /// never reach that point, since they are bounded by its cell count.
    pub fn get_population(&self) -> (r: u64)
        ensures
            r == self.spec_births().saturating_add(self.spec_survivors()),
    {
        self.births.saturating_add(self.survivors)
    }
}

impl Default for GridStats {
    /// All three counters zero.
    fn default() -> (r: Self)
        ensures
            r.spec_births() == 0,
            r.spec_survivors() == 0,
            r.spec_deaths() == 0,
    {
        GridStats { births: 0, survivors: 0, deaths: 0 }
    }
}

// ---------------------------------------------------------------------------
// The grid aggregate.
// ---------------------------------------------------------------------------

/// The automaton: the current and the previous generation (always of the
/// same shape), the dimensions, the step counter, and the bounded history
/// of population samples.
pub struct Grid {
    cells: Vec<Vec<bool>>,
    prev_cells: Vec<Vec<bool>>,
    width: usize,
    height: usize,
    age: u64,
    history: std::collections::VecDeque<u64>,
}

impl Grid {
    /// The current generation, as a matrix of booleans.
    pub closed spec fn grid(&self) -> Seq<Seq<bool>> {
        matrix_of(self.cells@)
    }

    /// The previous generation, as a matrix of booleans.
    pub closed spec fn prev_grid(&self) -> Seq<Seq<bool>> {
        matrix_of(self.prev_cells@)
    }

    pub closed spec fn spec_width(&self) -> usize {
        self.width
    }

    pub closed spec fn spec_height(&self) -> usize {
        self.height
    }

    /// Steps taken since creation or the last randomisation (saturating).
    pub closed spec fn spec_age(&self) -> u64 {
        self.age
    }

    /// The recorded population samples, oldest first.
    pub closed spec fn spec_history(&self) -> Seq<u64> {
        self.history@
    }

    /// Well-formedness: positive dimensions whose product fits the 64-bit
    /// counters, both generations shaped `height` by `width`, and a history
    /// within its capacity.
    pub open spec fn wf(&self) -> bool {
        &&& 1 <= self.spec_width()
        &&& 1 <= self.spec_height()
        &&& (self.spec_width() as int) * (self.spec_height() as int) <= u64::MAX as int
        &&& is_matrix(self.grid(), self.spec_width() as int, self.spec_height() as int)
        &&& is_matrix(self.prev_grid(), self.spec_width() as int, self.spec_height() as int)
        &&& self.spec_history().len() <= MAX_HISTORY
    }

    /// A fresh grid of the given dimensions: both generations all dead,
    /// age zero, history empty.
    pub fn new(width: usize, height: usize) -> (grid: Grid)
        requires
            1 <= width,
            1 <= height,
            width * height <= u64::MAX,
        ensures
            grid.wf(),
            grid.spec_width() == width,
            grid.spec_height() == height,
            all_dead(grid.grid(), width as int, height as int),
            all_dead(grid.prev_grid(), width as int, height as int),
            grid.spec_age() == 0,
            grid.spec_history() == Seq::<u64>::empty(),
    {
        Grid {
            cells: dead_matrix(width, height),
            prev_cells: dead_matrix(width, height),
            width,
            height,
            age: 0,
            history: std::collections::VecDeque::new(),
        }
    }

    /// Total number of cells.
    pub fn get_max_cells(&self) -> (r: u64)
        requires
            self.wf(),
        ensures
            r == self.spec_width() * self.spec_height(),
    {
        (self.width as u64) * (self.height as u64)
    }

    pub fn get_age(&self) -> (r: u64)
        ensures
            r == self.spec_age(),
    {
        self.age
    }

    /// The current generation, one row of booleans per grid row.
    pub fn get_cells(&self) -> (r: &Vec<Vec<bool>>)
        ensures
            matrix_of(r@) == self.grid(),
    {
        &self.cells
    }

    /// The previous generation, one row of booleans per grid row.
    pub fn get_prev_cells(&self) -> (r: &Vec<Vec<bool>>)
        ensures
            matrix_of(r@) == self.prev_grid(),
    {
        &self.prev_cells
    }

    /// The recorded population samples, oldest first.
    pub fn get_history_data(&self) -> (r: &std::collections::VecDeque<u64>)
        ensures
            r@ == self.spec_history(),
    {
        &self.history
    }

    /// Changes the dimensions, applying the same reshaping to both
    /// generations: values on the overlap with the old bounds are kept
    /// positionally, newly added cells are dead, cells outside the new
    /// bounds are dropped. Age and history are untouched.
    pub fn resize_grid(&mut self, width: usize, height: usize)
        requires
            old(self).wf(),
            1 <= width,
            1 <= height,
            width * height <= u64::MAX,
        ensures
            final(self).wf(),
            final(self).spec_width() == width,
            final(self).spec_height() == height,
            final(self).spec_age() == old(self).spec_age(),
            final(self).spec_history() == old(self).spec_history(),
            forall|y: int, x: int|
                0 <= y < height && 0 <= x < width ==> #[trigger] final(self).grid()[y][x] == (y
                    < old(self).spec_height() && x < old(self).spec_width() && old(
                self,
                ).grid()[y][x]),
            forall|y: int, x: int|
                0 <= y < height && 0 <= x < width ==> #[trigger] final(self).prev_grid()[y][x] == (
                y < old(self).spec_height() && x < old(self).spec_width() && old(
                self,
                ).prev_grid()[y][x]),
    {
        let cells = resized_matrix(&self.cells, width, height);
        let prev_cells = resized_matrix(&self.prev_cells, width, height);
        self.cells = cells;
        self.prev_cells = prev_cells;
        self.width = width;
        self.height = height;
    }

    /// Sets one cell of the current generation; every other cell and the
    /// rest of the state are untouched.
    pub fn set_cell(&mut self, x: usize, y: usize, alive: bool)
        requires
            old(self).wf(),
            x < old(self).spec_width(),
            y < old(self).spec_height(),
        ensures
            final(self).wf(),
            final(self).spec_width() == old(self).spec_width(),
            final(self).spec_height() == old(self).spec_height(),
            final(self).spec_age() == old(self).spec_age(),
            final(self).spec_history() == old(self).spec_history(),
            final(self).prev_grid() == old(self).prev_grid(),
            final(self).grid()[y as int][x as int] == alive,
            forall|yy: int, xx: int|
                0 <= yy < old(self).spec_height() && 0 <= xx < old(self).spec_width() && !(yy == y
                    && xx == x) ==> #[trigger] final(self).grid()[yy][xx] == old(
                self,
                ).grid()[yy][xx],
    {
        let ghost prior = self.grid();
        proof {
            assert(prior[y as int].len() == self.spec_width() as int);
        }
        self.cells[y][x] = alive;
        proof {
            assert(self.grid() =~~= prior.update(y as int, prior[y as int].update(x as int, alive)));
        }
    }

    /// Number of live cells among the eight toroidal Moore neighbours of
    /// `(x, y)` in the current generation.
    pub fn get_neighbour_count(&self, x: usize, y: usize) -> (count: u32)
        requires
            self.wf(),
            x < self.spec_width(),
            y < self.spec_height(),
        ensures
            count == neighbour_count_of(
                self.grid(),
                self.spec_width() as int,
                self.spec_height() as int,
                x as int,
                y as int,
            ),
    {
        let left = if x == 0 {
            self.width - 1
        } else {
            x - 1
        };
        let right = if x + 1 == self.width {
            0
        } else {
            x + 1
        };
        let up = if y == 0 {
            self.height - 1
        } else {
            y - 1
        };
        let down = if y + 1 == self.height {
            0
        } else {
            y + 1
        };
        proof {
            assert(self.cells@.len() == self.spec_height() as int);
            assert(self.grid()[up as int].len() == self.spec_width() as int);
            assert(self.grid()[y as int].len() == self.spec_width() as int);
            assert(self.grid()[down as int].len() == self.spec_width() as int);
        }
        let mut count: u32 = 0;
        if self.cells[up][left] {
            count = count + 1;
        }
        if self.cells[up][x] {
            count = count + 1;
        }
        if self.cells[up][right] {
            count = count + 1;
        }
        if self.cells[y][left] {
            count = count + 1;
        }
        if self.cells[y][right] {
            count = count + 1;
        }
        if self.cells[down][left] {
            count = count + 1;
        }
        if self.cells[down][x] {
            count = count + 1;
        }
        if self.cells[down][right] {
            count = count + 1;
        }
        count
    }

    /// Classifies every cell of the current against the previous generation
    /// and counts births, survivors and deaths. Pure: may be called at any
    /// time, and does not change the grid.
    pub fn get_stats(&self) -> (stats: GridStats)
        requires
            self.wf(),
        ensures
            stats.spec_births() == births_of(
                self.grid(),
                self.prev_grid(),
                self.spec_width() as int,
                self.spec_height() as int,
            ),
            stats.spec_survivors() == survivors_of(
                self.grid(),
                self.prev_grid(),
                self.spec_width() as int,
                self.spec_height() as int,
            ),
            stats.spec_deaths() == deaths_of(
                self.grid(),
                self.prev_grid(),
                self.spec_width() as int,
                self.spec_height() as int,
            ),
            stats.spec_births() + stats.spec_survivors() + stats.spec_deaths()
                <= self.spec_width() * self.spec_height(),
    {
        let ghost g = self.grid();
        let ghost p = self.prev_grid();
        let ghost w = self.spec_width() as int;
        let ghost h = self.spec_height() as int;
        let mut births: u64 = 0;
        let mut survivors: u64 = 0;
        let mut deaths: u64 = 0;
        let mut y: usize = 0;
        while y < self.height
            invariant
                self.wf(),
                g == self.grid(),
                p == self.prev_grid(),
                w == self.spec_width() as int,
                h == self.spec_height() as int,
                y <= h,
                births == births_upto(g, p, w, y as int),
                survivors == survivors_upto(g, p, w, y as int),
                deaths == deaths_upto(g, p, w, y as int),
            decreases h - y,
        {
            let mut x: usize = 0;
            while x < self.width
                invariant
                    self.wf(),
                    g == self.grid(),
                    p == self.prev_grid(),
                    w == self.spec_width() as int,
                    h == self.spec_height() as int,
                    y < h,
                    x <= w,
                    births == births_upto(g, p, w, y as int) + row_births(
                        g[y as int],
                        p[y as int],
                        x as int,
                    ),
                    survivors == survivors_upto(g, p, w, y as int) + row_survivors(
                        g[y as int],
                        p[y as int],
                        x as int,
                    ),
                    deaths == deaths_upto(g, p, w, y as int) + row_deaths(
                        g[y as int],
                        p[y as int],
                        x as int,
                    ),
                decreases w - x,
            {
                proof {
                    assert(g[y as int].len() == w);
                    assert(p[y as int].len() == w);
                    lemma_grid_counts(g, p, w, y as int);
                    lemma_row_counts(g[y as int], p[y as int], x as int);
                    assert(y * w + x < h * w) by (nonlinear_arith)
                        requires
                            0 <= y < h,
                            0 <= x < w,
                    ;
                    assert(h * w == w * h);
                }
                if self.cells[y][x] {
                    if self.prev_cells[y][x] {
                        survivors = survivors + 1;
                    } else {
                        births = births + 1;
                    }
                } else {
                    if self.prev_cells[y][x] {
                        deaths = deaths + 1;
                    }
                }
                x = x + 1;
            }
            y = y + 1;
        }
        proof {
            lemma_grid_counts(g, p, w, h);
            assert(h * w == w * h);
        }
        GridStats { births, survivors, deaths }
    }

    /// The complete next generation, every cell computed against the same
    /// unmodified snapshot of the current one.
    fn next_generation(&self) -> (next: Vec<Vec<bool>>)
        requires
            self.wf(),
        ensures
            is_matrix(matrix_of(next@), self.spec_width() as int, self.spec_height() as int),
            forall|y: int, x: int|
                0 <= y < self.spec_height() && 0 <= x < self.spec_width()
                    ==> #[trigger] matrix_of(next@)[y][x] == next_cell_of(
                    self.grid(),
                    self.spec_width() as int,
                    self.spec_height() as int,
                    x,
                    y,
                ),
    {
        let ghost g = self.grid();
        let ghost w = self.spec_width() as int;
        let ghost h = self.spec_height() as int;
        let mut next: Vec<Vec<bool>> = Vec::new();
        let mut y: usize = 0;
        while y < self.height
            invariant
                self.wf(),
                g == self.grid(),
                w == self.spec_width() as int,
                h == self.spec_height() as int,
                y <= h,
                matrix_of(next@).len() == y,
                forall|r: int| 0 <= r < y ==> (#[trigger] matrix_of(next@)[r]).len() == w,
                forall|r: int, c: int|
                    0 <= r < y && 0 <= c < w ==> #[trigger] matrix_of(next@)[r][c] == next_cell_of(
                        g,
                        w,
                        h,
                        c,
                        r,
                    ),
            decreases h - y,
        {
            let mut row: Vec<bool> = Vec::new();
            let mut x: usize = 0;
            while x < self.width
                invariant
                    self.wf(),
                    g == self.grid(),
                    w == self.spec_width() as int,
                    h == self.spec_height() as int,
                    y < h,
                    x <= w,
                    row@.len() == x,
                    forall|c: int|
                        0 <= c < x ==> #[trigger] row@[c] == next_cell_of(g, w, h, c, y as int),
                decreases w - x,
            {
                proof {
                    assert(g[y as int].len() == w);
                }
                let n = self.get_neighbour_count(x, y);
                let alive = if self.cells[y][x] {
                    n == 2 || n == 3
                } else {
                    n == 3
                };
                row.push(alive);
                x = x + 1;
            }
            let ghost prior = matrix_of(next@);
            next.push(row);
            proof {
                assert(matrix_of(next@) =~~= prior.push(row@));
            }
            y = y + 1;
        }
        next
    }

    /// Advances the automaton one generation: records the pre-step
    /// population in the history (evicting the oldest sample at capacity),
    /// increments the age (saturating), and rotates the buffers so that the
    /// old current generation becomes the previous one.
    pub fn update_generation(&mut self)
        requires
            old(self).wf(),
        ensures
            final(self).wf(),
            final(self).spec_width() == old(self).spec_width(),
            final(self).spec_height() == old(self).spec_height(),
            final(self).prev_grid() == old(self).grid(),
            final(self).grid() == step_of(
                old(self).grid(),
                old(self).spec_width() as int,
                old(self).spec_height() as int,
            ),
            final(self).spec_age() == (if old(self).spec_age() == u64::MAX {
                u64::MAX as int
            } else {
                old(self).spec_age() + 1
            }),
            final(self).spec_history() == history_after(
                old(self).spec_history(),
                population_of(
                    old(self).grid(),
                    old(self).prev_grid(),
                    old(self).spec_width() as int,
                    old(self).spec_height() as int,
                ) as u64,
            ),
    {
        let ghost g = self.grid();
        let ghost p = self.prev_grid();
        let ghost w = self.spec_width() as int;
        let ghost h = self.spec_height() as int;
        let next = self.next_generation();
        let stats = self.get_stats();
        let population = stats.get_population();
        proof {
            lemma_grid_counts(g, p, w, h);
            assert(h * w == w * h);
            assert(population == population_of(g, p, w, h));
        }
        self.history.push_back(population);
        if self.history.len() > MAX_HISTORY {
            self.history.pop_front();
        }
        self.age = self.age.saturating_add(1);
        core::mem::swap(&mut self.cells, &mut self.prev_cells);
        self.cells = next;
        proof {
            assert(self.grid() =~~= step_of(g, w, h));
            assert(self.spec_history() =~= history_after(
                old(self).spec_history(),
                population_of(g, p, w, h) as u64,
            ));
        }
    }

    /// Re-seeds the current generation at random: one uniform draw in
    /// `1 ..= SPAWN_RATIO` per cell, and the cell is alive exactly when its
    /// draw equals 1 (`seeded_from` ties the new generation to the draws;
    /// which draws came up is chance, so they are quantified). The whole
    /// previous generation is set dead, and age and history are reset.
    pub fn randomise_grid(&mut self)
        requires
            old(self).wf(),
        ensures
            final(self).wf(),
            final(self).spec_width() == old(self).spec_width(),
            final(self).spec_height() == old(self).spec_height(),
            final(self).spec_age() == 0,
            final(self).spec_history() == Seq::<u64>::empty(),
            all_dead(
                final(self).prev_grid(),
                old(self).spec_width() as int,
                old(self).spec_height() as int,
            ),
            exists|draws: Seq<Seq<i32>>|
                seeded_from(
                    final(self).grid(),
                    draws,
                    old(self).spec_width() as int,
                    old(self).spec_height() as int,
                ),
    {
        let ghost w = self.spec_width() as int;
        let ghost h = self.spec_height() as int;
        self.age = 0;
        self.history.clear();
        let mut cells: Vec<Vec<bool>> = Vec::new();
        let ghost mut all_draws: Seq<Seq<i32>> = Seq::empty();
        let mut y: usize = 0;
        while y < self.height
            invariant
                w == self.spec_width() as int,
                h == self.spec_height() as int,
                y <= h,
                matrix_of(cells@).len() == y,
                all_draws.len() == y,
                forall|r: int| 0 <= r < y ==> (#[trigger] matrix_of(cells@)[r]).len() == w,
                forall|r: int| 0 <= r < y ==> (#[trigger] all_draws[r]).len() == w,
                forall|r: int, c: int|
                    0 <= r < y && 0 <= c < w ==> 1 <= #[trigger] all_draws[r][c] <= SPAWN_RATIO,
                forall|r: int, c: int|
                    0 <= r < y && 0 <= c < w ==> #[trigger] matrix_of(cells@)[r][c] == seeded_alive(
                        all_draws[r][c],
                    ),
            decreases h - y,
        {
            let mut row_draws: Vec<i32> = Vec::new();
            let mut x: usize = 0;
            while x < self.width
                invariant
                    w == self.spec_width() as int,
                    x <= w,
                    row_draws@.len() == x,
                    forall|c: int| 0 <= c < x ==> 1 <= #[trigger] row_draws@[c] <= SPAWN_RATIO,
                decreases w - x,
            {
                let draw = draw_uniform(1, SPAWN_RATIO);
                row_draws.push(draw);
                x = x + 1;
            }
            let row = seeded_row(&row_draws);
            let ghost prior = matrix_of(cells@);
            cells.push(row);
            proof {
                assert(matrix_of(cells@) =~~= prior.push(row@));
                all_draws = all_draws.push(row_draws@);
            }
            y = y + 1;
        }
        self.cells = cells;
        self.prev_cells = dead_matrix(self.width, self.height);
        proof {
            assert(seeded_from(self.grid(), all_draws, w, h));
        }
    }
}

/// Relies on `rand::rng` and `rand::RngExt::random_range`: a draw from the
/// thread-local generator, uniform over the non-empty inclusive range.
/// Nothing is promised beyond the bounds: every draw may differ.
#[verifier::external_body]
fn draw_uniform(lo: i32, hi: i32) -> (r: i32)
    requires
        lo <= hi,
    ensures
        lo <= r <= hi,
{
    let mut rng = rand::rng();
    rng.random_range(lo..=hi)
}

/// One row of the seeding rule: applied to one uniform draw per cell, it
/// yields the row whose cell `c` is alive exactly when `draws[c]` equals 1.
/// Verified for every value of the draws, so any seeding decision must come
/// from the draws alone.
pub fn seeded_row(draws: &Vec<i32>) -> (row: Vec<bool>)
    ensures
        row@.len() == draws@.len(),
        forall|c: int| 0 <= c < draws@.len() ==> #[trigger] row@[c] == seeded_alive(draws@[c]),
{
    let mut row: Vec<bool> = Vec::new();
    let mut x: usize = 0;
    while x < draws.len()
        invariant
            x <= draws@.len(),
            row@.len() == x,
            forall|c: int| 0 <= c < x ==> #[trigger] row@[c] == seeded_alive(draws@[c]),
        decreases draws@.len() - x,
    {
        row.push(draws[x] == 1);
        x = x + 1;
    }
    row
}

/// A `new_height` by `new_width` matrix that keeps the values of `m` on the
/// overlap with `m`'s own bounds and is dead everywhere else.
fn resized_matrix(m: &Vec<Vec<bool>>, new_width: usize, new_height: usize) -> (r: Vec<Vec<bool>>)
    ensures
        is_matrix(matrix_of(r@), new_width as int, new_height as int),
        forall|y: int, x: int|
            0 <= y < new_height && 0 <= x < new_width ==> #[trigger] matrix_of(r@)[y][x] == (y
                < matrix_of(m@).len() && x < matrix_of(m@)[y].len() && matrix_of(m@)[y][x]),
{
    let mut r: Vec<Vec<bool>> = Vec::new();
    let mut y: usize = 0;
    while y < new_height
        invariant
            y <= new_height,
            matrix_of(r@).len() == y,
            forall|yy: int| 0 <= yy < y ==> (#[trigger] matrix_of(r@)[yy]).len() == new_width,
            forall|yy: int, xx: int|
                0 <= yy < y && 0 <= xx < new_width ==> #[trigger] matrix_of(r@)[yy][xx] == (yy
                    < matrix_of(m@).len() && xx < matrix_of(m@)[yy].len() && matrix_of(m@)[yy][xx]),
        decreases new_height - y,
    {
        let mut row: Vec<bool> = Vec::new();
        let mut x: usize = 0;
        while x < new_width
            invariant
                x <= new_width,
                y < new_height,
                row@.len() == x,
                forall|xx: int|
                    0 <= xx < x ==> #[trigger] row@[xx] == (y < matrix_of(m@).len() && xx
                        < matrix_of(m@)[y as int].len() && matrix_of(m@)[y as int][xx]),
            decreases new_width - x,
        {
            let value = if y < m.len() && x < m[y].len() {
                m[y][x]
            } else {
                false
            };
            row.push(value);
            x = x + 1;
        }
        let ghost prior = matrix_of(r@);
        r.push(row);
        proof {
            assert(matrix_of(r@) =~~= prior.push(row@));
        }
        y = y + 1;
    }
    r
}

/// An all-dead matrix of `height` rows of width `width`.
fn dead_matrix(width: usize, height: usize) -> (m: Vec<Vec<bool>>)
    ensures
        is_matrix(matrix_of(m@), width as int, height as int),
        all_dead(matrix_of(m@), width as int, height as int),
{
    let mut m: Vec<Vec<bool>> = Vec::new();
    let mut y: usize = 0;
    while y < height
        invariant
            y <= height,
            matrix_of(m@).len() == y,
            forall|r: int| 0 <= r < y ==> (#[trigger] matrix_of(m@)[r]).len() == width,
            forall|r: int, c: int|
                0 <= r < y && 0 <= c < width ==> !(#[trigger] matrix_of(m@)[r][c]),
        decreases height - y,
    {
        let mut row: Vec<bool> = Vec::new();
        let mut x: usize = 0;
        while x < width
            invariant
                x <= width,
                row@.len() == x,
                forall|c: int| 0 <= c < x ==> !(#[trigger] row@[c]),
            decreases width - x,
        {
            row.push(false);
            x = x + 1;
        }
        let ghost prior = matrix_of(m@);
        m.push(row);
        proof {
            assert(matrix_of(m@) =~~= prior.push(row@));
        }
        y = y + 1;
    }
    m
}

} // verus!
