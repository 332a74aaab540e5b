//! General laws of the automaton, stated over the mathematical model of
//! [`crate::cellular`] and proved once for all grids: no spontaneous life,
//! the birth and survival rules, the fate of an isolated cell, the partition
//! of cells into transition classes, the history capacity, and the meaning
//! of the toroidal wraparound.

use vstd::arithmetic::div_mod::{
    lemma_mod_add_multiples_vanish, lemma_mod_sub_multiples_vanish, lemma_small_mod,
};
use vstd::prelude::*;

use crate::cellular::{
    all_dead, births_of, deaths_of, history_after, is_birth, is_death, is_matrix, is_still_dead,
    is_survivor, lemma_grid_counts, live_at, neighbour_count_of, one_if, population_of, step_n_of,
    step_of, still_dead_upto, survivors_of, wrap_index, GridStats, MAX_HISTORY,
};

verus! {

/// Toroidal wraparound is the mathematical (non-negative) modulo, for every
/// index at most one period out of range; in particular an index of `-1`
/// wraps to the far edge, `n - 1`, so the neighbours of `(x, y)` are exactly
/// the cells at `((x + dx) mod w, (y + dy) mod h)`.
pub proof fn lemma_wrap_index_is_mod(i: int, n: int)
    requires
        1 <= n,
        -n <= i < 2 * n,
    ensures
        wrap_index(i, n) == i % n,
{
    if i < 0 {
        lemma_small_mod((i + n) as nat, n as nat);
        lemma_mod_add_multiples_vanish(i, n);
    } else if n <= i {
        lemma_small_mod((i - n) as nat, n as nat);
        lemma_mod_sub_multiples_vanish(i, n);
    } else {
        lemma_small_mod(i as nat, n as nat);
    }
}

/// In an all-dead grid every cell has zero live neighbours.
pub proof fn lemma_all_dead_no_neighbours(g: Seq<Seq<bool>>, w: int, h: int, x: int, y: int)
    requires
        1 <= w,
        1 <= h,
        is_matrix(g, w, h),
        all_dead(g, w, h),
        0 <= x < w,
        0 <= y < h,
    ensures
        neighbour_count_of(g, w, h, x, y) == 0,
{
    assert(!live_at(g, w, h, x - 1, y - 1));
    assert(!live_at(g, w, h, x, y - 1));
    assert(!live_at(g, w, h, x + 1, y - 1));
    assert(!live_at(g, w, h, x - 1, y));
    assert(!live_at(g, w, h, x + 1, y));
    assert(!live_at(g, w, h, x - 1, y + 1));
    assert(!live_at(g, w, h, x, y + 1));
    assert(!live_at(g, w, h, x + 1, y + 1));
}

/// One step of an all-dead grid is an all-dead grid of the same shape.
pub proof fn lemma_step_all_dead(g: Seq<Seq<bool>>, w: int, h: int)
    requires
        1 <= w,
        1 <= h,
        is_matrix(g, w, h),
        all_dead(g, w, h),
    ensures
        is_matrix(step_of(g, w, h), w, h),
        all_dead(step_of(g, w, h), w, h),
{
    assert(forall|y: int| 0 <= y < h ==> (#[trigger] step_of(g, w, h)[y]).len() == w);
    assert forall|y: int, x: int| 0 <= y < h && 0 <= x < w implies !(#[trigger] step_of(
        g,
        w,
        h,
    )[y][x]) by {
        lemma_all_dead_no_neighbours(g, w, h, x, y);
    }
}

/// No spontaneous life: an all-dead grid of any valid size stays all dead
/// under any number of steps.
pub proof fn lemma_no_spontaneous_life(g: Seq<Seq<bool>>, w: int, h: int, n: nat)
    requires
        1 <= w,
        1 <= h,
        is_matrix(g, w, h),
        all_dead(g, w, h),
    ensures
        is_matrix(step_n_of(g, w, h, n), w, h),
        all_dead(step_n_of(g, w, h, n), w, h),
    decreases n,
{
    if n > 0 {
        lemma_no_spontaneous_life(g, w, h, (n - 1) as nat);
        lemma_step_all_dead(step_n_of(g, w, h, (n - 1) as nat), w, h);
    }
}

/// Birth rule: after one step, a dead cell is alive exactly when it had
/// three live toroidal neighbours; with any other count it stays dead.
pub proof fn lemma_birth_rule(g: Seq<Seq<bool>>, w: int, h: int, x: int, y: int)
    requires
        0 <= x < w,
        0 <= y < h,
        !g[y][x],
    ensures
        step_of(g, w, h)[y][x] <==> neighbour_count_of(g, w, h, x, y) == 3,
{
}

/// Survival rule: after one step, a live cell is alive exactly when it had
/// two or three live toroidal neighbours; with any other count it dies.
pub proof fn lemma_survival_rule(g: Seq<Seq<bool>>, w: int, h: int, x: int, y: int)
    requires
        0 <= x < w,
        0 <= y < h,
        g[y][x],
    ensures
        step_of(g, w, h)[y][x] <==> (neighbour_count_of(g, w, h, x, y) == 2
            || neighbour_count_of(g, w, h, x, y) == 3),
{
}

/// An isolated live cell, all eight toroidal neighbours dead, is dead after
/// exactly one step.
pub proof fn lemma_isolated_cell_dies(g: Seq<Seq<bool>>, w: int, h: int, x: int, y: int)
    requires
        0 <= x < w,
        0 <= y < h,
        g[y][x],
        !live_at(g, w, h, x - 1, y - 1),
        !live_at(g, w, h, x, y - 1),
        !live_at(g, w, h, x + 1, y - 1),
        !live_at(g, w, h, x - 1, y),
        !live_at(g, w, h, x + 1, y),
        !live_at(g, w, h, x - 1, y + 1),
        !live_at(g, w, h, x, y + 1),
        !live_at(g, w, h, x + 1, y + 1),
    ensures
        !step_of(g, w, h)[y][x],
{
}

/// Stats partition: every cell of a generation pair falls in exactly one of
/// the four transition classes, so births, survivors and deaths never sum
/// beyond the number of cells; and the population is exactly the births
/// plus the survivors.
pub proof fn lemma_stats_partition(cur: Seq<Seq<bool>>, prev: Seq<Seq<bool>>, w: int, h: int)
    requires
        0 <= w,
        0 <= h,
    ensures
        forall|now: bool, before: bool|
            one_if(is_birth(now, before)) + one_if(is_survivor(now, before)) + one_if(
                is_death(now, before),
            ) + one_if(is_still_dead(now, before)) == 1,
        0 <= births_of(cur, prev, w, h),
        0 <= survivors_of(cur, prev, w, h),
        0 <= deaths_of(cur, prev, w, h),
        births_of(cur, prev, w, h) + survivors_of(cur, prev, w, h) + deaths_of(cur, prev, w, h)
            + still_dead_upto(cur, prev, w, h) == w * h,
        births_of(cur, prev, w, h) + survivors_of(cur, prev, w, h) + deaths_of(cur, prev, w, h)
            <= w * h,
        population_of(cur, prev, w, h) == births_of(cur, prev, w, h) + survivors_of(
            cur,
            prev,
            w,
            h,
        ),
{
    lemma_grid_counts(cur, prev, w, h);
    assert(h * w == w * h) by (nonlinear_arith);
}

/// The population is the plain sum of births and survivors for every
/// statistics value a grid can hand out: `Grid::get_stats` bounds the three
/// counters by the cell count, which fits the 64-bit sum, so the saturation
/// in `GridStats::get_population` never takes effect there.
pub proof fn lemma_population_is_plain_sum(stats: GridStats, cells: int)
    requires
        stats.spec_births() + stats.spec_survivors() + stats.spec_deaths() <= cells,
        cells <= u64::MAX,
    ensures
        stats.spec_births().saturating_add(stats.spec_survivors()) == stats.spec_births()
            + stats.spec_survivors(),
{
}

/// History bound: recording one sample keeps the history within capacity;
/// below capacity it is appended, and at capacity exactly the oldest entry
/// is evicted as the newest is appended.
pub proof fn lemma_history_bound(hist: Seq<u64>, sample: u64)
    requires
        hist.len() <= MAX_HISTORY,
    ensures
        history_after(hist, sample).len() <= MAX_HISTORY,
        hist.len() < MAX_HISTORY ==> history_after(hist, sample) == hist.push(sample),
        hist.len() == MAX_HISTORY ==> history_after(hist, sample) == hist.drop_first().push(
            sample,
        ),
{
    if hist.len() == MAX_HISTORY {
        assert(history_after(hist, sample) =~= hist.drop_first().push(sample));
    }
}

} // verus!
